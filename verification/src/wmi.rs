//! What Windows Management Instrumentation reports of the machine.

use vstd::prelude::*;

verus! {

pub struct Win32OperatingSystem {
    pub serial_number: String,
    pub install_date: String,
}

pub struct Win32BIOS {
    pub serial_number: Option<String>,
    pub manufacturer: Option<String>,
}

pub struct Win32BaseBoard {
    pub serial_number: String,
    pub manufacturer: String,
}

pub struct Win32VideoController {
    pub pnp_device_id: String,
}

pub struct Win32DiskDrive {
    pub serial_number: String,
}

} // verus!
