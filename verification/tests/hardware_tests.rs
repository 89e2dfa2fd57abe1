use maxima::hardware::{
    decimal, disk_serial_from_fstab, ea_mac_text, extract_diskutil_volume_uuid,
    generate_pci_pnp_id, lspci_first_address, parse_sysfs_hex_id, root_creation_text,
    HardwareInfo, LinuxProbe, PciIds,
};

fn info() -> HardwareInfo {
    HardwareInfo {
        board_manufacturer: "ASUS".to_string(),
        board_sn: "None".to_string(),
        bios_manufacturer: "AMI".to_string(),
        bios_sn: "None".to_string(),
        os_install_date: "2020-01-01".to_string(),
        os_sn: "abc".to_string(),
        ..HardwareInfo::default()
    }
}

#[test]
fn decimal_numerals() {
    assert_eq!(decimal(0), "0");
    assert_eq!(decimal(7), "7");
    assert_eq!(decimal(1234567890), "1234567890");
    assert_eq!(decimal(u64::MAX), "18446744073709551615");
}

#[test]
fn mac_text_is_dollar_and_hex() {
    assert_eq!(ea_mac_text(&[0x0a, 0x1b, 0x2c, 0x3d, 0x4e, 0x5f]), "$0a1b2c3d4e5f");
    assert_eq!(ea_mac_text(&[]), "$");
}

#[test]
fn machine_id_hashes_the_fields() {
    let h = info();
    assert_eq!(h.generate_mid(Some("$0a1b2c3d4e5f")), "14317580265302506974");
    assert_eq!(h.generate_mid(None), "7360360134706353482");
    // An empty fingerprint hashes to the FNV offset basis.
    assert_eq!(HardwareInfo::default().generate_mid(None), "14695981039346656037");
}

#[test]
fn pci_pnp_ids() {
    assert_eq!(generate_pci_pnp_id(Some(0x10de), Some(0x2484), Some(0xa1)), "PCI\\VEN_10DE&DEV_2484&REV_A1");
    assert_eq!(generate_pci_pnp_id(Some(0x1002), None, Some(0x5)), "PCI\\VEN_1002&REV_05");
    assert_eq!(generate_pci_pnp_id(None, None, None), "PCI\\");
    assert_eq!(generate_pci_pnp_id(None, Some(0xabc), None), "PCI\\DEV_0ABC");
}

#[test]
fn sysfs_ids() {
    assert_eq!(parse_sysfs_hex_id("0x10de\n"), Some(0x10de));
    assert_eq!(parse_sysfs_hex_id("  0xA1 "), Some(0xa1));
    assert_eq!(parse_sysfs_hex_id("0xzz"), None);
    assert_eq!(parse_sysfs_hex_id(""), None);
    assert_eq!(parse_sysfs_hex_id("0x12345"), None);
}

#[test]
fn fstab_root_uuid() {
    let fstab = "# comment\nUUID=\"1111\" /boot ext4 defaults 0 2\nUUID=abcd-ef / ext4 defaults 0 1\n";
    assert_eq!(disk_serial_from_fstab(fstab), "abcd-ef");
    let quoted = "UUID=\"q-1\" / btrfs defaults 0 0";
    assert_eq!(disk_serial_from_fstab(quoted), "q-1");
    assert_eq!(disk_serial_from_fstab("/dev/sda1 / ext4 defaults 0 1"), "None");
    assert_eq!(disk_serial_from_fstab(""), "None");
}

#[test]
fn diskutil_volume_uuid() {
    let out = "   Device Identifier:        disk1s1\n   Volume UUID:              ABC-123\n";
    assert_eq!(extract_diskutil_volume_uuid(out), Some("ABC-123".to_string()));
    assert_eq!(extract_diskutil_volume_uuid("Volume UUID:\n"), None);
    assert_eq!(extract_diskutil_volume_uuid("nothing"), None);
}

#[test]
fn lspci_address() {
    assert_eq!(lspci_first_address("0000:01:00.0 VGA compatible controller\n0000:02:00.0 x"), Some("0000:01:00.0".to_string()));
    assert_eq!(lspci_first_address(""), None);
    assert_eq!(lspci_first_address("   \nx"), Some(String::new()));
}

#[test]
fn root_creation_dates() {
    assert_eq!(root_creation_text(None), "1970-01-0100:00:00.000000000+0000");
    assert_eq!(root_creation_text(Some(0)), "1970-01-0100:00:00.000000000+0000");
    assert_eq!(root_creation_text(Some(86400 + 3661)), "1970-01-0201:01:01.000000000+0000");
}

#[test]
fn linux_probe_fingerprint() {
    let probe = LinuxProbe {
        board_vendor: Some("  Micro-Star \n".to_string()),
        bios_vendor: None,
        os_install_date: "2021-02-03".to_string(),
        machine_id: Some("deadbeef\n".to_string()),
        gpu: Some(PciIds { vendor: Some(0x10de), device: Some(0x1), revision: None }),
        fstab: Some("UUID=root-1 / ext4 defaults 0 1".to_string()),
        mac: Some("$00".to_string()),
    };
    let h = HardwareInfo::new(probe);
    assert_eq!(h.board_manufacturer, "Micro-Star");
    assert_eq!(h.bios_manufacturer, "Linux Foundation");
    assert_eq!(h.board_sn, "None");
    assert_eq!(h.bios_sn, "None");
    assert_eq!(h.os_sn, "deadbeef");
    assert_eq!(h.os_install_date, "2021-02-03");
    assert_eq!(h.gpu_pnp_id, Some("PCI\\VEN_10DE&DEV_0001".to_string()));
    assert_eq!(h.disk_sn, "root-1");
    assert_eq!(h.mac, Some("$00".to_string()));
    let bare = HardwareInfo::new(LinuxProbe {
        board_vendor: None,
        bios_vendor: None,
        os_install_date: String::new(),
        machine_id: None,
        gpu: None,
        fstab: None,
        mac: None,
    });
    assert_eq!(bare.os_sn, "None");
    assert_eq!(bare.disk_sn, "None");
    assert!(bare.gpu_pnp_id.is_none());
}

#[test]
fn gpu_device_number() {
    let mut h = info();
    assert_eq!(h.get_gpu_id(), Some(0));
    h.gpu_pnp_id = Some("PCI\\VEN_10DE&DEV_2484&SUBSYS_00000000&REV_A1".to_string());
    assert_eq!(h.get_gpu_id(), Some(0x2484));
    h.gpu_pnp_id = Some("PCI\\VEN_10DE".to_string());
    assert_eq!(h.get_gpu_id(), Some(0));
    h.gpu_pnp_id = Some("DEV_ZZ".to_string());
    assert_eq!(h.get_gpu_id(), None);
    h.gpu_pnp_id = Some("DEV_123456789".to_string());
    assert_eq!(h.get_gpu_id(), None);
}
