//! The hardware fingerprint that EA's login asks for, and the machine id derived from it.

use crate::crypto::{fnv1a, hash_fnv1a};
use crate::pattern::{capture_group, regex_capture};
use crate::text::{
    concat, hex_encode, hex_lower, is_white_space, lines, lines_spec, push_char, push_str,
    split_whitespace, starts_with, starts_with_spec, str_eq, trim, trim_spec, views, words_spec,
};
use chrono::TimeZone;
use vstd::prelude::*;
use vstd::string::StrSliceExecFns;
use vstd::utf8::encode_utf8;

verus! {

/// What the launcher reports about the machine.
pub struct HardwareInfo {
    pub board_manufacturer: String,
    pub board_sn: String,
    pub bios_manufacturer: String,
    pub bios_sn: String,
    pub os_install_date: String,
    pub os_sn: String,
    pub disk_sn: String,
    pub gpu_pnp_id: Option<String>,
    pub mac: Option<String>,
}

impl Default for HardwareInfo {
    fn default() -> (r: Self)
        ensures
            r.board_manufacturer@ == Seq::<char>::empty(),
            r.board_sn@ == Seq::<char>::empty(),
            r.bios_manufacturer@ == Seq::<char>::empty(),
            r.bios_sn@ == Seq::<char>::empty(),
            r.os_install_date@ == Seq::<char>::empty(),
            r.os_sn@ == Seq::<char>::empty(),
            r.disk_sn@ == Seq::<char>::empty(),
            r.gpu_pnp_id is None,
            r.mac is None,
    {
        HardwareInfo {
            board_manufacturer: String::new(),
            board_sn: String::new(),
            bios_manufacturer: String::new(),
            bios_sn: String::new(),
            os_install_date: String::new(),
            os_sn: String::new(),
            disk_sn: String::new(),
            gpu_pnp_id: None,
            mac: None,
        }
    }
}

/// The decimal digit for a value below 10.
pub open spec fn digit_char(d: nat) -> char {
    ('0' as nat + d) as char
}

/// The decimal numeral of `n`, without leading zeros.
pub open spec fn decimal_spec(n: nat) -> Seq<char>
    decreases n,
{
    if n < 10 {
        seq![digit_char(n)]
    } else {
        decimal_spec(n / 10).push(digit_char(n % 10))
    }
}

/// `u64::to_string`.
pub fn decimal(n: u64) -> (r: String)
    ensures
        r@ == decimal_spec(n as nat),
    decreases n,
{
    let d = (n % 10) as u8;
    let c = (48u8 + d) as char;
    assert(c == digit_char((n % 10) as nat));
    if n < 10 {
        let mut s = String::new();
        push_char(&mut s, c);
        assert(s@ =~= seq![c]);
        s
    } else {
        let mut s = decimal(n / 10);
        push_char(&mut s, c);
        s
    }
}

/// The text the machine id hashes: the board, BIOS and OS fields in order, then the MAC
/// text when there is one.
pub open spec fn mid_text(h: HardwareInfo, mac: Option<Seq<char>>) -> Seq<char> {
    let base = h.board_manufacturer@ + h.board_sn@ + h.bios_manufacturer@ + h.bios_sn@
        + h.os_install_date@ + h.os_sn@;
    match mac {
        Some(m) => base + m,
        None => base,
    }
}

/// How the launcher writes a MAC address: `$` and its bytes in lower-case hexadecimal.
pub open spec fn ea_mac_spec(bytes: Seq<u8>) -> Seq<char> {
    seq!['$'] + hex_lower(bytes)
}

/// The MAC text for the address bytes.
pub fn ea_mac_text(bytes: &[u8]) -> (r: String)
    ensures
        r@ == ea_mac_spec(bytes@),
{
    let hex = hex_encode(bytes);
    proof {
        reveal_strlit("$");
        assert("$"@ =~= seq!['$']);
    }
    concat("$", hex.as_str())
}

impl HardwareInfo {
    /// The machine id: the decimal FNV-1a hash of the UTF-8 bytes of `mid_text`, with the
    /// MAC text that the machine reports.
    pub fn generate_mid(&self, mac: Option<&str>) -> (r: String)
        ensures
            r@ == decimal_spec(
                fnv1a(
                    encode_utf8(
                        mid_text(
                            *self,
                            match mac {
                                Some(m) => Some(m@),
                                None => None,
                            },
                        ),
                    ),
                ) as nat,
            ),
    {
        let mut buffer = String::new();
        push_str(&mut buffer, self.board_manufacturer.as_str());
        push_str(&mut buffer, self.board_sn.as_str());
        push_str(&mut buffer, self.bios_manufacturer.as_str());
        push_str(&mut buffer, self.bios_sn.as_str());
        push_str(&mut buffer, self.os_install_date.as_str());
        push_str(&mut buffer, self.os_sn.as_str());
        if let Some(m) = mac {
            push_str(&mut buffer, m);
        }
        let hash = hash_fnv1a(buffer.as_str().as_bytes());
        decimal(hash)
    }

    /// The GPU's device number: the hexadecimal text after `DEV_` in its PnP id (0 when
    /// there is no PnP id or no such field). Nothing where the launcher would stop: when
    /// the pattern does not compile, or the digits do not fit in 32 bits.
    pub fn get_gpu_id(&self) -> (r: Option<u32>)
        ensures
            r == gpu_id_spec(
                match self.gpu_pnp_id {
                    Some(id) => Some(id@),
                    None => None,
                },
            ),
    {
        match &self.gpu_pnp_id {
            Some(id) => match capture_group(GPU_DEVICE_PATTERN, id.as_str(), 1) {
                None => None,
                Some(None) => Some(0),
                Some(Some(digits)) => parse_hex_u32_exec(digits.as_str()),
            },
            None => Some(0),
        }
    }
}

/// The pattern whose first group is the device number of a PnP id.
pub const GPU_DEVICE_PATTERN: &'static str = "DEV_(\\w+)";

/// The GPU's device number for a PnP id, as `get_gpu_id` computes it.
pub open spec fn gpu_id_spec(pnp_id: Option<Seq<char>>) -> Option<u32> {
    match pnp_id {
        None => Some(0),
        Some(id) => match regex_capture(GPU_DEVICE_PATTERN@, id, 1) {
            None => None,
            Some(None) => Some(0),
            Some(Some(digits)) => parse_hex_u32(digits),
        },
    }
}

/// `s` with every leading copy of `p` removed (`str::trim_start_matches` with a string).
pub open spec fn strip_all_prefix(s: Seq<char>, p: Seq<char>) -> Seq<char>
    decreases s.len(),
{
    if p.len() > 0 && starts_with_spec(s, p) {
        strip_all_prefix(s.skip(p.len() as int), p)
    } else {
        s
    }
}

/// `s` without leading copies of `c`.
pub open spec fn trim_start_char(s: Seq<char>, c: char) -> Seq<char>
    decreases s.len(),
{
    if s.len() > 0 && s[0] == c {
        trim_start_char(s.drop_first(), c)
    } else {
        s
    }
}

/// `s` without trailing copies of `c`.
pub open spec fn trim_end_char(s: Seq<char>, c: char) -> Seq<char>
    decreases s.len(),
{
    if s.len() > 0 && s.last() == c {
        trim_end_char(s.drop_last(), c)
    } else {
        s
    }
}

/// `str::trim_matches` with a character.
pub open spec fn trim_char(s: Seq<char>, c: char) -> Seq<char> {
    trim_end_char(trim_start_char(s, c), c)
}

pub(crate) fn strip_all_prefix_pub<'a>(s: &'a str, p: &str) -> (r: &'a str)
    ensures
        r@ == strip_all_prefix(s@, p@),
{
    let m = p.unicode_len();
    if m == 0 {
        return s;
    }
    let mut cur = s;
    while starts_with(cur, p)
        invariant
            m == p@.len(),
            m > 0,
            strip_all_prefix(s@, p@) == strip_all_prefix(cur@, p@),
        decreases cur@.len(),
    {
        let n = cur.unicode_len();
        let next = cur.substring_char(m, n);
        assert(next@ =~= cur@.skip(m as int));
        cur = next;
    }
    cur
}

pub(crate) fn trim_char_pub(s: &str, c: char) -> (r: &str)
    ensures
        r@ == trim_char(s@, c),
{
    let n = s.unicode_len();
    let mut i: usize = 0;
    assert(s@.subrange(0, n as int) =~= s@);
    while i < n && s.get_char(i) == c
        invariant
            n == s@.len(),
            i <= n,
            trim_start_char(s@, c) == trim_start_char(s@.subrange(i as int, n as int), c),
        decreases n - i,
    {
        assert(s@.subrange(i as int, n as int).drop_first() =~= s@.subrange(i + 1, n as int));
        i = i + 1;
    }
    let mut j: usize = n;
    while j > i && s.get_char(j - 1) == c
        invariant
            n == s@.len(),
            i <= j <= n,
            trim_end_char(s@.subrange(i as int, n as int), c) == trim_end_char(
                s@.subrange(i as int, j as int),
                c,
            ),
        decreases j,
    {
        assert(s@.subrange(i as int, j as int).drop_last() =~= s@.subrange(i as int, j - 1));
        j = j - 1;
    }
    s.substring_char(i, j)
}

/// The first word of `fields` that starts with `UUID=`.
pub open spec fn uuid_field(fields: Seq<Seq<char>>) -> Option<Seq<char>>
    decreases fields.len(),
{
    if fields.len() == 0 {
        None
    } else if starts_with_spec(fields[0], "UUID="@) {
        Some(fields[0])
    } else {
        uuid_field(fields.drop_first())
    }
}

/// What one line of `/etc/fstab` says of the root file system's UUID: for a line that is
/// not a comment, not empty, and mounts `/`, its first `UUID=` field without the prefix
/// and quotes.
pub open spec fn fstab_line_uuid(line: Seq<char>) -> Option<Seq<char>> {
    let fields = words_spec(line);
    if line.len() == 0 || line[0] == '#' {
        None
    } else if fields.len() >= 2 && fields[1] == "/"@ {
        match uuid_field(fields) {
            Some(f) => Some(trim_char(strip_all_prefix(f, "UUID="@), '"')),
            None => None,
        }
    } else {
        None
    }
}

/// The disk serial read from the lines of `/etc/fstab`: the root UUID of the last line
/// that gives one, `None` (the text) if no line does.
pub open spec fn fstab_serial(ls: Seq<Seq<char>>) -> Seq<char>
    decreases ls.len(),
{
    if ls.len() == 0 {
        "None"@
    } else {
        match fstab_line_uuid(ls.last()) {
            Some(u) => u,
            None => fstab_serial(ls.drop_last()),
        }
    }
}

fn find_uuid_field(fields: &Vec<String>) -> (r: Option<usize>)
    ensures
        match uuid_field(views(fields@)) {
            Some(f) => r matches Some(i) && i < fields.len() && fields@[i as int]@ == f,
            None => r is None,
        },
{
    let ghost vs = views(fields@);
    let mut i: usize = 0;
    assert(vs.skip(0) =~= vs);
    while i < fields.len()
        invariant
            i <= fields.len(),
            vs == views(fields@),
            vs.len() == fields.len(),
            uuid_field(vs) == uuid_field(vs.skip(i as int)),
        decreases fields.len() - i,
    {
        assert(vs.skip(i as int)[0] == fields@[i as int]@);
        assert(vs.skip(i as int).drop_first() =~= vs.skip(i + 1));
        if starts_with(fields[i].as_str(), "UUID=") {
            return Some(i);
        }
        i = i + 1;
    }
    assert(vs.skip(i as int) =~= Seq::<Seq<char>>::empty());
    None
}

fn fstab_line_uuid_exec(line: &str) -> (r: Option<String>)
    ensures
        match fstab_line_uuid(line@) {
            Some(u) => r matches Some(s) && s@ == u,
            None => r is None,
        },
{
    if line.unicode_len() == 0 || line.get_char(0) == '#' {
        return None;
    }
    let fields = split_whitespace(line);
    if fields.len() < 2 || !str_eq(fields[1].as_str(), "/") {
        return None;
    }
    match find_uuid_field(&fields) {
        Some(i) => {
            let stripped = strip_all_prefix_pub(fields[i].as_str(), "UUID=");
            Some(trim_char_pub(stripped, '"').to_string())
        },
        None => None,
    }
}

/// The disk serial that `/etc/fstab` gives: the UUID of the root file system.
pub fn disk_serial_from_fstab(fstab: &str) -> (r: String)
    ensures
        r@ == fstab_serial(lines_spec(fstab@)),
{
    let ls = lines(fstab);
    let ghost vs = views(ls@);
    let mut serial = "None".to_string();
    let mut i: usize = 0;
    assert(vs.take(0) =~= Seq::<Seq<char>>::empty());
    while i < ls.len()
        invariant
            i <= ls.len(),
            vs == views(ls@),
            vs.len() == ls.len(),
            serial@ == fstab_serial(vs.take(i as int)),
        decreases ls.len() - i,
    {
        assert(vs.take(i + 1).drop_last() =~= vs.take(i as int));
        assert(vs.take(i + 1).last() == ls@[i as int]@);
        match fstab_line_uuid_exec(ls[i].as_str()) {
            Some(u) => {
                serial = u;
            },
            None => {},
        }
        i = i + 1;
    }
    assert(vs.take(ls.len() as int) =~= vs);
    serial
}

/// The volume UUID in the output of `diskutil info /`: the third word of the first line
/// that, trimmed, starts with `Volume UUID:` and has one.
pub open spec fn diskutil_uuid(ls: Seq<Seq<char>>) -> Option<Seq<char>>
    decreases ls.len(),
{
    if ls.len() == 0 {
        None
    } else if starts_with_spec(trim_spec(ls[0]), "Volume UUID:"@) && words_spec(ls[0]).len()
        > 2 {
        Some(words_spec(ls[0])[2])
    } else {
        diskutil_uuid(ls.drop_first())
    }
}

pub fn extract_diskutil_volume_uuid(output: &str) -> (r: Option<String>)
    ensures
        match diskutil_uuid(lines_spec(output@)) {
            Some(u) => r matches Some(s) && s@ == u,
            None => r is None,
        },
{
    let ls = lines(output);
    let ghost vs = views(ls@);
    let mut i: usize = 0;
    assert(vs.skip(0) =~= vs);
    while i < ls.len()
        invariant
            i <= ls.len(),
            vs == views(ls@),
            vs.len() == ls.len(),
            vs == lines_spec(output@),
            diskutil_uuid(vs) == diskutil_uuid(vs.skip(i as int)),
        decreases ls.len() - i,
    {
        assert(vs.skip(i as int)[0] == ls@[i as int]@);
        assert(vs.skip(i as int).drop_first() =~= vs.skip(i + 1));
        let line = ls[i].as_str();
        if starts_with(trim(line), "Volume UUID:") {
            let parts = split_whitespace(line);
            if parts.len() > 2 {
                assert(views(parts@)[2] == parts@[2]@);
                return Some(parts[2].clone());
            }
        }
        i = i + 1;
    }
    assert(vs.skip(i as int) =~= Seq::<Seq<char>>::empty());
    None
}

/// The PCI address that `lspci -Dd *:*:0300` prints first: the first word of its first
/// line, empty when that line has none; nothing when there is no line.
pub open spec fn lspci_address(output: Seq<char>) -> Option<Seq<char>> {
    let ls = lines_spec(output);
    if ls.len() == 0 {
        None
    } else if words_spec(ls[0]).len() == 0 {
        Some(Seq::empty())
    } else {
        Some(words_spec(ls[0])[0])
    }
}

pub fn lspci_first_address(output: &str) -> (r: Option<String>)
    ensures
        match lspci_address(output@) {
            Some(a) => r matches Some(s) && s@ == a,
            None => r is None,
        },
{
    let ls = lines(output);
    assert(views(ls@).len() == ls.len());
    if ls.len() == 0 {
        return None;
    }
    assert(views(ls@)[0] == ls@[0]@);
    let words = split_whitespace(ls[0].as_str());
    assert(views(words@).len() == words.len());
    if words.len() == 0 {
        Some(String::new())
    } else {
        assert(views(words@)[0] == words@[0]@);
        Some(words[0].clone())
    }
}

/// The upper-case hexadecimal digit for a value below 16.
pub open spec fn hex_upper_digit(v: nat) -> char {
    if v < 10 {
        ('0' as nat + v) as char
    } else {
        ('A' as nat + v - 10) as char
    }
}

/// The upper-case hexadecimal numeral of `v`, without leading zeros.
pub open spec fn hex_upper(v: nat) -> Seq<char>
    decreases v,
{
    if v < 16 {
        seq![hex_upper_digit(v)]
    } else {
        hex_upper(v / 16).push(hex_upper_digit(v % 16))
    }
}

/// `v` in upper-case hexadecimal, padded with zeros to `width` digits (`{:0width$X}`).
pub open spec fn hex_upper_padded(v: nat, width: nat) -> Seq<char> {
    let digits = hex_upper(v);
    if digits.len() < width {
        Seq::new((width - digits.len()) as nat, |i: int| '0') + digits
    } else {
        digits
    }
}

fn hex_upper_exec(v: u16) -> (r: String)
    ensures
        r@ == hex_upper(v as nat),
    decreases v,
{
    let d = (v % 16) as u8;
    let c = if d < 10 {
        (48u8 + d) as char
    } else {
        (55u8 + d) as char
    };
    assert(c == hex_upper_digit((v % 16) as nat));
    if v < 16 {
        let mut s = String::new();
        push_char(&mut s, c);
        assert(s@ =~= seq![c]);
        s
    } else {
        let mut s = hex_upper_exec(v / 16);
        push_char(&mut s, c);
        s
    }
}

proof fn lemma_hex_upper_len(v: nat)
    ensures
        1 <= hex_upper(v).len(),
        v < 0x10000 ==> hex_upper(v).len() <= 4,
        v < 0x1000 ==> hex_upper(v).len() <= 3,
        v < 0x100 ==> hex_upper(v).len() <= 2,
    decreases v,
{
    if v >= 16 {
        lemma_hex_upper_len(v / 16);
    }
}

fn hex_upper_padded_exec(v: u16, width: usize) -> (r: String)
    requires
        width <= 4,
    ensures
        r@ == hex_upper_padded(v as nat, width as nat),
{
    let digits = hex_upper_exec(v);
    proof {
        lemma_hex_upper_len(v as nat);
    }
    let n = digits.as_str().unicode_len();
    if n >= width {
        return digits;
    }
    let mut s = String::new();
    let mut k: usize = 0;
    while k < width - n
        invariant
            n < width,
            k <= width - n,
            s@ == Seq::new(k as nat, |i: int| '0'),
        decreases width - n - k,
    {
        push_char(&mut s, '0');
        k = k + 1;
        assert(s@ =~= Seq::new(k as nat, |i: int| '0'));
    }
    push_str(&mut s, digits.as_str());
    s
}

/// The plug-and-play id of a PCI device: `PCI\` and the sections present, joined by `&`:
/// `VEN_` and the vendor in 4 hexadecimal digits, `DEV_` and the device in 4, `REV_` and
/// the revision in at least 2.
pub open spec fn pci_pnp_spec(vendor: Option<u16>, device: Option<u16>, revision: Option<u16>) -> Seq<char> {
    let sections: Seq<Seq<char>> = (match vendor {
        Some(v) => seq!["VEN_"@ + hex_upper_padded(v as nat, 4)],
        None => Seq::empty(),
    }) + (match device {
        Some(d) => seq!["DEV_"@ + hex_upper_padded(d as nat, 4)],
        None => Seq::empty(),
    }) + (match revision {
        Some(r) => seq!["REV_"@ + hex_upper_padded(r as nat, 2)],
        None => Seq::empty(),
    });
    "PCI\\"@ + join_amp(sections)
}

/// Sections joined with `&`.
pub open spec fn join_amp(sections: Seq<Seq<char>>) -> Seq<char>
    decreases sections.len(),
{
    if sections.len() == 0 {
        Seq::empty()
    } else if sections.len() == 1 {
        sections[0]
    } else {
        join_amp(sections.drop_last()) + seq!['&'] + sections.last()
    }
}

pub fn generate_pci_pnp_id(vendor: Option<u16>, device: Option<u16>, revision: Option<u16>) -> (r:
    String)
    ensures
        r@ == pci_pnp_spec(vendor, device, revision),
{
    let mut sections: Vec<String> = Vec::new();
    if let Some(v) = vendor {
        sections.push(concat("VEN_", hex_upper_padded_exec(v, 4).as_str()));
    }
    if let Some(d) = device {
        sections.push(concat("DEV_", hex_upper_padded_exec(d, 4).as_str()));
    }
    if let Some(rv) = revision {
        sections.push(concat("REV_", hex_upper_padded_exec(rv, 2).as_str()));
    }
    let ghost expected: Seq<Seq<char>> = (match vendor {
        Some(v) => seq!["VEN_"@ + hex_upper_padded(v as nat, 4)],
        None => Seq::empty(),
    }) + (match device {
        Some(d) => seq!["DEV_"@ + hex_upper_padded(d as nat, 4)],
        None => Seq::empty(),
    }) + (match revision {
        Some(r) => seq!["REV_"@ + hex_upper_padded(r as nat, 2)],
        None => Seq::empty(),
    });
    assert(views(sections@) =~= expected);
    let mut joined = String::new();
    let mut i: usize = 0;
    assert(views(sections@).take(0) =~= Seq::<Seq<char>>::empty());
    while i < sections.len()
        invariant
            i <= sections.len(),
            views(sections@).len() == sections.len(),
            joined@ == join_amp(views(sections@).take(i as int)),
        decreases sections.len() - i,
    {
        let ghost vs = views(sections@);
        assert(vs.take(i + 1).drop_last() =~= vs.take(i as int));
        assert(vs.take(i + 1).last() == sections@[i as int]@);
        if i > 0 {
            push_char(&mut joined, '&');
        }
        push_str(&mut joined, sections[i].as_str());
        i = i + 1;
        assert(vs.take(i as int).len() == i);
        if i == 1 {
            assert(joined@ =~= vs.take(1)[0]);
        } else {
            assert(joined@ =~= join_amp(vs.take(i - 1)) + seq!['&'] + vs.take(i as int).last());
        }
    }
    assert(views(sections@).take(sections.len() as int) =~= views(sections@));
    concat("PCI\\", joined.as_str())
}


/// A file's text trimmed, or `fallback` when it could not be read.
pub open spec fn trimmed_or(t: Option<Seq<char>>, fallback: Seq<char>) -> Seq<char> {
    match t {
        Some(s) => trim_spec(s),
        None => fallback,
    }
}

/// The date text of a timestamp in nanoseconds, formatted by chrono in UTC.
pub uninterp spec fn utc_nanos_text(nanos: i64, format: Seq<char>) -> Seq<char>;

/// The format of the OS install date: date, time with nanoseconds, and UTC offset.
pub const ROOT_DATE_FORMAT: &'static str = "%Y-%m-%d%H:%M:%S%.9f%z";

/// `chrono::Utc.timestamp_nanos(nanos).format(format).to_string()`: the UTC date and time
/// of the timestamp, written in chrono's format syntax; named by `utc_nanos_text`. Only
/// the install-date format is admitted: `to_string` panics on a format with an invalid
/// item.
#[verifier::external_body]
fn format_utc_nanos(nanos: i64, format: &str) -> (r: String)
    requires
        format@ == ROOT_DATE_FORMAT@,
    ensures
        r@ == utc_nanos_text(nanos, format@),
{
    chrono::Utc.timestamp_nanos(nanos).format(format).to_string()
}

/// The install date the fingerprint uses when the root's creation time is unknown.
pub open spec fn epoch_date_text() -> Seq<char> {
    "1970-01-0100:00:00.000000000+0000"@
}

/// The install date of the OS: the creation time of `/` in seconds, as chrono writes it
/// (`%Y-%m-%d%H:%M:%S%.9f%z`), or the epoch text when it is unknown.
pub fn root_creation_text(creation_secs: Option<i64>) -> (r: String)
    requires
        creation_secs matches Some(s) ==> i64::MIN <= s * 1_000_000_000 <= i64::MAX,
    ensures
        match creation_secs {
            Some(s) => r@ == utc_nanos_text((s * 1_000_000_000) as i64, ROOT_DATE_FORMAT@),
            None => r@ == epoch_date_text(),
        },
{
    match creation_secs {
        Some(secs) => format_utc_nanos(secs * 1_000_000_000, ROOT_DATE_FORMAT),
        None => "1970-01-0100:00:00.000000000+0000".to_string(),
    }
}

/// The value of a hexadecimal digit of either case.
pub open spec fn hex_digit_value(c: char) -> Option<nat> {
    if '0' <= c && c <= '9' {
        Some((c as nat - '0' as nat) as nat)
    } else if 'a' <= c && c <= 'f' {
        Some((c as nat - 'a' as nat + 10) as nat)
    } else if 'A' <= c && c <= 'F' {
        Some((c as nat - 'A' as nat + 10) as nat)
    } else {
        None
    }
}

/// The value of a string of hexadecimal digits, if all of them are digits.
pub open spec fn hex_digits_value(d: Seq<char>) -> Option<nat>
    decreases d.len(),
{
    if d.len() == 0 {
        Some(0)
    } else {
        match (hex_digits_value(d.drop_last()), hex_digit_value(d.last())) {
            (Some(v), Some(x)) => Some(v * 16 + x),
            _ => None,
        }
    }
}

/// `from_str_radix(s, 16)` into a type whose largest value is `max`: an optional `+` and at
/// least one hexadecimal digit, with a value that fits.
pub open spec fn parse_hex_bounded(s: Seq<char>, max: nat) -> Option<nat> {
    let d = if s.len() > 0 && s[0] == '+' {
        s.drop_first()
    } else {
        s
    };
    if d.len() == 0 {
        None
    } else {
        match hex_digits_value(d) {
            Some(v) => if v <= max {
                Some(v)
            } else {
                None
            },
            None => None,
        }
    }
}

/// `u16::from_str_radix(s, 16)`.
pub open spec fn parse_hex_u16(s: Seq<char>) -> Option<u16> {
    match parse_hex_bounded(s, 0xFFFF) {
        Some(v) => Some(v as u16),
        None => None,
    }
}

/// `u32::from_str_radix(s, 16)`.
pub open spec fn parse_hex_u32(s: Seq<char>) -> Option<u32> {
    match parse_hex_bounded(s, 0xFFFF_FFFF) {
        Some(v) => Some(v as u32),
        None => None,
    }
}

/// The characters after byte 2 of `t` (`&t[2..]`), or nothing where that slice is out of
/// range or inside a character.
pub open spec fn after_two_bytes(t: Seq<char>) -> Option<Seq<char>> {
    if t.len() == 0 {
        None
    } else if (t[0] as u32) < 0x80 {
        if t.len() < 2 {
            None
        } else if (t[1] as u32) < 0x80 {
            Some(t.skip(2))
        } else {
            None
        }
    } else if (t[0] as u32) < 0x800 {
        Some(t.skip(1))
    } else {
        None
    }
}

/// A sysfs PCI id file (such as `0x10de`): its trimmed text after the first two bytes, in
/// hexadecimal. Nothing where the launcher would stop on it.
pub open spec fn sysfs_hex_id(text: Seq<char>) -> Option<u16> {
    match after_two_bytes(trim_spec(text)) {
        Some(rest) => parse_hex_u16(rest),
        None => None,
    }
}

fn hex_digit_value_exec(c: char) -> (r: Option<u32>)
    ensures
        match hex_digit_value(c) {
            Some(v) => r == Some(v as u32),
            None => r is None,
        },
{
    if '0' <= c && c <= '9' {
        Some((c as u32) - 48)
    } else if 'a' <= c && c <= 'f' {
        Some((c as u32) - 87)
    } else if 'A' <= c && c <= 'F' {
        Some((c as u32) - 55)
    } else {
        None
    }
}

proof fn lemma_hex_digits_value_grows(d: Seq<char>, k: int)
    requires
        0 <= k <= d.len(),
        hex_digits_value(d) is Some,
    ensures
        hex_digits_value(d.take(k)) is Some,
        hex_digits_value(d.take(k))->0 <= hex_digits_value(d)->0,
    decreases d.len(),
{
    if k < d.len() {
        assert(d.drop_last().take(k) =~= d.take(k));
        lemma_hex_digits_value_grows(d.drop_last(), k);
    } else {
        assert(d.take(k) =~= d);
    }
}

fn parse_hex_bounded_exec(s: &str, max: u32) -> (r: Option<u32>)
    ensures
        match parse_hex_bounded(s@, max as nat) {
            Some(v) => r == Some(v as u32),
            None => r is None,
        },
{
    let n = s.unicode_len();
    let start: usize = if n > 0 && s.get_char(0) == '+' {
        1
    } else {
        0
    };
    let ghost d = if s@.len() > 0 && s@[0] == '+' {
        s@.drop_first()
    } else {
        s@
    };
    assert(d =~= s@.subrange(start as int, n as int));
    if start == n {
        return None;
    }
    let mut v: u64 = 0;
    let mut i: usize = start;
    assert(d.take(0) =~= Seq::<char>::empty());
    while i < n
        invariant
            n == s@.len(),
            start <= i <= n,
            d == s@.subrange(start as int, n as int),
            d == (if s@.len() > 0 && s@[0] == '+' {
                s@.drop_first()
            } else {
                s@
            }),
            d.len() > 0,
            hex_digits_value(d.take(i - start)) == Some(v as nat),
            v <= max,
        decreases n - i,
    {
        let c = s.get_char(i);
        assert(d.take(i - start + 1).drop_last() =~= d.take(i - start));
        assert(d.take(i - start + 1).last() == c);
        match hex_digit_value_exec(c) {
            Some(x) => {
                let nv = v * 16 + x as u64;
                if nv > max as u64 {
                    proof {
                        if hex_digits_value(d) is Some {
                            lemma_hex_digits_value_grows(d, i - start + 1);
                        }
                    }
                    return None;
                }
                v = nv;
            },
            None => {
                proof {
                    if hex_digits_value(d) is Some {
                        lemma_hex_digits_value_grows(d, i - start + 1);
                    }
                }
                return None;
            },
        }
        i = i + 1;
    }
    assert(d.take(n - start) =~= d);
    Some(v as u32)
}

fn parse_hex_u16_exec(s: &str) -> (r: Option<u16>)
    ensures
        r == parse_hex_u16(s@),
{
    match parse_hex_bounded_exec(s, 0xFFFF) {
        Some(v) => Some(v as u16),
        None => None,
    }
}

fn parse_hex_u32_exec(s: &str) -> (r: Option<u32>)
    ensures
        r == parse_hex_u32(s@),
{
    parse_hex_bounded_exec(s, 0xFFFF_FFFF)
}

/// Reads a sysfs PCI id file's text (`0x` and hexadecimal digits); nothing where the
/// launcher would stop on it.
pub fn parse_sysfs_hex_id(text: &str) -> (r: Option<u16>)
    ensures
        r == sysfs_hex_id(text@),
{
    let t = trim(text);
    let n = t.unicode_len();
    if n == 0 {
        return None;
    }
    let c0 = t.get_char(0);
    let rest = if (c0 as u32) < 0x80 {
        if n < 2 {
            return None;
        }
        if (t.get_char(1) as u32) < 0x80 {
            t.substring_char(2, n)
        } else {
            return None;
        }
    } else if (c0 as u32) < 0x800 {
        t.substring_char(1, n)
    } else {
        return None;
    };
    assert(after_two_bytes(t@) == Some(rest@)) by {
        if (c0 as u32) < 0x80 {
            assert(rest@ =~= t@.skip(2));
        } else {
            assert(rest@ =~= t@.skip(1));
        }
    }
    parse_hex_u16_exec(rest)
}

/// The PCI ids of the GPU, from the sysfs `vendor`, `device` and `revision` files (each
/// absent when unreadable).
pub struct PciIds {
    pub vendor: Option<u16>,
    pub device: Option<u16>,
    pub revision: Option<u16>,
}

/// What the Linux probe reads of the machine; each file is absent when it could not be
/// read.
pub struct LinuxProbe {
    pub board_vendor: Option<String>,
    pub bios_vendor: Option<String>,
    pub os_install_date: String,
    pub machine_id: Option<String>,
    pub gpu: Option<PciIds>,
    pub fstab: Option<String>,
    pub mac: Option<String>,
}

/// The text of an optional string.
pub open spec fn opt_string(t: Option<String>) -> Option<Seq<char>> {
    match t {
        Some(s) => Some(s@),
        None => None,
    }
}

impl HardwareInfo {
    /// The fingerprint of a Linux machine from what was read of it: vendors and machine id
    /// trimmed (with `Linux Foundation` and `None` in place of unreadable files), serials
    /// `None`, the GPU's plug-and-play id from its PCI ids, the root UUID from the fstab.
    pub fn new(probe: LinuxProbe) -> (r: Self)
        ensures
            r.board_manufacturer@ == trimmed_or(opt_string(probe.board_vendor), "Linux Foundation"@),
            r.board_sn@ == "None"@,
            r.bios_manufacturer@ == trimmed_or(opt_string(probe.bios_vendor), "Linux Foundation"@),
            r.bios_sn@ == "None"@,
            r.os_install_date == probe.os_install_date,
            r.os_sn@ == trimmed_or(opt_string(probe.machine_id), "None"@),
            match probe.gpu {
                Some(ids) => r.gpu_pnp_id matches Some(g) && g@ == pci_pnp_spec(
                    ids.vendor,
                    ids.device,
                    ids.revision,
                ),
                None => r.gpu_pnp_id is None,
            },
            match probe.fstab {
                Some(f) => r.disk_sn@ == fstab_serial(lines_spec(f@)),
                None => r.disk_sn@ == "None"@,
            },
            r.mac == probe.mac,
    {
        let board_manufacturer = match &probe.board_vendor {
            Some(v) => trim(v.as_str()).to_string(),
            None => "Linux Foundation".to_string(),
        };
        let bios_manufacturer = match &probe.bios_vendor {
            Some(v) => trim(v.as_str()).to_string(),
            None => "Linux Foundation".to_string(),
        };
        let os_sn = match &probe.machine_id {
            Some(v) => trim(v.as_str()).to_string(),
            None => "None".to_string(),
        };
        let gpu_pnp_id = match &probe.gpu {
            Some(ids) => Some(generate_pci_pnp_id(ids.vendor, ids.device, ids.revision)),
            None => None,
        };
        let disk_sn = match &probe.fstab {
            Some(f) => disk_serial_from_fstab(f.as_str()),
            None => "None".to_string(),
        };
        HardwareInfo {
            board_manufacturer,
            board_sn: "None".to_string(),
            bios_manufacturer,
            bios_sn: "None".to_string(),
            os_install_date: probe.os_install_date,
            os_sn,
            disk_sn,
            gpu_pnp_id,
            mac: probe.mac,
        }
    }
}

} // verus!
