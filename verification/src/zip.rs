//! The central directory of a ZIP archive, read from the archive's tail.
//!
//! Layout reference: the PKZIP application note (central directory file header,
//! end of central directory record, and their ZIP64 variants).

use crate::byte_buffer::{
    buffer_as_bytes, buffer_from_vec, buffer_get_rpos, buffer_len, buffer_read_bytes, buffer_read_i64,
    buffer_read_u16, buffer_read_u32, buffer_set_endian, buffer_set_rpos, byte_buffer_bytes,
    byte_buffer_little_endian, byte_buffer_pending_bits, byte_buffer_read_pos, decode_uint,
    same_buffer_at, signed64,
};
use crate::text::string_from_utf8;
use bytebuffer::ByteBuffer;
use vstd::prelude::*;
use vstd::utf8::{decode_utf8, valid_utf8};

verus! {

pub const ZIP_EOCD_SIGNATURE: u32 = 0x06054b50;
pub const ZIP64_EOCD_SIGNATURE: u32 = 0x06064b50;
pub const ZIP64_EOCD_LOCATOR_SIGNATURE: u32 = 0x07064b50;
pub const ZIP64_SIGNATURE: i64 = 0xFFFFFFFF;
pub const ZIP_EOCD_FIXED_PART_SIZE: u32 = 22;
pub const ZIP64_EOCD_FIXED_PART_SIZE: u32 = 56;
pub const ZIP_FILE_HEADER_SIGNATURE: u32 = 0x02014b50;
pub const MAX_BACKSCAN_OFFSET: usize = 6291456;

/// Why reading a part of the central directory failed.
#[derive(Debug, Clone, Copy, PartialEq, Eq)]
pub enum ZipError {
    /// The bytes ran out before the record did.
    UnexpectedEnd,
    /// A record did not start with its signature.
    InvalidSignature,
    /// A file name was not valid UTF-8.
    InvalidName,
    /// The extra data holds no whole record with the requested id.
    MissingExtraField,
    /// No usable end of central directory was found.
    InvalidEndOfCentralDirectory,
}

/// The number encoded by the `n` bytes of `d` starting at `p`.
pub open spec fn uint_at(d: Seq<u8>, p: int, n: int, little: bool) -> nat {
    decode_uint(d.subrange(p, p + n), little)
}

/// `d[i..i + 4]` holds `signature` in little-endian order.
pub open spec fn signature_at(d: Seq<u8>, i: int, signature: u32) -> bool {
    0 <= i && i + 4 <= d.len() && uint_at(d, i, 4, true) == signature
}

proof fn lemma_decode4_le(s: Seq<u8>)
    requires
        s.len() == 4,
    ensures
        decode_uint(s, true) == s[0] as nat + 256 * s[1] as nat + 65536 * s[2] as nat + 16777216 * s[3] as nat,
{
    let s1 = s.drop_first();
    let s2 = s1.drop_first();
    let s3 = s2.drop_first();
    let s4 = s3.drop_first();
    assert(s4.len() == 0);
    assert(decode_uint(s4, true) == 0);
    assert(decode_uint(s3, true) == s[3] as nat);
    assert(decode_uint(s2, true) == s[2] as nat + 256 * s[3] as nat);
    assert(decode_uint(s1, true) == s[1] as nat + 256 * (s[2] as nat + 256 * s[3] as nat));
}

/// `signature` occurs at `i` and nowhere after it.
pub open spec fn is_last_signature(d: Seq<u8>, i: int, signature: u32) -> bool {
    signature_at(d, i, signature) && forall|j: int| i < j ==> !#[trigger] signature_at(d, j, signature)
}

/// The last position at which `signature` occurs (little-endian) in `d`.
pub open spec fn last_signature(d: Seq<u8>, signature: u32) -> Option<int> {
    if exists|i: int| is_last_signature(d, i, signature) {
        Some(choose|i: int| is_last_signature(d, i, signature))
    } else {
        None
    }
}

proof fn lemma_last_signature_unique(d: Seq<u8>, i: int, signature: u32)
    requires
        is_last_signature(d, i, signature),
    ensures
        last_signature(d, signature) == Some(i),
{
    let k = choose|k: int| is_last_signature(d, k, signature);
    assert(is_last_signature(d, k, signature));
    if k < i {
        assert(!signature_at(d, i, signature));
    } else if i < k {
        assert(!signature_at(d, k, signature));
    }
}

/// The last position at which `signature` occurs (little-endian) in `data`.
pub fn signature_scan_rev(data: &[u8], signature: u32) -> (r: Option<usize>)
    ensures
        r matches Some(i) ==> last_signature(data@, signature) == Some(i as int),
        r is None ==> last_signature(data@, signature) is None,
        r matches Some(i) ==> signature_at(data@, i as int, signature)
            && forall|j: int| i < j ==> !#[trigger] signature_at(data@, j, signature),
        r is None ==> forall|j: int| !#[trigger] signature_at(data@, j, signature),
{
    if data.len() < 4 {
        return None;
    }
    let mut i: usize = data.len() - 4 + 1;
    while i > 0
        invariant
            0 <= i <= data@.len() - 3,
            data@.len() >= 4,
            forall|j: int| i <= j ==> !#[trigger] signature_at(data@, j, signature),
        decreases i,
    {
        i = i - 1;
        let w: u32 = data[i] as u32 + (data[i + 1] as u32) * 256 + (data[i + 2] as u32) * 65536
            + (data[i + 3] as u32) * 16777216;
        proof {
            let s = data@.subrange(i as int, i + 4);
            lemma_decode4_le(s);
        }
        if w == signature {
            proof {
                lemma_last_signature_unique(data@, i as int, signature);
            }
            return Some(i);
        }
    }
    None
}

/// How an entry's data is compressed.
#[derive(Debug, Clone, Copy, PartialEq, Eq)]
pub enum CompressionType {
    Stored,
    Deflate,
}

impl Default for CompressionType {
    fn default() -> (r: CompressionType)
        ensures
            r == CompressionType::Stored,
    {
        CompressionType::Stored
    }
}

/// The compression type that a header's method number names.
pub open spec fn compression_of(num: nat) -> CompressionType {
    if num == 8 {
        CompressionType::Deflate
    } else {
        CompressionType::Stored
    }
}

impl CompressionType {
    pub fn from_num(num: u16) -> (r: CompressionType)
        ensures
            r == compression_of(num as nat),
    {
        match num {
            8 => CompressionType::Deflate,
            _ => CompressionType::Stored,
        }
    }
}

/// The abstract content of a central directory entry.
pub struct ZipEntryModel {
    pub name: Seq<char>,
    pub crc32: u32,
    pub compression_type: CompressionType,
    pub compressed_size: int,
    pub uncompressed_size: int,
    pub disk_number_start: u16,
    pub local_header_offset: int,
    pub data_offset: int,
    pub extra_field: Seq<u8>,
}

/// A file entry of the central directory.
pub struct ZipFileEntry {
    name: String,
    crc32: u32,
    compression_type: CompressionType,
    compressed_size: i64,
    uncompressed_size: i64,
    disk_number_start: u16,
    local_header_offset: i64,
    data_offset: i64,
    extra_field: Vec<u8>,
}

impl View for ZipFileEntry {
    type V = ZipEntryModel;

    closed spec fn view(&self) -> ZipEntryModel {
        ZipEntryModel {
            name: self.name@,
            crc32: self.crc32,
            compression_type: self.compression_type,
            compressed_size: self.compressed_size as int,
            uncompressed_size: self.uncompressed_size as int,
            disk_number_start: self.disk_number_start,
            local_header_offset: self.local_header_offset as int,
            data_offset: self.data_offset as int,
            extra_field: self.extra_field@,
        }
    }
}

/// The sizes and offsets of an entry are those of 64-bit signed integers.
pub proof fn lemma_entry_sizes(e: ZipFileEntry)
    ensures
        i64::MIN <= e@.compressed_size <= i64::MAX,
        i64::MIN <= e@.uncompressed_size <= i64::MAX,
        i64::MIN <= e@.data_offset <= i64::MAX,
{
}

impl Clone for ZipFileEntry {
    fn clone(&self) -> (r: ZipFileEntry)
        ensures
            r@ == self@,
    {
        ZipFileEntry {
            name: self.name.clone(),
            crc32: self.crc32,
            compression_type: self.compression_type,
            compressed_size: self.compressed_size,
            uncompressed_size: self.uncompressed_size,
            disk_number_start: self.disk_number_start,
            local_header_offset: self.local_header_offset,
            data_offset: self.data_offset,
            extra_field: self.extra_field.clone(),
        }
    }
}

/// The payload of the extra field `id`: the extra data is a run of records, each a
/// little-endian 16-bit id and 16-bit size followed by that many bytes; the first record
/// with the id gives its payload. Nothing when the run ends, or a record's payload runs
/// past the end, before such a record.
pub open spec fn extra_field_lookup(extra: Seq<u8>, id: nat) -> Option<Seq<u8>>
    decreases extra.len(),
{
    if extra.len() < 4 {
        None
    } else {
        let size = uint_at(extra, 2, 2, true) as int;
        if extra.len() - 4 < size {
            None
        } else if uint_at(extra, 0, 2, true) == id {
            Some(extra.subrange(4, 4 + size))
        } else {
            extra_field_lookup(extra.skip(4 + size), id)
        }
    }
}

/// The ZIP64 sizes: each 32-bit field that holds the escape value 0xFFFFFFFF is replaced,
/// in order, by the next 64-bit value of the payload `x`.
pub open spec fn zip64_sizes(x: Seq<u8>, unc: int, comp: int, off: int) -> Option<(int, int, int)> {
    let p1: int = if unc == 0xFFFFFFFF { 8 } else { 0 };
    let p2: int = p1 + if comp == 0xFFFFFFFF { 8int } else { 0int };
    let p3: int = p2 + if off == 0xFFFFFFFF { 8int } else { 0int };
    if p3 > x.len() {
        None
    } else {
        Some(
            (
                if unc == 0xFFFFFFFF { signed64(uint_at(x, 0, 8, true)) } else { unc },
                if comp == 0xFFFFFFFF { signed64(uint_at(x, p1, 8, true)) } else { comp },
                if off == 0xFFFFFFFF { signed64(uint_at(x, p2, 8, true)) } else { off },
            ),
        )
    }
}

/// The entry whose central directory header starts at `p` in `d`, read in the given byte
/// order, together with the position just after its comment (clamped to the end of `d`).
pub open spec fn parse_entry_spec(d: Seq<u8>, p: int, little: bool) -> Option<(ZipEntryModel, int)> {
    if !(0 <= p && p + 46 <= d.len()) || uint_at(d, p, 4, little) != ZIP_FILE_HEADER_SIGNATURE {
        None
    } else {
        let name_len = uint_at(d, p + 28, 2, little) as int;
        let extra_len = uint_at(d, p + 30, 2, little) as int;
        let comment_len = uint_at(d, p + 32, 2, little) as int;
        let name_start = p + 46;
        let extra_start = name_start + name_len;
        let extra_end = extra_start + extra_len;
        if extra_start > d.len() || !valid_utf8(d.subrange(name_start, extra_start)) || extra_end
            > d.len() {
            None
        } else {
            let extra = d.subrange(extra_start, extra_end);
            let unc = uint_at(d, p + 24, 4, little) as int;
            let comp = uint_at(d, p + 20, 4, little) as int;
            let off = uint_at(d, p + 42, 4, little) as int;
            let sizes = match extra_field_lookup(extra, 1) {
                Some(x) => zip64_sizes(x, unc, comp, off),
                None => Some((unc, comp, off)),
            };
            match sizes {
                None => None,
                Some((u, c, o)) => Some(
                    (
                        ZipEntryModel {
                            name: decode_utf8(d.subrange(name_start, extra_start)),
                            crc32: uint_at(d, p + 16, 4, little) as u32,
                            compression_type: compression_of(uint_at(d, p + 10, 2, little)),
                            compressed_size: c,
                            uncompressed_size: u,
                            disk_number_start: uint_at(d, p + 34, 2, little) as u16,
                            local_header_offset: o,
                            data_offset: 0,
                            extra_field: extra,
                        },
                        if extra_end + comment_len < d.len() {
                            extra_end + comment_len
                        } else {
                            d.len() as int
                        },
                    ),
                ),
            }
        }
    }
}

/// The ZIP64 escape: a 32-bit size or offset field holding it is given in the ZIP64 extra
/// field instead.
pub open spec fn is_escape(v: int) -> bool {
    v == 0xFFFFFFFF
}

/// ZIP64, as the PKZIP application note describes it: when a parsed header has a ZIP64 extra field (id 1), each of its
/// escaped fields (uncompressed size, compressed size, local header offset, in that order)
/// takes the next 64-bit little-endian value of that field's payload, and the payload
/// holds all of them; a field that is not escaped keeps its 32-bit value. Without the
/// extra field every field keeps its 32-bit value.
pub proof fn lemma_zip64_fields(d: Seq<u8>, p: int, little: bool)
    requires
        parse_entry_spec(d, p, little) is Some,
    ensures
        ({
            let parsed = parse_entry_spec(d, p, little)->0;
            let e = parsed.0;
            let unc = uint_at(d, p + 24, 4, little) as int;
            let comp = uint_at(d, p + 20, 4, little) as int;
            let off = uint_at(d, p + 42, 4, little) as int;
            let k1: int = if is_escape(unc) { 8 } else { 0 };
            let k2: int = k1 + if is_escape(comp) { 8int } else { 0int };
            let k3: int = k2 + if is_escape(off) { 8int } else { 0int };
            match extra_field_lookup(e.extra_field, 1) {
                Some(x) => {
                    &&& k3 <= x.len()
                    &&& e.uncompressed_size == if is_escape(unc) {
                        signed64(uint_at(x, 0, 8, true))
                    } else {
                        unc
                    }
                    &&& e.compressed_size == if is_escape(comp) {
                        signed64(uint_at(x, k1, 8, true))
                    } else {
                        comp
                    }
                    &&& e.local_header_offset == if is_escape(off) {
                        signed64(uint_at(x, k2, 8, true))
                    } else {
                        off
                    }
                },
                None => e.uncompressed_size == unc && e.compressed_size == comp
                    && e.local_header_offset == off,
            }
        }),
{
}

/// The state of `b2` after a failed read from `b1`: same bytes and byte order.
pub open spec fn unchanged_content(b1: ByteBuffer, b2: ByteBuffer) -> bool {
    &&& byte_buffer_bytes(b2) == byte_buffer_bytes(b1)
    &&& byte_buffer_little_endian(b2) == byte_buffer_little_endian(b1)
    &&& !byte_buffer_pending_bits(b2)
}

impl ZipFileEntry {
    /// Reads one central directory file header at the cursor of `data`.
    pub fn parse(data: &mut ByteBuffer) -> (r: Result<ZipFileEntry, ZipError>)
        requires
            !byte_buffer_pending_bits(*old(data)),
        ensures
            match parse_entry_spec(
                byte_buffer_bytes(*old(data)),
                byte_buffer_read_pos(*old(data)),
                byte_buffer_little_endian(*old(data)),
            ) {
                Some((m, end)) => r matches Ok(e) && e@ == m && same_buffer_at(
                    *old(data),
                    *final(data),
                    end,
                ),
                None => r is Err && unchanged_content(*old(data), *final(data)),
            },
    {
        let ghost d = byte_buffer_bytes(*data);
        let ghost le = byte_buffer_little_endian(*data);
        let p = buffer_get_rpos(data);
        let signature = match buffer_read_u32(data) {
            Some(v) => v,
            None => return Err(ZipError::UnexpectedEnd),
        };
        if signature != ZIP_FILE_HEADER_SIGNATURE {
            return Err(ZipError::InvalidSignature);
        }
        // Version, version needed, flags
        if buffer_read_u16(data).is_none() {
            return Err(ZipError::UnexpectedEnd);
        }
        if buffer_read_u16(data).is_none() {
            return Err(ZipError::UnexpectedEnd);
        }
        if buffer_read_u16(data).is_none() {
            return Err(ZipError::UnexpectedEnd);
        }
        let compression_num = match buffer_read_u16(data) {
            Some(v) => v,
            None => return Err(ZipError::UnexpectedEnd),
        };
        // Modified time and date
        if buffer_read_u16(data).is_none() {
            return Err(ZipError::UnexpectedEnd);
        }
        if buffer_read_u16(data).is_none() {
            return Err(ZipError::UnexpectedEnd);
        }
        let crc32 = match buffer_read_u32(data) {
            Some(v) => v,
            None => return Err(ZipError::UnexpectedEnd),
        };
        let compressed32 = match buffer_read_u32(data) {
            Some(v) => v,
            None => return Err(ZipError::UnexpectedEnd),
        };
        let uncompressed32 = match buffer_read_u32(data) {
            Some(v) => v,
            None => return Err(ZipError::UnexpectedEnd),
        };
        let file_name_len = match buffer_read_u16(data) {
            Some(v) => v,
            None => return Err(ZipError::UnexpectedEnd),
        };
        let extra_field_len = match buffer_read_u16(data) {
            Some(v) => v,
            None => return Err(ZipError::UnexpectedEnd),
        };
        let file_comment_len = match buffer_read_u16(data) {
            Some(v) => v,
            None => return Err(ZipError::UnexpectedEnd),
        };
        let disk_number_start = match buffer_read_u16(data) {
            Some(v) => v,
            None => return Err(ZipError::UnexpectedEnd),
        };
        // Internal and external attributes
        if buffer_read_u16(data).is_none() {
            return Err(ZipError::UnexpectedEnd);
        }
        if buffer_read_u32(data).is_none() {
            return Err(ZipError::UnexpectedEnd);
        }
        let offset32 = match buffer_read_u32(data) {
            Some(v) => v,
            None => return Err(ZipError::UnexpectedEnd),
        };
        assert(byte_buffer_read_pos(*data) == p + 46);
        let name_bytes = match buffer_read_bytes(data, file_name_len as usize) {
            Some(v) => v,
            None => return Err(ZipError::UnexpectedEnd),
        };
        let name = match string_from_utf8(name_bytes) {
            Some(s) => s,
            None => return Err(ZipError::InvalidName),
        };
        let extra_field = match buffer_read_bytes(data, extra_field_len as usize) {
            Some(v) => v,
            None => return Err(ZipError::UnexpectedEnd),
        };
        let mut entry = ZipFileEntry {
            name,
            crc32,
            compression_type: CompressionType::from_num(compression_num),
            compressed_size: compressed32 as i64,
            uncompressed_size: uncompressed32 as i64,
            disk_number_start,
            local_header_offset: offset32 as i64,
            data_offset: 0,
            extra_field,
        };
        if let Ok(x) = entry.extra_field(0x01) {
            let mut x = buffer_from_vec(x);
            buffer_set_endian(&mut x, true);
            let ghost xs = byte_buffer_bytes(x);
            if entry.uncompressed_size == 0xFFFFFFFF {
                entry.uncompressed_size = match buffer_read_i64(&mut x) {
                    Some(v) => v,
                    None => return Err(ZipError::UnexpectedEnd),
                };
            }
            if entry.compressed_size == 0xFFFFFFFF {
                entry.compressed_size = match buffer_read_i64(&mut x) {
                    Some(v) => v,
                    None => return Err(ZipError::UnexpectedEnd),
                };
            }
            if entry.local_header_offset == 0xFFFFFFFF {
                entry.local_header_offset = match buffer_read_i64(&mut x) {
                    Some(v) => v,
                    None => return Err(ZipError::UnexpectedEnd),
                };
            }
        }
        let rpos = buffer_get_rpos(data);
        buffer_set_rpos(data, rpos + file_comment_len as usize);
        Ok(entry)
    }

    /// The payload of the extra field `id`, found by walking the records of the extra
    /// data.
    fn extra_field(&self, id: u16) -> (r: Result<Vec<u8>, ZipError>)
        ensures
            match extra_field_lookup(self@.extra_field, id as nat) {
                Some(x) => r matches Ok(v) && v@ == x,
                None => r is Err,
            },
    {
        let bytes = self.extra_field.clone();
        assert(bytes@ =~= self@.extra_field);
        let mut data = buffer_from_vec(bytes);
        buffer_set_endian(&mut data, true);
        let ghost extra = self@.extra_field;
        assert(extra.skip(0) =~= extra);
        loop
            invariant
                extra == self@.extra_field,
                byte_buffer_bytes(data) == extra,
                byte_buffer_little_endian(data),
                !byte_buffer_pending_bits(data),
                0 <= byte_buffer_read_pos(data) <= extra.len(),
                extra_field_lookup(extra, id as nat) == extra_field_lookup(
                    extra.skip(byte_buffer_read_pos(data) as int),
                    id as nat,
                ),
            decreases extra.len() - byte_buffer_read_pos(data),
        {
            let ghost p = byte_buffer_read_pos(data) as int;
            let ghost rest = extra.skip(p);
            let id2 = match buffer_read_u16(&mut data) {
                Some(v) => v,
                None => return Err(ZipError::UnexpectedEnd),
            };
            let size = match buffer_read_u16(&mut data) {
                Some(v) => v,
                None => return Err(ZipError::UnexpectedEnd),
            } as usize;
            proof {
                assert(p + 4 <= extra.len());
                assert(rest.subrange(0, 2) =~= extra.subrange(p, p + 2));
                assert(rest.subrange(2, 4) =~= extra.subrange(p + 2, p + 4));
            }
            let rpos = buffer_get_rpos(&data);
            if buffer_len(&data) - rpos < size {
                return Err(ZipError::MissingExtraField);
            }
            if id == id2 {
                proof {
                    assert(rest.subrange(4, 4 + size as int) =~= extra.subrange(p + 4, p + 4 + size as int));
                }
                return match buffer_read_bytes(&mut data, size) {
                    Some(v) => Ok(v),
                    None => Err(ZipError::UnexpectedEnd),
                };
            }
            buffer_set_rpos(&mut data, rpos + size);
            proof {
                assert(rest.skip(4 + size as int) =~= extra.skip(p + 4 + size as int));
            }
            if buffer_len(&data) - buffer_get_rpos(&data) == 0 {
                proof {
                    assert(extra.skip(p + 4 + size as int).len() == 0);
                }
                return Err(ZipError::MissingExtraField);
            }
        }
    }
}

/// The end of central directory record (or its ZIP64 variant).
#[derive(Debug, Clone, Copy, PartialEq, Eq)]
pub struct EndOfCentralDirectory {
    pub disk_number: u32,
    pub disk_number_with_cd: u32,
    pub disk_entries: u64,
    pub total_entries: u64,
    pub cd_size: u64,
    pub cd_offset: i64,
    pub comment_length: u16,
}

impl Default for EndOfCentralDirectory {
    fn default() -> (r: EndOfCentralDirectory)
        ensures
            r == (EndOfCentralDirectory {
                disk_number: 0,
                disk_number_with_cd: 0,
                disk_entries: 0,
                total_entries: 0,
                cd_size: 0,
                cd_offset: 0,
                comment_length: 0,
            }),
    {
        EndOfCentralDirectory {
            disk_number: 0,
            disk_number_with_cd: 0,
            disk_entries: 0,
            total_entries: 0,
            cd_size: 0,
            cd_offset: 0,
            comment_length: 0,
        }
    }
}

/// The fields of an end of central directory record at `p`.
pub open spec fn eocd_fields(d: Seq<u8>, p: int, little: bool) -> EndOfCentralDirectory {
    EndOfCentralDirectory {
        disk_number: uint_at(d, p + 4, 2, little) as u32,
        disk_number_with_cd: uint_at(d, p + 6, 2, little) as u32,
        disk_entries: uint_at(d, p + 8, 2, little) as u64,
        total_entries: uint_at(d, p + 10, 2, little) as u64,
        cd_size: uint_at(d, p + 12, 4, little) as u64,
        cd_offset: uint_at(d, p + 16, 4, little) as i64,
        comment_length: uint_at(d, p + 20, 2, little) as u16,
    }
}

/// The fields of a ZIP64 end of central directory record at `p`.
pub open spec fn eocd64_fields(d: Seq<u8>, p: int, little: bool) -> EndOfCentralDirectory {
    EndOfCentralDirectory {
        disk_number: uint_at(d, p + 16, 4, little) as u32,
        disk_number_with_cd: uint_at(d, p + 20, 4, little) as u32,
        disk_entries: (signed64(uint_at(d, p + 24, 8, little)) as i64) as u64,
        total_entries: (signed64(uint_at(d, p + 32, 8, little)) as i64) as u64,
        cd_size: (signed64(uint_at(d, p + 40, 8, little)) as i64) as u64,
        cd_offset: signed64(uint_at(d, p + 48, 8, little)) as i64,
        comment_length: 0,
    }
}

impl EndOfCentralDirectory {
    /// Reads an end of central directory record at the cursor and skips its comment.
    pub fn parse(&mut self, data: &mut ByteBuffer) -> (r: Result<(), ZipError>)
        requires
            !byte_buffer_pending_bits(*old(data)),
        ensures
            ({
                let d = byte_buffer_bytes(*old(data));
                let p = byte_buffer_read_pos(*old(data));
                let le = byte_buffer_little_endian(*old(data));
                if d.len() - p >= 22 && uint_at(d, p, 4, le) == ZIP_EOCD_SIGNATURE {
                    &&& r is Ok
                    &&& *final(self) == eocd_fields(d, p, le)
                    &&& same_buffer_at(
                        *old(data),
                        *final(data),
                        if p + 22 + final(self).comment_length < d.len() {
                            p + 22 + final(self).comment_length
                        } else {
                            d.len() as int
                        },
                    )
                } else {
                    &&& r is Err
                    &&& *final(self) == *old(self)
                    &&& unchanged_content(*old(data), *final(data))
                }
            }),
    {
        if buffer_len(data) - buffer_get_rpos(data) < ZIP_EOCD_FIXED_PART_SIZE as usize {
            return Err(ZipError::UnexpectedEnd);
        }
        let signature = match buffer_read_u32(data) {
            Some(v) => v,
            None => return Err(ZipError::UnexpectedEnd),
        };
        if signature != ZIP_EOCD_SIGNATURE {
            return Err(ZipError::InvalidSignature);
        }
        let disk_number = match buffer_read_u16(data) {
            Some(v) => v,
            None => return Err(ZipError::UnexpectedEnd),
        };
        let disk_number_with_cd = match buffer_read_u16(data) {
            Some(v) => v,
            None => return Err(ZipError::UnexpectedEnd),
        };
        let disk_entries = match buffer_read_u16(data) {
            Some(v) => v,
            None => return Err(ZipError::UnexpectedEnd),
        };
        let total_entries = match buffer_read_u16(data) {
            Some(v) => v,
            None => return Err(ZipError::UnexpectedEnd),
        };
        let cd_size = match buffer_read_u32(data) {
            Some(v) => v,
            None => return Err(ZipError::UnexpectedEnd),
        };
        let cd_offset = match buffer_read_u32(data) {
            Some(v) => v,
            None => return Err(ZipError::UnexpectedEnd),
        };
        let comment_length = match buffer_read_u16(data) {
            Some(v) => v,
            None => return Err(ZipError::UnexpectedEnd),
        };
        self.disk_number = disk_number as u32;
        self.disk_number_with_cd = disk_number_with_cd as u32;
        self.disk_entries = disk_entries as u64;
        self.total_entries = total_entries as u64;
        self.cd_size = cd_size as u64;
        self.cd_offset = cd_offset as i64;
        self.comment_length = comment_length;
        // Discard the comment
        let rpos = buffer_get_rpos(data);
        buffer_set_rpos(data, rpos + self.comment_length as usize);
        Ok(())
    }

    /// Reads a ZIP64 end of central directory record at the cursor. A record that
    /// declares itself shorter than the fixed part leaves the fields as they are.
    pub fn parse64(&mut self, data: &mut ByteBuffer) -> (r: Result<(), ZipError>)
        requires
            !byte_buffer_pending_bits(*old(data)),
        ensures
            ({
                let d = byte_buffer_bytes(*old(data));
                let p = byte_buffer_read_pos(*old(data));
                let le = byte_buffer_little_endian(*old(data));
                if d.len() - p >= 56 && uint_at(d, p, 4, le) == ZIP64_EOCD_SIGNATURE {
                    &&& r is Ok
                    &&& if signed64(uint_at(d, p + 4, 8, le)) < 44 {
                        &&& *final(self) == *old(self)
                        &&& same_buffer_at(*old(data), *final(data), p + 12)
                    } else {
                        &&& *final(self) == eocd64_fields(d, p, le)
                        &&& same_buffer_at(*old(data), *final(data), p + 56)
                    }
                } else {
                    &&& r is Err
                    &&& *final(self) == *old(self)
                    &&& unchanged_content(*old(data), *final(data))
                }
            }),
    {
        if buffer_len(data) - buffer_get_rpos(data) < ZIP64_EOCD_FIXED_PART_SIZE as usize {
            return Err(ZipError::UnexpectedEnd);
        }
        let signature = match buffer_read_u32(data) {
            Some(v) => v,
            None => return Err(ZipError::UnexpectedEnd),
        };
        if signature != ZIP64_EOCD_SIGNATURE {
            return Err(ZipError::InvalidSignature);
        }
        let size_of_record = match buffer_read_i64(data) {
            Some(v) => v,
            None => return Err(ZipError::UnexpectedEnd),
        };
        if size_of_record < (ZIP64_EOCD_FIXED_PART_SIZE - 12) as i64 {
            return Ok(());
        }
        if buffer_read_u16(data).is_none() {
            return Err(ZipError::UnexpectedEnd);
        }
        if buffer_read_u16(data).is_none() {
            return Err(ZipError::UnexpectedEnd);
        }
        let disk_number = match buffer_read_u32(data) {
            Some(v) => v,
            None => return Err(ZipError::UnexpectedEnd),
        };
        let disk_number_with_cd = match buffer_read_u32(data) {
            Some(v) => v,
            None => return Err(ZipError::UnexpectedEnd),
        };
        let disk_entries = match buffer_read_i64(data) {
            Some(v) => v,
            None => return Err(ZipError::UnexpectedEnd),
        };
        let total_entries = match buffer_read_i64(data) {
            Some(v) => v,
            None => return Err(ZipError::UnexpectedEnd),
        };
        let cd_size = match buffer_read_i64(data) {
            Some(v) => v,
            None => return Err(ZipError::UnexpectedEnd),
        };
        let cd_offset = match buffer_read_i64(data) {
            Some(v) => v,
            None => return Err(ZipError::UnexpectedEnd),
        };
        self.disk_number = disk_number;
        self.disk_number_with_cd = disk_number_with_cd;
        self.disk_entries = disk_entries as u64;
        self.total_entries = total_entries as u64;
        self.cd_size = cd_size as u64;
        self.cd_offset = cd_offset;
        self.comment_length = 0;
        Ok(())
    }
}

/// A signed 64-bit difference, wrapped into the `i64` range.
pub open spec fn wrap_i64(x: int) -> int {
    if x > i64::MAX {
        x - 0x1_0000_0000_0000_0000
    } else if x < i64::MIN {
        x + 0x1_0000_0000_0000_0000
    } else {
        x
    }
}

/// Appends the `i`-th entry `e`; when the entry before it lies on the same disk, that
/// entry's data ends where `e`'s local header begins, which fixes its data offset.
pub open spec fn apply_entry(es: Seq<ZipEntryModel>, i: int, e: ZipEntryModel) -> Seq<ZipEntryModel> {
    let pushed = es.push(e);
    if i == 0 || !(0 <= i - 1 < pushed.len()) || pushed[i - 1].disk_number_start
        != e.disk_number_start {
        pushed
    } else {
        pushed.update(
            i - 1,
            ZipEntryModel {
                data_offset: wrap_i64(e.local_header_offset - pushed[i - 1].compressed_size),
                ..pushed[i - 1]
            },
        )
    }
}

/// Reads the entries `i..n` of a central directory starting at `p`: the entries list it
/// leaves, and the position after the last entry when all of them could be read.
pub open spec fn load_entries(
    d: Seq<u8>,
    p: int,
    little: bool,
    es: Seq<ZipEntryModel>,
    i: int,
    n: int,
) -> (Seq<ZipEntryModel>, Option<int>)
    decreases n - i,
{
    if i >= n {
        (es, Some(p))
    } else {
        match parse_entry_spec(d, p, little) {
            None => (es, None),
            Some((e, end)) => load_entries(d, end, little, apply_entry(es, i, e), i + 1, n),
        }
    }
}

/// How far before the bytes already held the next read should start when no end of
/// central directory was found yet: up to 1024 more bytes.
pub open spec fn backscan_offset(total: int, held: int) -> int {
    let rest = total - held;
    rest - if rest < 1024 { rest } else { 1024 }
}

/// The end of central directory after trying to read a ZIP64 record at `r`; a record that
/// cannot be read leaves a zero central directory offset.
pub open spec fn eocd_after_zip64(d: Seq<u8>, r: int, e: EndOfCentralDirectory) -> EndOfCentralDirectory {
    if d.len() - r >= 56 && uint_at(d, r, 4, true) == ZIP64_EOCD_SIGNATURE {
        if signed64(uint_at(d, r + 4, 8, true)) < 44 {
            e
        } else {
            eocd64_fields(d, r, true)
        }
    } else {
        EndOfCentralDirectory { cd_offset: 0, ..e }
    }
}

/// Loading with a known end of central directory `e`: the central directory is read when
/// it lies within the held bytes (`Some(0)`); otherwise the offset to fetch from is given.
pub open spec fn load_cd_spec(d: Seq<u8>, total: int, es: Seq<ZipEntryModel>, e: EndOfCentralDirectory) -> (Option<int>, Seq<ZipEntryModel>) {
    let cd = e.cd_offset as int;
    if cd < 0 || cd == ZIP64_SIGNATURE {
        (None, es)
    } else if total - cd < 0 || d.len() < total - cd {
        (Some(if cd < total { cd } else { 0 }), es)
    } else {
        let (es2, res) = load_entries(d, cd - (total - d.len()), true, es, 0, e.total_entries as int);
        (if res is Some { Some(0) } else { None }, es2)
    }
}

/// Loading when the end of central directory `e` defers to a ZIP64 record.
pub open spec fn load_zip64_spec(d: Seq<u8>, total: int, es: Seq<ZipEntryModel>, e: EndOfCentralDirectory) -> (Option<int>, Seq<ZipEntryModel>) {
    match last_signature(d, ZIP64_EOCD_LOCATOR_SIGNATURE) {
        None => (Some(backscan_offset(total, d.len() as int)), es),
        Some(q) => if q + 20 > d.len() {
            (None, es)
        } else {
            let z = signed64(uint_at(d, q + 8, 8, true));
            let p2 = z - (total - d.len());
            if p2 < 0 {
                (Some(z), es)
            } else {
                let r = if p2 < d.len() { p2 } else { d.len() as int };
                load_cd_spec(d, total, es, eocd_after_zip64(d, r, e))
            }
        },
    }
}

/// Loading from `d`, the last bytes of an archive of `total` bytes: `Some(0)` when the
/// central directory was read, `Some(offset)` when the bytes from `offset` on are needed
/// first, `None` when the records are malformed; and the entries list it leaves.
pub open spec fn load_spec(d: Seq<u8>, total: int, es: Seq<ZipEntryModel>) -> (Option<int>, Seq<ZipEntryModel>) {
    match last_signature(d, ZIP_EOCD_SIGNATURE) {
        None => (Some(backscan_offset(total, d.len() as int)), es),
        Some(pos) => if d.len() - pos < 22 {
            (None, es)
        } else {
            let e = eocd_fields(d, pos, true);
            if e.cd_offset == ZIP64_SIGNATURE {
                load_zip64_spec(d, total, es, e)
            } else {
                load_cd_spec(d, total, es, e)
            }
        },
    }
}

/// The central directory of an archive.
pub struct ZipFile {
    entries: Vec<ZipFileEntry>,
}

impl View for ZipFile {
    type V = Seq<ZipEntryModel>;

    closed spec fn view(&self) -> Seq<ZipEntryModel> {
        self.entries@.map_values(|e: ZipFileEntry| e@)
    }
}

impl Default for ZipFile {
    fn default() -> (r: ZipFile)
        ensures
            r@ == Seq::<ZipEntryModel>::empty(),
    {
        let r = ZipFile { entries: Vec::new() };
        assert(r@ =~= Seq::<ZipEntryModel>::empty());
        r
    }
}

impl ZipFile {
    /// Reads the entries of the end of central directory `eocd` at the cursor.
    pub fn load_central_directory(&mut self, data: &mut ByteBuffer, eocd: EndOfCentralDirectory) -> (r: Result<(), ZipError>)
        requires
            !byte_buffer_pending_bits(*old(data)),
        ensures
            ({
                let (es, res) = load_entries(
                    byte_buffer_bytes(*old(data)),
                    byte_buffer_read_pos(*old(data)),
                    byte_buffer_little_endian(*old(data)),
                    old(self)@,
                    0,
                    eocd.total_entries as int,
                );
                &&& final(self)@ == es
                &&& r is Ok <==> res is Some
                &&& res matches Some(end) ==> same_buffer_at(*old(data), *final(data), end)
                &&& res is None ==> unchanged_content(*old(data), *final(data))
            }),
    {
        let ghost d = byte_buffer_bytes(*data);
        let ghost le = byte_buffer_little_endian(*data);
        let ghost goal = load_entries(d, byte_buffer_read_pos(*data), le, self@, 0, eocd.total_entries as int);
        let n = eocd.total_entries;
        let mut i: u64 = 0;
        while i < n
            invariant
                0 <= i <= n,
                n == eocd.total_entries,
                d == byte_buffer_bytes(*old(data)),
                le == byte_buffer_little_endian(*old(data)),
                goal == load_entries(d, byte_buffer_read_pos(*old(data)), le, old(self)@, 0, n as int),
                byte_buffer_bytes(*data) == d,
                byte_buffer_little_endian(*data) == le,
                !byte_buffer_pending_bits(*data),
                self.entries.len() >= i,
                load_entries(d, byte_buffer_read_pos(*data), le, self@, i as int, n as int) == goal,
            decreases n - i,
        {
            let ghost pos = byte_buffer_read_pos(*data);
            let entry = match ZipFileEntry::parse(data) {
                Ok(e) => e,
                Err(err) => return Err(err),
            };
            let ghost before = self@;
            self.entries.push(entry.clone());
            assert(self@ =~= before.push(entry@));
            if i == 0 {
                i = i + 1;
                continue ;
            }
            let idx = (i - 1) as usize;
            if self.entries[idx].disk_number_start != entry.disk_number_start {
                i = i + 1;
                continue ;
            }
            let mut prev = self.entries[idx].clone();
            prev.data_offset = entry.local_header_offset.wrapping_sub(prev.compressed_size);
            let ghost pushed = self@;
            self.entries.set(idx, prev);
            assert(self@ =~= apply_entry(before, i as int, entry@));
            i = i + 1;
        }
        Ok(())
    }

    /// Reads the central directory from `data`, the last bytes of an archive of
    /// `total_size` bytes. Returns 0 once the entries are read, or the offset from which
    /// the archive's bytes are needed to find them.
    pub fn load(&mut self, data: &mut ByteBuffer, total_size: i64) -> (r: Result<i64, ZipError>)
        requires
            !byte_buffer_pending_bits(*old(data)),
        ensures
            ({
                let (res, es) = load_spec(byte_buffer_bytes(*old(data)), total_size as int, old(self)@);
                &&& final(self)@ == es
                &&& match res {
                    Some(v) => r matches Ok(x) && x == v,
                    None => r is Err,
                }
                &&& byte_buffer_bytes(*final(data)) == byte_buffer_bytes(*old(data))
            }),
    {
        buffer_set_endian(data, true);
        let len = buffer_len(data);
        let held = len as i128;
        let total = total_size as i128;
        let pos = match signature_scan_rev(buffer_as_bytes(data), ZIP_EOCD_SIGNATURE) {
            Some(p) => p,
            None => {
                let rest = total - held;
                let amt = if rest < 1024 {
                    rest
                } else {
                    1024
                };
                return Ok((rest - amt) as i64);
            },
        };
        buffer_set_rpos(data, pos);
        let mut eocd = EndOfCentralDirectory::default();
        if eocd.parse(data).is_err() {
            return Err(ZipError::InvalidEndOfCentralDirectory);
        }
        // Check if we're Zip64
        if eocd.cd_offset == ZIP64_SIGNATURE {
            let q = match signature_scan_rev(buffer_as_bytes(data), ZIP64_EOCD_LOCATOR_SIGNATURE) {
                Some(q) => q,
                None => {
                    let rest = total - held;
                    let amt = if rest < 1024 {
                        rest
                    } else {
                        1024
                    };
                    return Ok((rest - amt) as i64);
                },
            };
            buffer_set_rpos(data, q);
            let signature = match buffer_read_u32(data) {
                Some(v) => v,
                None => return Err(ZipError::UnexpectedEnd),
            };
            if signature != ZIP64_EOCD_LOCATOR_SIGNATURE {
                return Err(ZipError::InvalidSignature);
            }
            // Disk that contains the ZIP64 record
            if buffer_read_u32(data).is_none() {
                return Err(ZipError::UnexpectedEnd);
            }
            let zip64_eocd_offset = match buffer_read_i64(data) {
                Some(v) => v,
                None => return Err(ZipError::UnexpectedEnd),
            };
            // Disk count
            if buffer_read_u32(data).is_none() {
                return Err(ZipError::UnexpectedEnd);
            }
            let pos2 = zip64_eocd_offset as i128 - (total - held);
            if pos2 < 0 {
                return Ok(zip64_eocd_offset);
            }
            let r = if pos2 < held {
                pos2 as usize
            } else {
                len
            };
            buffer_set_rpos(data, r);
            if eocd.parse64(data).is_err() {
                eocd.cd_offset = 0;
            }
        }
        if eocd.cd_offset < 0 || eocd.cd_offset == ZIP64_SIGNATURE {
            return Err(ZipError::InvalidEndOfCentralDirectory);
        }
        let remaining = total - eocd.cd_offset as i128;
        if remaining < 0 || held < remaining {
            if (eocd.cd_offset as i128) < total {
                return Ok(eocd.cd_offset);
            }
            return Ok(0);
        }
        let start = (eocd.cd_offset as i128 - (total - held)) as usize;
        buffer_set_rpos(data, start);
        match self.load_central_directory(data, eocd) {
            Ok(()) => Ok(0),
            Err(e) => Err(e),
        }
    }
}

impl ZipFileEntry {
    pub fn name(&self) -> (r: &String)
        ensures
            r@ == self@.name,
    {
        &self.name
    }

    pub fn crc32(&self) -> (r: &u32)
        ensures
            *r == self@.crc32,
    {
        &self.crc32
    }

    pub fn compression_type(&self) -> (r: &CompressionType)
        ensures
            *r == self@.compression_type,
    {
        &self.compression_type
    }

    pub fn compressed_size(&self) -> (r: &i64)
        ensures
            *r as int == self@.compressed_size,
    {
        &self.compressed_size
    }

    pub fn uncompressed_size(&self) -> (r: &i64)
        ensures
            *r as int == self@.uncompressed_size,
    {
        &self.uncompressed_size
    }

    pub fn disk_number_start(&self) -> (r: &u16)
        ensures
            *r == self@.disk_number_start,
    {
        &self.disk_number_start
    }

    pub fn local_header_offset(&self) -> (r: &i64)
        ensures
            *r as int == self@.local_header_offset,
    {
        &self.local_header_offset
    }

    pub fn data_offset(&self) -> (r: &i64)
        ensures
            *r as int == self@.data_offset,
    {
        &self.data_offset
    }
}

impl ZipFile {
    pub fn entries(&self) -> (r: &Vec<ZipFileEntry>)
        ensures
            r@.map_values(|e: ZipFileEntry| e@) == self@,
    {
        &self.entries
    }

    /// Loads from the fetched tail `data` of an archive of `total_size` bytes, refusing a
    /// next offset that lies beyond the archive.
    pub fn load_fetched(&mut self, data: &Vec<u8>, total_size: i64) -> (r: Result<i64, ZipError>)
        ensures
            ({
                let (res, es) = load_spec(data@, total_size as int, old(self)@);
                &&& final(self)@ == es
                &&& match res {
                    Some(v) => if v > total_size {
                        r is Err
                    } else {
                        r matches Ok(x) && x == v
                    },
                    None => r is Err,
                }
            }),
    {
        let bytes = data.clone();
        assert(bytes@ =~= data@);
        let mut buffer = buffer_from_vec(bytes);
        let offset = self.load(&mut buffer, total_size)?;
        if offset > total_size {
            return Err(ZipError::InvalidEndOfCentralDirectory);
        }
        Ok(offset)
    }
}

/// Where fetching the tail of an archive of `content_length` bytes starts: 8 KiB before
/// its end, or nothing when the archive is smaller than that.
pub fn initial_fetch_offset(content_length: i64) -> (r: Option<i64>)
    ensures
        r matches Some(o) ==> o == content_length - 8192 && o >= 0,
        r is None <==> content_length - 8192 < 0,
{
    if content_length < 8192 {
        None
    } else {
        Some(content_length - 8192)
    }
}

/// The byte range (first and last byte, inclusive) to fetch next when `held` bytes of the
/// archive's tail are held and the central directory needs the bytes from `offset` on;
/// nothing once `offset` is 0 or the held tail reached the back-scan limit.
pub fn next_fetch_range(content_length: i64, offset: i64, held: usize) -> (r: Option<(i64, i64)>)
    requires
        held <= content_length,
    ensures
        r is Some <==> offset > 0 && held < MAX_BACKSCAN_OFFSET,
        r matches Some((start, last)) ==> start == offset && last == content_length - held - 1,
{
    if offset > 0 && held < MAX_BACKSCAN_OFFSET {
        let read = content_length as i128 - offset as i128 - held as i128;
        let start_offset = content_length as i128 - held as i128 - read;
        let end_offset = start_offset + read;
        Some((start_offset as i64, (end_offset - 1) as i64))
    } else {
        None
    }
}

} // verus!
