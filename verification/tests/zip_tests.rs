use maxima::zip::{
    initial_fetch_offset, next_fetch_range, signature_scan_rev, CompressionType, EndOfCentralDirectory,
    ZipFile, ZipFileEntry, ZIP_EOCD_SIGNATURE,
};

fn le16(v: u16) -> Vec<u8> {
    v.to_le_bytes().to_vec()
}

fn le32(v: u32) -> Vec<u8> {
    v.to_le_bytes().to_vec()
}

fn central_header(name: &str, method: u16, comp: u32, unc: u32, disk: u16, offset: u32, extra: &[u8], comment: &[u8]) -> Vec<u8> {
    let mut v = Vec::new();
    v.extend(le32(0x02014b50));
    v.extend(le16(20)); // version
    v.extend(le16(20)); // needed
    v.extend(le16(0)); // flags
    v.extend(le16(method));
    v.extend(le16(0)); // time
    v.extend(le16(0)); // date
    v.extend(le32(0xdeadbeef)); // crc
    v.extend(le32(comp));
    v.extend(le32(unc));
    v.extend(le16(name.len() as u16));
    v.extend(le16(extra.len() as u16));
    v.extend(le16(comment.len() as u16));
    v.extend(le16(disk));
    v.extend(le16(0));
    v.extend(le32(0));
    v.extend(le32(offset));
    v.extend(name.as_bytes());
    v.extend(extra);
    v.extend(comment);
    v
}

fn eocd(total: u16, cd_size: u32, cd_offset: u32) -> Vec<u8> {
    let mut v = Vec::new();
    v.extend(le32(0x06054b50));
    v.extend(le16(0));
    v.extend(le16(0));
    v.extend(le16(total));
    v.extend(le16(total));
    v.extend(le32(cd_size));
    v.extend(le32(cd_offset));
    v.extend(le16(0));
    v
}

#[test]
fn scan_finds_last_signature() {
    let mut data = vec![0u8; 3];
    data.extend(le32(ZIP_EOCD_SIGNATURE));
    data.extend([1, 2]);
    data.extend(le32(ZIP_EOCD_SIGNATURE));
    assert_eq!(signature_scan_rev(&data, ZIP_EOCD_SIGNATURE), Some(9));
    assert_eq!(signature_scan_rev(&data[..9], ZIP_EOCD_SIGNATURE), Some(3));
    assert_eq!(signature_scan_rev(&data[..6], ZIP_EOCD_SIGNATURE), None);
    assert_eq!(signature_scan_rev(&[], ZIP_EOCD_SIGNATURE), None);
}

#[test]
fn compression_from_num() {
    assert_eq!(CompressionType::from_num(8), CompressionType::Deflate);
    assert_eq!(CompressionType::from_num(0), CompressionType::Stored);
    assert_eq!(CompressionType::from_num(12), CompressionType::Stored);
}

#[test]
fn parse_single_entry_and_skip_comment() {
    let mut data = central_header("dir/a.txt", 8, 100, 250, 0, 17, &[], b"hi");
    data.push(0xAA);
    let mut buf = bytebuffer::ByteBuffer::from_vec(data);
    buf.set_endian(bytebuffer::Endian::LittleEndian);
    let entry = ZipFileEntry::parse(&mut buf).unwrap();
    assert_eq!(entry.name(), "dir/a.txt");
    assert_eq!(*entry.crc32(), 0xdeadbeef);
    assert_eq!(*entry.compression_type(), CompressionType::Deflate);
    assert_eq!(*entry.compressed_size(), 100);
    assert_eq!(*entry.uncompressed_size(), 250);
    assert_eq!(*entry.local_header_offset(), 17);
    assert_eq!(*entry.data_offset(), 0);
    assert_eq!(buf.get_rpos(), 46 + 9 + 2);
}

#[test]
fn parse_rejects_bad_signature_and_short_data() {
    let mut data = central_header("a", 0, 1, 1, 0, 0, &[], &[]);
    data[0] = 0;
    let mut buf = bytebuffer::ByteBuffer::from_vec(data);
    buf.set_endian(bytebuffer::Endian::LittleEndian);
    assert!(ZipFileEntry::parse(&mut buf).is_err());
    let data = central_header("a", 0, 1, 1, 0, 0, &[], &[]);
    let mut short = bytebuffer::ByteBuffer::from_vec(data[..40].to_vec());
    short.set_endian(bytebuffer::Endian::LittleEndian);
    assert!(ZipFileEntry::parse(&mut short).is_err());
}

#[test]
fn parse_rejects_invalid_utf8_name() {
    let mut data = central_header("ab", 0, 1, 1, 0, 0, &[], &[]);
    data[46] = 0xFF;
    let mut buf = bytebuffer::ByteBuffer::from_vec(data);
    buf.set_endian(bytebuffer::Endian::LittleEndian);
    assert!(ZipFileEntry::parse(&mut buf).is_err());
}

#[test]
fn parse_zip64_extra_field() {
    let mut extra = Vec::new();
    extra.extend(le16(1));
    extra.extend(le16(16));
    extra.extend(5_000_000_000u64.to_le_bytes());
    extra.extend(6_000_000_000u64.to_le_bytes());
    let data = central_header("big.bin", 0, 0xFFFFFFFF, 0xFFFFFFFF, 0, 42, &extra, &[]);
    let mut buf = bytebuffer::ByteBuffer::from_vec(data);
    buf.set_endian(bytebuffer::Endian::LittleEndian);
    let entry = ZipFileEntry::parse(&mut buf).unwrap();
    assert_eq!(*entry.uncompressed_size(), 5_000_000_000);
    assert_eq!(*entry.compressed_size(), 6_000_000_000);
    assert_eq!(*entry.local_header_offset(), 42);
}

#[test]
fn parse_zip64_extra_field_after_another_record() {
    let mut extra = vec![0x09, 0x00, 0x04, 0x00, 1, 2, 3, 4];
    extra.extend(le16(1));
    extra.extend(le16(8));
    extra.extend(5_000_000_000u64.to_le_bytes());
    let data = central_header("big.bin", 0, 7, 0xFFFFFFFF, 0, 42, &extra, &[]);
    let mut buf = bytebuffer::ByteBuffer::from_vec(data);
    buf.set_endian(bytebuffer::Endian::LittleEndian);
    let entry = ZipFileEntry::parse(&mut buf).unwrap();
    assert_eq!(*entry.uncompressed_size(), 5_000_000_000);
    assert_eq!(*entry.compressed_size(), 7);
}

#[test]
fn parse_zip64_extra_field_too_short() {
    let mut extra = Vec::new();
    extra.extend(le16(1));
    extra.extend(le16(8));
    extra.extend(5_000_000_000u64.to_le_bytes());
    let data = central_header("big.bin", 0, 0xFFFFFFFF, 0xFFFFFFFF, 0, 42, &extra, &[]);
    let mut buf = bytebuffer::ByteBuffer::from_vec(data);
    buf.set_endian(bytebuffer::Endian::LittleEndian);
    assert!(ZipFileEntry::parse(&mut buf).is_err());
}

#[test]
fn eocd_parse_reads_fields() {
    let mut data = eocd(3, 200, 1000);
    data[20] = 4; // comment length
    data.extend(b"note");
    let mut buf = bytebuffer::ByteBuffer::from_vec(data);
    buf.set_endian(bytebuffer::Endian::LittleEndian);
    let mut e = EndOfCentralDirectory::default();
    e.parse(&mut buf).unwrap();
    assert_eq!(e.total_entries, 3);
    assert_eq!(e.cd_size, 200);
    assert_eq!(e.cd_offset, 1000);
    assert_eq!(e.comment_length, 4);
    assert_eq!(buf.get_rpos(), 26);
}

#[test]
fn eocd_parse_too_short() {
    let data = eocd(3, 200, 1000);
    let mut buf = bytebuffer::ByteBuffer::from_vec(data[..21].to_vec());
    buf.set_endian(bytebuffer::Endian::LittleEndian);
    let mut e = EndOfCentralDirectory::default();
    assert!(e.parse(&mut buf).is_err());
    assert_eq!(e, EndOfCentralDirectory::default());
}

#[test]
fn load_archive_with_two_entries() {
    let a = central_header("a.txt", 8, 30, 50, 0, 0, &[], &[]);
    let b = central_header("b.txt", 0, 10, 10, 0, 75, &[], &[]);
    let mut data = Vec::new();
    data.extend(&a);
    data.extend(&b);
    let cd_size = data.len() as u32;
    data.extend(eocd(2, cd_size, 0));
    let total = data.len() as i64;
    let mut zip = ZipFile::default();
    let r = zip.load_fetched(&data, total).unwrap();
    assert_eq!(r, 0);
    let entries = zip.entries();
    assert_eq!(entries.len(), 2);
    assert_eq!(entries[0].name(), "a.txt");
    assert_eq!(entries[1].name(), "b.txt");
    // The first entry's data ends where the second entry's local header starts.
    assert_eq!(*entries[0].data_offset(), 75 - 30);
    assert_eq!(*entries[1].data_offset(), 0);
}

#[test]
fn load_asks_for_more_bytes() {
    let data = vec![0u8; 100];
    let mut zip = ZipFile::default();
    // No end of central directory: back up by 1024 more bytes.
    assert_eq!(zip.load_fetched(&data, 10_000).unwrap(), 10_000 - 100 - 1024);
    assert_eq!(zip.load_fetched(&data, 600).unwrap(), 0);
    // The central directory lies before the held tail.
    let mut tail = vec![0u8; 10];
    tail.extend(eocd(1, 46, 500));
    assert_eq!(zip.load_fetched(&tail, 1000).unwrap(), 500);
    assert_eq!(zip.entries().len(), 0);
}

#[test]
fn fetch_ranges() {
    assert_eq!(initial_fetch_offset(100), None);
    assert_eq!(initial_fetch_offset(10_000), Some(10_000 - 8192));
    assert_eq!(next_fetch_range(10_000, 1808, 0), Some((1808, 9999)));
    assert_eq!(next_fetch_range(10_000, 0, 100), None);
    assert_eq!(next_fetch_range(10_000, 100, 8192), Some((100, 10_000 - 8192 - 1)));
}
