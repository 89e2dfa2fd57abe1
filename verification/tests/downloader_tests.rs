use maxima::downloader::{
    check_range_response, plan_entry_download, range_header, retry_delay, state_file_name,
    DownloadError, EntryPlan, SaveTracker, STATE_SAVE_INTERVAL,
};
use maxima::zip::ZipFileEntry;

fn entry(name: &str, comp: u32, unc: u32) -> ZipFileEntry {
    let mut v: Vec<u8> = Vec::new();
    v.extend(0x02014b50u32.to_le_bytes());
    v.extend(20u16.to_le_bytes());
    v.extend(20u16.to_le_bytes());
    v.extend(0u16.to_le_bytes());
    v.extend(8u16.to_le_bytes());
    v.extend(0u16.to_le_bytes());
    v.extend(0u16.to_le_bytes());
    v.extend(0u32.to_le_bytes());
    v.extend(comp.to_le_bytes());
    v.extend(unc.to_le_bytes());
    v.extend((name.len() as u16).to_le_bytes());
    v.extend(0u16.to_le_bytes());
    v.extend(0u16.to_le_bytes());
    v.extend(0u16.to_le_bytes());
    v.extend(0u16.to_le_bytes());
    v.extend(0u32.to_le_bytes());
    v.extend(0u32.to_le_bytes());
    v.extend(name.as_bytes());
    let mut buf = bytebuffer::ByteBuffer::from_vec(v);
    buf.set_endian(bytebuffer::Endian::LittleEndian);
    ZipFileEntry::parse(&mut buf).unwrap()
}

#[test]
fn entry_plans() {
    assert_eq!(plan_entry_download(&entry("dir/", 0, 0), 0), Ok(EntryPlan::Directory));
    assert_eq!(plan_entry_download(&entry("dir\\", 0, 0), 0), Ok(EntryPlan::Directory));
    assert_eq!(plan_entry_download(&entry("empty.txt", 0, 0), 0), Ok(EntryPlan::Empty));
    let e = entry("a.bin", 100, 300);
    assert_eq!(plan_entry_download(&e, 0), Ok(EntryPlan::Range { start: 0, end: 99 }));
    assert_eq!(plan_entry_download(&e, 10), Ok(EntryPlan::Range { start: 10, end: 99 }));
    assert_eq!(plan_entry_download(&e, 100), Ok(EntryPlan::Complete));
    let z = entry("z.bin", 0, 5);
    assert_eq!(plan_entry_download(&z, 0), Ok(EntryPlan::Complete));
}

#[test]
fn range_headers() {
    assert_eq!(range_header(10, 99), "bytes=10-99");
    assert_eq!(range_header(0, -1), "bytes=0--1");
}

#[test]
fn range_responses() {
    assert_eq!(check_range_response(0, 200), Ok(()));
    assert_eq!(check_range_response(5, 206), Ok(()));
    assert_eq!(check_range_response(5, 200), Err(DownloadError::RangeIgnored(200)));
    assert_eq!(check_range_response(0, 404), Err(DownloadError::Status(404)));
}

#[test]
fn retries() {
    assert_eq!(retry_delay(0), Some(1));
    assert_eq!(retry_delay(1), Some(2));
    assert_eq!(retry_delay(2), Some(4));
    assert_eq!(retry_delay(3), None);
}

#[test]
fn state_files() {
    assert_eq!(state_file_name("data/sub\\file.bin"), "data_sub_file.bin.state");
    assert_eq!(state_file_name(""), ".state");
}

#[test]
fn save_tracking() {
    let mut t = SaveTracker::new();
    t.update_bytes_written(STATE_SAVE_INTERVAL - 1);
    assert!(!t.should_save);
    t.update_bytes_written(1);
    assert!(t.should_save);
    t.saved();
    assert_eq!(t.bytes_since_last, 0);
    assert_eq!(t.bytes_written, STATE_SAVE_INTERVAL);
    t.update_bytes_written(5);
    assert!(!t.should_save);
}

fn lines(ls: &[&str]) -> Vec<String> {
    ls.iter().map(|s| s.to_string()).collect()
}

#[test]
fn exclusion_lists_filter_entries() {
    let set = maxima::exclusion::get_exclusion_list(Some(&lines(&[
        "# comment",
        "   ",
        "  *.pdb  ",
        "Support/**",
        "[",
    ])));
    let entries = vec![
        entry("game.exe", 10, 20),
        entry("game.pdb", 7, 9),
        entry("Support/redist.exe", 5, 5),
        entry("data/level.pak", 30, 60),
    ];
    let (kept, total) = maxima::exclusion::included_entries(entries, &set);
    let names: Vec<&str> = kept.iter().map(|e| e.name().as_str()).collect();
    assert_eq!(names, vec!["game.exe", "data/level.pak"]);
    assert_eq!(total, 41);
}

#[test]
fn missing_exclusion_file_excludes_nothing() {
    let set = maxima::exclusion::get_exclusion_list(None);
    let (kept, total) = maxima::exclusion::included_entries(vec![entry("a", 3, 3), entry("b", 4, 4)], &set);
    assert_eq!(kept.len(), 2);
    assert_eq!(total, 8);
    let (none, t0) = maxima::exclusion::included_entries(vec![], &set);
    assert!(none.is_empty());
    assert_eq!(t0, 1);
}
