use maxima::cloudsync::{
    download_destination,
    file_key, file_md5, substitute_paths, unsubstitute_paths, CloudSyncFile, CloudSyncLockMode,
    CloudSyncManifest, LocalSave,
};

fn file(href: &str, md5: Option<&str>, local: &str) -> CloudSyncFile {
    CloudSyncFile {
        attr_href: href.to_string(),
        attr_size: "1".to_string(),
        attr_md5: md5.map(|s| s.to_string()),
        local_name: local.to_string(),
    }
}

fn manifest(files: Vec<CloudSyncFile>) -> CloudSyncManifest {
    CloudSyncManifest { attr_xmlns: String::new(), file: files }
}

#[test]
fn lock_paths() {
    assert_eq!(CloudSyncLockMode::Read.lock_path(), "lock/read");
    assert_eq!(CloudSyncLockMode::Write.lock_path(), "lock/write");
}

#[test]
fn path_placeholders() {
    assert_eq!(substitute_paths("%Documents%/Game/save.dat", "/home/u"), "/home/u/Documents/Game/save.dat");
    assert_eq!(substitute_paths("%SavedGames%/G", "/home/u"), "/home/u/Saved Games/G");
    assert_eq!(substitute_paths("C:/plain", "/home/u"), "C:/plain");
    assert_eq!(unsubstitute_paths("/home/u/Documents/Game/save.dat", "/home/u"), "%Documents%/Game/save.dat");
    assert_eq!(unsubstitute_paths("/home/u/Saved Games/G", "/home/u"), "%SavedGames%/G");
    assert_eq!(unsubstitute_paths("/elsewhere", "/home/u"), "/elsewhere");
}

#[test]
fn checksums() {
    assert_eq!(file_md5(b"", false), "d41d8cd98f00b204e9800998ecf8427e");
    assert_eq!(file_md5(b"hello", false), "5d41402abc4b2a76b9719d911017c592");
    assert_eq!(file_md5(b"", true), "167830467844043968176572005485231480276");
    assert_eq!(file_md5(b"hello", true), "195090637673866227529774941829999903069");
}

#[test]
fn file_keys() {
    assert_eq!(file_key(1234, "abcd"), "1234-abcd");
    assert_eq!(file_key(0, ""), "0-");
}

#[test]
fn manifest_lookup_by_checksum() {
    let m = manifest(vec![file("a", Some("x"), "A"), file("b", None, "B"), file("c", Some("x"), "C")]);
    assert_eq!(m.file_by_md5("x").unwrap().attr_href, "a");
    assert!(m.file_by_md5("y").is_none());
}

#[test]
fn read_sync_requests() {
    let m = manifest(vec![file("r0", Some("m0"), "A"), file("r1", Some("m1"), "B"), file("r2", Some("m2"), "C")]);
    // The first copy is current, the second is missing, the third changed.
    let local = vec![Some("m0".to_string()), None, Some("changed".to_string())];
    let reqs = m.read_requests(&local);
    assert_eq!(reqs.len(), 1);
    assert_eq!(reqs[0].attr_id, "2");
    assert_eq!(reqs[0].verb, "GET");
    assert_eq!(reqs[0].resource, "r2");
}

#[test]
fn write_sync_plan() {
    let m = manifest(vec![file("1-aa", Some("aa"), "kept")]);
    let saves = vec![
        LocalSave { name: "kept".into(), size: 1, hex: "aa".into(), base62: "B1".into() },
        LocalSave { name: "new".into(), size: 42, hex: "bb".into(), base62: "B2".into() },
    ];
    let plan = m.write_plan(&saves).unwrap();
    assert_eq!(plan.requests.len(), 2);
    assert_eq!(plan.requests[0].attr_id, "0");
    assert_eq!(plan.requests[0].verb, "PUT");
    assert_eq!(plan.requests[0].resource, "manifest.xml");
    assert_eq!(plan.requests[0].content_type.as_deref(), Some("text/xml"));
    assert_eq!(plan.requests[1].attr_id, "1");
    assert_eq!(plan.requests[1].resource, "42-bb");
    assert_eq!(plan.requests[1].md5.as_deref(), Some("B2"));
    assert_eq!(plan.files.len(), 2);
    assert_eq!(plan.files[0].attr_href, "1-aa");
    assert_eq!(plan.files[1].attr_href, "42-bb");
    assert_eq!(plan.files[1].attr_size, "42");
    assert_eq!(plan.files[1].attr_md5.as_deref(), Some("B2"));
    assert_eq!(plan.files[1].local_name, "new");
    // Nothing to upload: no plan.
    let only_kept = vec![LocalSave { name: "kept".into(), size: 1, hex: "aa".into(), base62: "B1".into() }];
    assert!(m.write_plan(&only_kept).is_none());
}

#[test]
fn placeholder_round_trip() {
    let stored = "%Documents%/BioWare/Save 1.sav";
    let local = substitute_paths(stored, "/home/u");
    assert_eq!(unsubstitute_paths(&local, "/home/u"), stored);
}

#[test]
fn prefix_home() {
    assert_eq!(maxima::cloudsync::home_dir("/pfx"), "/pfx/drive_c/users/steamuser");
}

#[test]
fn saved_games_round_trip() {
    let stored = "%SavedGames%/Respawn/profile.cfg";
    let local = substitute_paths(stored, "/pfx/drive_c/users/steamuser");
    assert_eq!(local, "/pfx/drive_c/users/steamuser/Saved Games/Respawn/profile.cfg");
    assert_eq!(unsubstitute_paths(&local, "/pfx/drive_c/users/steamuser"), stored);
}

#[test]
fn download_destination_skips_error_answers() {
    let paths = vec![
        ("0".to_string(), "/saves/a.sav".to_string()),
        ("3".to_string(), "/saves/b.sav".to_string()),
    ];
    assert_eq!(download_destination(200, "3", &paths), Some("/saves/b.sav".to_string()));
    assert_eq!(download_destination(204, "0", &paths), Some("/saves/a.sav".to_string()));
    assert_eq!(download_destination(403, "0", &paths), None);
    assert_eq!(download_destination(500, "9", &paths), None);
}
