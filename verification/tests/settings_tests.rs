use maxima::gameinfo::{prefix_from_string, prefix_to_string, GameInstallInfo};
use maxima::gamesettings::{GameSettings, GameSettingsManager};

#[test]
fn unconfigured_game_settings() {
    let s = GameSettings::new();
    assert!(s.cloud_saves());
    assert!(!s.installed);
    assert_eq!(s.launch_args(), "");
    assert_eq!(s.exe_override(), "");
}

#[test]
fn update_keeps_installed_flag() {
    let mut s = GameSettings::new();
    s.installed = true;
    s.update_from(false, "-windowed".to_string(), "bin/x.exe".to_string());
    assert!(!s.cloud_saves());
    assert!(s.installed);
    assert_eq!(s.launch_args(), "-windowed");
    assert_eq!(s.exe_override(), "bin/x.exe");
}

#[test]
fn get_after_save_reads_back() {
    let mut m = GameSettingsManager::new();
    let fresh = m.get("bf");
    assert!(fresh.cloud_saves());
    let mut s = GameSettings::new();
    s.update_from(false, "-a".to_string(), String::new());
    m.save("bf", s.clone());
    let mut t = GameSettings::new();
    t.update_from(true, "-b".to_string(), String::new());
    m.save("me", t);
    assert_eq!(m.get("bf").launch_args(), "-a");
    assert!(!m.get("bf").cloud_saves());
    assert_eq!(m.get("me").launch_args(), "-b");
    let mut u = GameSettings::new();
    u.update_from(true, "-c".to_string(), String::new());
    m.save("bf", u);
    assert_eq!(m.get("bf").launch_args(), "-c");
    assert_eq!(m.get("me").launch_args(), "-b");
    assert_eq!(m.get("other").launch_args(), "");
}

#[test]
fn prefix_round_trip() {
    let p = Some("/home/u/prefix".to_string());
    let stored = prefix_to_string(&p);
    assert_eq!(stored, "/home/u/prefix");
    assert_eq!(prefix_from_string(stored), p);
    let stored_none = prefix_to_string(&None);
    assert_eq!(stored_none, "");
    assert_eq!(prefix_from_string(stored_none), None);
    // An empty prefix reads back as none.
    assert_eq!(prefix_from_string(prefix_to_string(&Some(String::new()))), None);
}

#[test]
fn install_info_getters() {
    let i = GameInstallInfo::new("/games/x".to_string(), Some("/pfx".to_string()));
    assert_eq!(i.path(), "/games/x");
    assert_eq!(i.wine_prefix(), Some("/pfx".to_string()));
}

#[test]
fn settings_files() {
    let mut s = GameSettings::new();
    assert_eq!(maxima::gamesettings::save_game_settings("/d", "bf", &s), None);
    s.installed = true;
    assert_eq!(maxima::gamesettings::save_game_settings("/d", "bf", &s), Some("/d/settings/bf.json".to_string()));
    assert_eq!(maxima::gamesettings::settings_path("/d/", "x"), "/d/settings/x.json");
}
