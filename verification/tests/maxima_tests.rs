use maxima::maxima::cached_avatar_path;
use maxima::maxima::{update_playing_status, PlayingAction};
use maxima::maxima::{
    lsx_port_from_env, parse_u16, parse_u32, parse_u64, MaximaEvent, MaximaSetting, PendingEvents,
};

#[test]
fn events_come_out_oldest_first_once() {
    let mut p = PendingEvents::new();
    p.call_event(MaximaEvent::InstallFinished("A".to_string()));
    p.call_event(MaximaEvent::InstallFinished("B".to_string()));
    let out = p.consume_pending_events();
    let ids: Vec<String> = out
        .iter()
        .map(|e| match e {
            MaximaEvent::InstallFinished(s) => s.clone(),
            _ => String::new(),
        })
        .collect();
    assert_eq!(ids, vec!["A", "B"]);
    assert!(p.consume_pending_events().is_empty());
}

#[test]
fn default_setting() {
    assert_eq!(MaximaSetting::default(), MaximaSetting::IsIgoEnabled);
}

#[test]
fn number_parsing() {
    assert_eq!(parse_u16("3216"), Some(3216));
    assert_eq!(parse_u16("+7"), Some(7));
    assert_eq!(parse_u16("65535"), Some(65535));
    assert_eq!(parse_u16("65536"), None);
    assert_eq!(parse_u16(""), None);
    assert_eq!(parse_u16("+"), None);
    assert_eq!(parse_u16("-1"), None);
    assert_eq!(parse_u16("12a"), None);
    assert_eq!(parse_u32("4294967295"), Some(u32::MAX));
    assert_eq!(parse_u32("4294967296"), None);
    assert_eq!(parse_u64("18446744073709551615"), Some(u64::MAX));
    assert_eq!(parse_u64("18446744073709551616"), None);
    assert_eq!(parse_u64("007"), Some(7));
}

#[test]
fn lsx_port() {
    assert_eq!(lsx_port_from_env(None), Some(3216));
    assert_eq!(lsx_port_from_env(Some("4000")), Some(4000));
    assert_eq!(lsx_port_from_env(Some("x")), None);
}

#[test]
fn avatar_cache_paths() {
    assert_eq!(cached_avatar_path("/data/maxima", "1234", 208, 40), "/data/maxima/cache/avatars/1234_208x40.jpg");
}

#[test]
fn playing_status_checks() {
    assert_eq!(update_playing_status(1, true, false, true, Some(true)), PlayingAction::Nothing);
    assert_eq!(update_playing_status(0, false, false, true, Some(true)), PlayingAction::Nothing);
    assert_eq!(update_playing_status(0, true, true, true, Some(true)), PlayingAction::Nothing);
    assert_eq!(update_playing_status(0, true, false, true, Some(true)), PlayingAction::Stopped { sync_cloud_saves: true });
    assert_eq!(update_playing_status(0, true, false, false, Some(true)), PlayingAction::Stopped { sync_cloud_saves: false });
    assert_eq!(update_playing_status(0, true, false, true, None), PlayingAction::Stopped { sync_cloud_saves: false });
}
