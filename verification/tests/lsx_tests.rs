use maxima::crypto::{make_challenge_response, make_lsx_key, simple_encrypt, CRYPTO_KEY};
use maxima::lsx::{
    challenge_message, config_services, create_lsx_message, error_success, friend_entry,
    handle_challenge_response, handle_config_request, handle_connectivity_request,
    handle_game_info_request, handle_pi_availability_request, handle_pi_installed_chunks_request,
    handle_presence_request, handle_settings_request, incoming_text, lsx_documents, lsx_presence,
    outgoing_frame, presence_friend, presence_status, respond, try_handle_challenge_response,
    EncryptionState, FriendError, LSXAreChunksInstalled, LSXChallengeResponse, LSXEventType,
    LSXFriendState, LSXGameInfoId, LSXGetConfig, LSXGetGameInfo, LSXGetInternetConnectedState,
    LSXGetPresence, LSXGetSetting, LSXIsProgressiveInstallationAvailable, LSXMessageType,
    LSXPresence, LSXRequest, LSXRequestError, LSXRequestType, LSXResponseType, LSXService,
};
use maxima::maxima::MaximaSetting;
use maxima::rtm::{BasicPresence, RichPresence};

fn challenge_response(challenge: &str, key: &str, version: &str) -> LSXChallengeResponse {
    LSXChallengeResponse {
        attr_response: make_challenge_response(challenge),
        attr_key: key.to_string(),
        attr_version: version.to_string(),
        content_id: String::new(),
        title: String::new(),
        multiplayer_id: String::new(),
        language: String::new(),
        version: String::new(),
    }
}

#[test]
fn challenge_event_names_the_launcher() {
    let m = challenge_message("abc");
    match m.value {
        LSXMessageType::Event(e) => {
            assert_eq!(e.sender, "EALS");
            let LSXEventType::Challenge(c) = e.value;
            assert_eq!(c.attr_key, "abc");
            assert_eq!(c.attr_build, "release");
            assert_eq!(c.attr_version, "10,5,64,37936");
        }
        _ => panic!("not an event"),
    }
}

#[test]
fn version_two_handshake_uses_fixed_key() {
    let mut enc = EncryptionState::Disabled;
    let msg = challenge_response("chal", "gamekey", "2");
    let r = handle_challenge_response("chal", &msg, &mut enc).unwrap();
    match r {
        LSXResponseType::ChallengeAccepted(a) => assert_eq!(a.attr_response, make_challenge_response("gamekey")),
        _ => panic!("not accepted"),
    }
    assert_eq!(enc, EncryptionState::Ready(CRYPTO_KEY));
    enc.message_done();
    assert_eq!(enc, EncryptionState::Enabled(CRYPTO_KEY));
    enc.message_done();
    assert_eq!(enc, EncryptionState::Enabled(CRYPTO_KEY));
}

#[test]
fn version_three_handshake_seeds_from_answer() {
    let mut enc = EncryptionState::Disabled;
    let msg = challenge_response("chal", "gamekey", "3");
    handle_challenge_response("chal", &msg, &mut enc).unwrap();
    let accept = make_challenge_response("gamekey");
    let b = accept.as_bytes();
    let seed = (b[0] as u16) * 256 + b[1] as u16;
    assert_eq!(enc, EncryptionState::Ready(make_lsx_key(seed)));
}

#[test]
fn wrong_answer_and_unknown_version_are_refused() {
    let mut enc = EncryptionState::Disabled;
    let msg = challenge_response("other", "k", "2");
    assert_eq!(handle_challenge_response("chal", &msg, &mut enc), Err(LSXRequestError::InvalidChallengeResponse));
    assert_eq!(enc, EncryptionState::Disabled);
    let msg4 = challenge_response("chal", "k", "4");
    assert_eq!(handle_challenge_response("chal", &msg4, &mut enc), Err(LSXRequestError::UnknownEncryption("4".to_string())));
    assert_eq!(enc, EncryptionState::Disabled);
}

#[test]
fn undecryptable_answer_gives_nothing() {
    let mut enc = EncryptionState::Disabled;
    let mut msg = challenge_response("chal", "k", "2");
    msg.attr_response = "zz".to_string();
    assert_eq!(try_handle_challenge_response("chal", &msg, &mut enc), None);
    assert_eq!(enc, EncryptionState::Disabled);
    let good = challenge_response("chal", "k", "2");
    assert!(matches!(try_handle_challenge_response("chal", &good, &mut enc), Some(Ok(_))));
}

#[test]
fn frames_in_the_clear_and_encrypted() {
    assert_eq!(outgoing_frame("<LSX/>", &EncryptionState::Disabled), Some("<LSX/>\0".to_string()));
    assert_eq!(outgoing_frame("<LSX/>", &EncryptionState::Ready([1; 16])), Some("<LSX/>\0".to_string()));
    let key = [9u8; 16];
    let framed = outgoing_frame("<LSX/>", &EncryptionState::Enabled(key)).unwrap();
    let hex = simple_encrypt(b"<LSX/>", &key);
    assert_eq!(framed, format!("{}\0", hex));
    assert_eq!(incoming_text(hex.as_bytes(), &EncryptionState::Enabled(key)), Some("<LSX/>".to_string()));
    assert_eq!(incoming_text(b"  <LSX/> \n", &EncryptionState::Disabled), Some("<LSX/>".to_string()));
    assert_eq!(incoming_text(b"zz", &EncryptionState::Enabled(key)), None);
    assert_eq!(incoming_text(&[0x41, 0xff], &EncryptionState::Disabled), Some("A\u{fffd}".to_string()));
}

#[test]
fn documents_are_split_and_cleaned() {
    let text = "<LSX><Request version=\"\" id=\"1\"/></LSX><LSX><Event/></LSX>junk";
    let docs = lsx_documents(text).unwrap();
    assert_eq!(docs, vec!["<LSX><Request id=\"1\"/></LSX>".to_string(), "<LSX><Event/></LSX>".to_string()]);
    assert_eq!(lsx_documents("nothing").unwrap().len(), 0);
}

#[test]
fn simple_handlers() {
    match handle_settings_request(&LSXGetSetting { attr_SettingId: MaximaSetting::Environment }) {
        LSXResponseType::GetSettingResponse(s) => assert_eq!(s.attr_Setting, "production"),
        _ => panic!(),
    }
    match handle_settings_request(&LSXGetSetting { attr_SettingId: MaximaSetting::IsIgoEnabled }) {
        LSXResponseType::GetSettingResponse(s) => assert_eq!(s.attr_Setting, "false"),
        _ => panic!(),
    }
    match handle_connectivity_request(&LSXGetInternetConnectedState { attr_version: String::new() }) {
        LSXResponseType::InternetConnectedState(s) => assert_eq!(s.attr_connected, 1),
        _ => panic!(),
    }
    match handle_game_info_request(&LSXGetGameInfo { attr_GameInfoId: LSXGameInfoId::InstalledLanguage, attr_version: String::new() }) {
        LSXResponseType::GetGameInfoResponse(g) => assert_eq!(g.attr_GameInfo, "en_US"),
        _ => panic!(),
    }
    match handle_pi_availability_request(&LSXIsProgressiveInstallationAvailable { attr_ItemId: "x".into(), attr_version: String::new() }) {
        LSXResponseType::IsProgressiveInstallationAvailableResponse(p) => {
            assert!(!p.attr_Available);
            assert_eq!(p.attr_ItemId, "Origin.OFR.50.0001456");
        }
        _ => panic!(),
    }
    match handle_pi_installed_chunks_request(LSXAreChunksInstalled { attr_ItemId: "x".into(), attr_version: String::new(), chunk_ids: vec![1, 2, 3] }) {
        LSXResponseType::AreChunksInstalledResponse(p) => {
            assert!(p.attr_Installed);
            assert_eq!(p.chunk_ids, vec![1, 2, 3]);
        }
        _ => panic!(),
    }
    match handle_presence_request(&LSXGetPresence { attr_UserId: 5 }) {
        LSXResponseType::GetPresenceResponse(p) => {
            assert_eq!(p.attr_UserId, 1005663144213);
            assert_eq!(p.attr_Presence, LSXPresence::Ingame);
        }
        _ => panic!(),
    }
    match error_success() {
        LSXResponseType::ErrorSuccess(e) => {
            assert_eq!(e.attr_Code, 0);
            assert!(e.attr_Description.is_empty());
        }
        _ => panic!(),
    }
}

#[test]
fn config_lists_the_services() {
    let services = config_services();
    assert_eq!(services.len(), 34);
    assert_eq!(services[0], LSXService::new("EbisuSDK", "SDK"));
    assert_eq!(services[8], LSXService::new("EALS", "LOGIN"));
    assert_eq!(services[33], LSXService::new("EbisuSDK", "CONTENT"));
    match handle_config_request(&LSXGetConfig { attr_version: String::new() }) {
        LSXResponseType::GetConfigResponse(c) => assert_eq!(c.service, services),
        _ => panic!(),
    }
}

#[test]
fn replies_carry_the_request_id() {
    let req = LSXRequest {
        recipient: "EbisuSDK".to_string(),
        id: "42".to_string(),
        value: LSXRequestType::GetPresence(LSXGetPresence { attr_UserId: 1 }),
    };
    let reply = respond(req.clone(), Some(error_success())).unwrap();
    match reply {
        LSXMessageType::Response(r) => {
            assert_eq!(r.sender, "EbisuSDK");
            assert_eq!(r.id, "42");
            assert_eq!(r.value, error_success());
        }
        _ => panic!(),
    }
    assert_eq!(respond(req, None), None);
    let m = create_lsx_message(LSXMessageType::Request(LSXRequest {
        recipient: "r".into(),
        id: "1".into(),
        value: LSXRequestType::GetPresence(LSXGetPresence { attr_UserId: 1 }),
    }));
    assert!(matches!(m.value, LSXMessageType::Request(_)));
}

#[test]
fn presences() {
    let playing = RichPresence { basic: BasicPresence::Online, status: "Lobby".into(), game: Some("OFR.1".into()) };
    let away = RichPresence { basic: BasicPresence::Away, status: String::new(), game: Some(String::new()) };
    let dnd = RichPresence { basic: BasicPresence::Dnd, status: String::new(), game: None };
    assert_eq!(lsx_presence(&playing), LSXPresence::Ingame);
    assert_eq!(lsx_presence(&away), LSXPresence::Idle);
    assert_eq!(lsx_presence(&dnd), LSXPresence::Busy);
    let f = presence_friend(7, &playing);
    assert_eq!(f.attr_UserId, 7);
    assert_eq!(f.attr_RichPresence, "Lobby");
    assert_eq!(f.attr_GamePresence, "OFR.1");
    assert_eq!(f.attr_State, LSXFriendState::NoRelation);
    assert_eq!(presence_status("Game", "In menus"), "Game: In menus");
}

#[test]
fn friend_entries() {
    let p = RichPresence { basic: BasicPresence::Online, status: "s".into(), game: None };
    let f = friend_entry("bob", "123", "456", Some(&p)).unwrap();
    assert_eq!(f.attr_UserId, 123);
    assert_eq!(f.attr_PersonaId, "456");
    assert_eq!(f.attr_AvatarId, "user:123");
    assert_eq!(f.attr_Persona, "bob");
    assert_eq!(f.attr_Presence, LSXPresence::Online);
    assert_eq!(f.attr_State, LSXFriendState::Mutual);
    let off = friend_entry("bob", "1", "2", None).unwrap();
    assert_eq!(off.attr_Presence, LSXPresence::Offline);
    assert_eq!(friend_entry("bob", "x", "2", None), Err(FriendError::Parse));
    assert_eq!(friend_entry("bob", "1", "y", None), Err(FriendError::Parse));
}
