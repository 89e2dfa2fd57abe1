use maxima::launch::LaunchMode;
use maxima::lsx::{
    FriendError, LSXFriendState, LSXPresence, LSXQueryImage, LSXQueryPresence, LSXRequestError,
    LSXResponseType, LSXSetPresence,
};
use maxima::service_layer::{ServiceAvailableBuild, ServiceAvailableBuilds, ServiceDownloadType};
use maxima::lsx_account::{
    handle_all_game_info_request,
    handle_auth_code_request, handle_license_request, handle_profile_request,
    handle_query_friends_request, handle_query_image_request, handle_query_presence_request,
    handle_query_entitlements_request, handle_set_presence_request, image_user_id, license_auth,
    license_shortcut, EntitlementRecord, FriendRecord,
};
use maxima::lsx::LSXQueryEntitlements;
use maxima::ooa::{License, LicenseAuth};
use maxima::rtm::{BasicPresence, RichPresence};

#[test]
fn profile_reply() {
    match handle_profile_request("Player", "1000", "2000", "/avatars/1000.jpg").unwrap() {
        LSXResponseType::GetProfileResponse(p) => {
            assert_eq!(p.attr_Persona, "Player");
            assert_eq!(p.attr_UserId, 1000);
            assert_eq!(p.attr_PersonaId, 2000);
            assert_eq!(p.attr_AvatarId, "/avatars/1000.jpg");
            assert_eq!(p.attr_CommerceCurrency, "USD");
            assert_eq!(p.attr_Country, "US");
        }
        _ => panic!(),
    }
    assert_eq!(handle_profile_request("P", "x", "1", ""), Err(FriendError::Parse));
    assert_eq!(handle_profile_request("P", "1", "", ""), Err(FriendError::Parse));
}

#[test]
fn presence_query_lists_known_users() {
    let req = LSXQueryPresence { attr_UserId: 1, Users: vec![10, 20, 30] };
    let presences = vec![
        Some(RichPresence { basic: BasicPresence::Online, status: "A".into(), game: None }),
        None,
        Some(RichPresence { basic: BasicPresence::Away, status: "C".into(), game: Some("G".into()) }),
    ];
    match handle_query_presence_request(&req, &presences) {
        LSXResponseType::QueryPresenceResponse(q) => {
            assert_eq!(q.friend.len(), 2);
            assert_eq!(q.friend[0].attr_UserId, 10);
            assert_eq!(q.friend[1].attr_UserId, 30);
            assert_eq!(q.friend[1].attr_GamePresence, "G");
            assert_eq!(q.friend[1].attr_Presence, LSXPresence::Ingame);
        }
        _ => panic!(),
    }
}

fn record(rel: &str, id: &str, pd: &str, name: &str) -> FriendRecord {
    FriendRecord { relationship: rel.into(), id: id.into(), pd: pd.into(), unique_name: name.into() }
}

#[test]
fn friends_reply() {
    let friends = vec![record("FRIEND", "1", "11", "a"), record("BLOCKED", "x", "y", "b"), record("FRIEND", "2", "22", "c")];
    let presences = vec![None, None, Some(RichPresence { basic: BasicPresence::Dnd, status: "s".into(), game: None })];
    match handle_query_friends_request(&friends, &presences).unwrap() {
        LSXResponseType::QueryFriendsResponse(q) => {
            assert_eq!(q.friend.len(), 2);
            assert_eq!(q.friend[0].attr_Persona, "a");
            assert_eq!(q.friend[0].attr_Presence, LSXPresence::Offline);
            assert_eq!(q.friend[1].attr_UserId, 2);
            assert_eq!(q.friend[1].attr_Presence, LSXPresence::Busy);
            assert_eq!(q.friend[1].attr_State, LSXFriendState::Mutual);
        }
        _ => panic!(),
    }
    let bad = vec![record("FRIEND", "n", "1", "a")];
    assert_eq!(handle_query_friends_request(&bad, &vec![None]), Err(FriendError::Parse));
}

#[test]
fn set_presence_publishes_status() {
    let req = LSXSetPresence {
        attr_UserId: 1,
        attr_Presence: LSXPresence::Ingame,
        attr_RichPresence: Some("In a match".into()),
        attr_GamePresence: None,
        attr_SessionId: None,
    };
    let (reply, publish) = handle_set_presence_request(&req, false, "Game", "OFR.1");
    assert!(matches!(reply, LSXResponseType::ErrorSuccess(_)));
    assert_eq!(publish, Some(("Game: In a match".to_string(), "OFR.1".to_string())));
    assert_eq!(handle_set_presence_request(&req, true, "Game", "OFR.1").1, None);
    let quiet = LSXSetPresence { attr_RichPresence: None, ..req };
    assert_eq!(handle_set_presence_request(&quiet, false, "Game", "OFR.1").1, None);
}

#[test]
fn images_and_auth_codes() {
    assert_eq!(image_user_id("user:123"), Some("123".to_string()));
    assert_eq!(image_user_id("nocolon"), None);
    let req = LSXQueryImage { attr_ImageId: "user:1".into(), attr_Width: 208, attr_Height: 208 };
    match handle_query_image_request(&req, "C:/a.jpg") {
        LSXResponseType::QueryImageResponse(q) => {
            assert_eq!(q.attr_Result, 1);
            assert_eq!(q.image[0].attr_ResourcePath, "C:/a.jpg");
            assert_eq!(q.image[0].attr_Width, 208);
        }
        _ => panic!(),
    }
    match handle_auth_code_request(None) {
        LSXResponseType::AuthCode(a) => assert_eq!(a.attr_value, "invalid"),
        _ => panic!(),
    }
    match handle_auth_code_request(Some("QUOxAA")) {
        LSXResponseType::AuthCode(a) => assert_eq!(a.attr_value, "QUOxAA"),
        _ => panic!(),
    }
}

fn license(token: Option<&str>) -> License {
    License {
        xmlns: String::new(),
        signature: String::new(),
        cipher_key: String::new(),
        machine_hash: String::new(),
        content_id: "1".into(),
        user_id: String::new(),
        game_token: token.map(|t| t.to_string()),
        grant_time: String::new(),
        start_time: String::new(),
    }
}

#[test]
fn license_requests() {
    let online = LaunchMode::Online("OFR".into());
    let offline = LaunchMode::Offline("OFR".into());
    let oo = LaunchMode::OnlineOffline("C".into(), "me".into(), "pw".into());
    match license_shortcut(Some("ENVTOKEN"), &online) {
        Some(LSXResponseType::RequestLicenseResponse(l)) => assert_eq!(l.attr_License, "ENVTOKEN"),
        _ => panic!(),
    }
    match license_shortcut(None, &offline) {
        Some(LSXResponseType::RequestLicenseResponse(l)) => assert!(l.attr_License.is_empty()),
        _ => panic!(),
    }
    assert!(license_shortcut(None, &online).is_none());
    assert!(license_auth(&offline, "t").is_none());
    assert!(matches!(license_auth(&online, "t"), Some(LicenseAuth::AccessToken(t)) if t == "t"));
    assert!(matches!(license_auth(&oo, "t"), Some(LicenseAuth::Direct(p, w)) if p == "me" && w == "pw"));
    match handle_license_request(&license(Some("DENUVO"))).unwrap() {
        LSXResponseType::RequestLicenseResponse(l) => assert_eq!(l.attr_License, "DENUVO"),
        _ => panic!(),
    }
    assert_eq!(handle_license_request(&license(None)), Err(LSXRequestError::Denuvo));
}

#[test]
fn all_game_info() {
    let build = ServiceAvailableBuild {
        build_id: "b".into(),
        download_type: Some(ServiceDownloadType::Live),
        game_version: Some("1.0.64".into()),
        build_release_version: None,
        build_live_date: Some("2020-10-22T09:00:00".into()),
    };
    match handle_all_game_info_request(Some("Battlefield V"), Some(&build), Some("1.0.60")) {
        LSXResponseType::GetAllGameInfoResponse(g) => {
            assert_eq!(g.attr_DisplayName, "Battlefield V");
            assert_eq!(g.attr_AvailableVersion, "1.0.64");
            assert_eq!(g.attr_InstalledVersion, "1.0.60");
            assert_eq!(g.attr_FullGameReleaseDate, "2020-10-22T09:00:00");
            assert_eq!(g.attr_MaxGroupSize, 16);
            assert_eq!(g.attr_EntitlementSource, "STEAM");
        }
        _ => panic!(),
    }
    match handle_all_game_info_request(Some("G"), None, None) {
        LSXResponseType::GetAllGameInfoResponse(g) => {
            assert_eq!(g.attr_AvailableVersion, "0");
            assert_eq!(g.attr_InstalledVersion, "0");
            assert_eq!(g.attr_FullGameReleaseDate, "0000-00-00T00:00:00");
        }
        _ => panic!(),
    }
    match handle_all_game_info_request(None, Some(&build), Some("9")) {
        LSXResponseType::GetAllGameInfoResponse(g) => {
            assert_eq!(g.attr_DisplayName, "Unknown Game");
            assert_eq!(g.attr_InstalledVersion, "0");
        }
        _ => panic!(),
    }
}

#[test]
fn builds_and_downloader_utilization() {
    let b = |id: &str, t: Option<ServiceDownloadType>, v: Option<&str>| ServiceAvailableBuild {
        build_id: id.into(),
        download_type: t,
        game_version: v.map(|s| s.to_string()),
        build_release_version: None,
        build_live_date: None,
    };
    let builds = ServiceAvailableBuilds {
        builds: vec![
            b("1", Some(ServiceDownloadType::Staged), Some("1.0")),
            b("2", Some(ServiceDownloadType::Live), Some("1.1")),
            b("3", Some(ServiceDownloadType::Live), Some("1.2")),
        ],
    };
    assert_eq!(builds.live_build().unwrap().build_id, "2");
    assert_eq!(builds.build("1.2").unwrap().build_id, "3");
    assert!(builds.build("9").is_none());
    let none = ServiceAvailableBuilds { builds: vec![b("x", None, None)] };
    assert!(none.live_build().is_none());
    assert_eq!(b("1", Some(ServiceDownloadType::Live), Some("1.0")).to_string(), "1.0/Live");
    let req = maxima::lsx::LSXSetDownloaderUtilization { attr_Utilization: 0x3f800000 };
    assert!(maxima_set_util(&req).is_none());
}

fn maxima_set_util(req: &maxima::lsx::LSXSetDownloaderUtilization) -> Option<LSXResponseType> {
    maxima::lsx_account::handle_set_downloader_util_request(req)
}

fn entitlement(id: &str, end: Option<&str>) -> EntitlementRecord {
    EntitlementRecord {
        id: id.to_string(),
        use_count: 2,
        version: 3,
        product_id: "Origin.OFR.50.0001".to_string(),
        grant_date: "2020-01-01T00:00:00".to_string(),
        entitlement_tag: "TAG".to_string(),
        entitlement_type: "DEFAULT".to_string(),
        termination_date: end.map(|s| s.to_string()),
    }
}

#[test]
fn entitlements_reply() {
    let req = LSXQueryEntitlements { attr_UserId: 1, attr_Group: "GROUP".to_string() };
    let list = vec![entitlement("42", None), entitlement("7", Some("2030-01-01T00:00:00"))];
    match handle_query_entitlements_request(&req, &list).unwrap() {
        LSXResponseType::QueryEntitlementsResponse(q) => {
            assert_eq!(q.entitlement.len(), 2);
            let e = &q.entitlement[0];
            assert_eq!(e.attr_EntitlementId, 42);
            assert_eq!(e.attr_LastModifiedDate, "0000-00-00T00:00:00");
            assert_eq!(e.attr_Expiration, "0000-00-00T00:00:00");
            assert_eq!(e.attr_Group, "GROUP");
            assert_eq!(e.attr_ItemId, "Origin.OFR.50.0001");
            assert_eq!(e.attr_UseCount, 2);
            assert_eq!(e.attr_Version, 3);
            assert_eq!(e.attr_Type, "DEFAULT");
            assert_eq!(e.attr_EntitlementTag, "TAG");
            assert_eq!(e.attr_ResourceId, "");
            assert_eq!(e.attr_Source, "");
            assert_eq!(q.entitlement[1].attr_EntitlementId, 7);
            assert_eq!(q.entitlement[1].attr_Expiration, "2030-01-01T00:00:00");
        }
        _ => panic!(),
    }
    let bad = vec![entitlement("42", None), entitlement("x", None)];
    assert_eq!(handle_query_entitlements_request(&req, &bad), Err(LSXRequestError::InvalidId));
}
