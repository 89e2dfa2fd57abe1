use maxima::bootstrap::{login_query, origin2_launch, Origin2Error};
use maxima::native::{case_insensitive_match, check_registry_validity, register_custom_protocol, set_up_registry, RegistryError};
use maxima::service_layer::{authorization_header, persisted_extensions, service_response_outcome, ServiceLayerGraphQLRequest, ServiceLayerRequestType, ServiceRequestError};
use maxima::bootstrap::{bootstrap_action, origin2_launch_args, percent_decode, split_second, BootstrapAction};
use maxima::github::{release_url, releases_url};
use maxima::logging::{LogLevel, SimpleLogger};
use maxima::native::{
    bootstrap_path, desktop_entry, desktop_file_name, maxima_dir, protocol_handler_registered,
    registry_path, scheme_mime_type, take_foreground_focus, NativeError, Platform,
};
use maxima::rtm::{route_message, BasicPresence, RequestCounter, RichPresence, RtmFrameReader, RtmRoute};
use maxima::service_layer::ServiceDownloadType;

#[test]
fn data_directory() {
    assert_eq!(maxima_dir(Some("/xdg"), Some("/home/u")), Ok("/xdg/maxima".to_string()));
    assert_eq!(maxima_dir(None, Some("/home/u")), Ok("/home/u/.local/share/maxima".to_string()));
    assert_eq!(maxima_dir(None, None), Err(NativeError::MissingEnvironmentVariable("HOME".to_string())));
    assert_eq!(take_foreground_focus(), Ok(()));
}

#[test]
fn bootstrap_locations() {
    assert_eq!(bootstrap_path("/opt/maxima", Platform::Linux), "/opt/maxima/maxima-bootstrap");
    assert_eq!(bootstrap_path("C:/m/", Platform::Windows), "C:/m/maxima-bootstrap.exe");
    assert_eq!(
        bootstrap_path("/Applications/M", Platform::MacOs),
        "/Applications/M/bundle/osx/MaximaBootstrap.app/Contents/MacOS/maxima-bootstrap"
    );
}

#[test]
fn protocol_handlers() {
    assert_eq!(
        desktop_entry("qrc", "Maxima", "/bin/mb"),
        "[Desktop Entry]\nType=Application\nName=Maxima\nMimeType=x-scheme-handler/qrc\nExec=/bin/mb %u\nNoDisplay=true\nStartupNotify=true\n"
    );
    assert_eq!(desktop_file_name("link2ea"), "maxima-link2ea.desktop");
    assert_eq!(scheme_mime_type("origin2"), "x-scheme-handler/origin2");
    assert!(protocol_handler_registered("maxima-qrc.desktop\n", "qrc"));
    assert!(!protocol_handler_registered("", "qrc"));
    assert!(!protocol_handler_registered("other.desktop\n", "qrc"));
}

#[test]
fn install_check_paths() {
    assert_eq!(registry_path("[HKLM\\X]game\\bin.exe", "/g"), Some("/g/game\\bin.exe".to_string()));
    assert_eq!(registry_path("[a]b]c.exe", "/g"), Some("/g/c.exe".to_string()));
    assert_eq!(registry_path("[a]", "/g"), Some("/g/".to_string()));
    assert_eq!(registry_path("none", "/g"), None);
}

#[test]
fn bootstrap_invocations() {
    let v = |a: &[&str]| a.iter().map(|s| s.to_string()).collect::<Vec<String>>();
    assert_eq!(bootstrap_action(&v(&["--noop"])), BootstrapAction::Noop);
    assert_eq!(bootstrap_action(&v(&["link2ea://x"])), BootstrapAction::Link2Ea);
    assert_eq!(
        bootstrap_action(&v(&["origin2://game/launch?offerIds=1"])),
        BootstrapAction::Origin2("origin2://game/launch?offerIds=1".to_string())
    );
    assert_eq!(
        bootstrap_action(&v(&["qrc:/html/login_successful.html?code=1&x=2"])),
        BootstrapAction::LoginRedirect("code=1&x=2".to_string())
    );
    assert_eq!(bootstrap_action(&v(&["something"])), BootstrapAction::Unhandled);
    assert_eq!(bootstrap_action(&v(&["launch", "eyJ9"])), BootstrapAction::Launch("eyJ9".to_string()));
    assert_eq!(bootstrap_action(&v(&["other", "x"])), BootstrapAction::Unhandled);
    assert_eq!(bootstrap_action(&v(&[])), BootstrapAction::ServiceSetup);
}

#[test]
fn splitting_and_decoding() {
    assert_eq!(split_second("a::b::c", "::"), "b");
    assert_eq!(split_second("a::b", "::"), "b");
    assert_eq!(split_second("ab", "::"), "");
    assert_eq!(percent_decode("a%20b%2Fc"), Some("a b/c".to_string()));
    assert_eq!(percent_decode("100%"), Some("100%".to_string()));
    assert_eq!(percent_decode("%zz%4"), Some("%zz%4".to_string()));
    assert_eq!(percent_decode("%C3%A9"), Some("\u{e9}".to_string()));
    assert_eq!(percent_decode("%FF"), None);
    assert_eq!(origin2_launch_args("-a%20%5C%22x%5C%22"), Some("-a \"x\"".to_string()));
}

#[test]
fn github_addresses() {
    assert_eq!(releases_url("a", "r"), "https://api.github.com/repos/a/r/releases");
    assert_eq!(release_url("a", "r", "latest"), "https://api.github.com/repos/a/r/releases/latest");
}

#[test]
fn logging_levels() {
    let l = SimpleLogger;
    assert!(l.enabled(LogLevel::Info, None));
    assert!(!l.enabled(LogLevel::Debug, None));
    assert!(l.enabled(LogLevel::Debug, Some("debug")));
    assert!(!l.enabled(LogLevel::Trace, Some("debug")));
    assert_eq!(l.color(LogLevel::Error), "31");
    assert_eq!(l.color(LogLevel::Debug), "36");
}

#[test]
fn presence_parts() {
    let p = RichPresence::from_parts(BasicPresence::Online, "Lobby".into(), String::new());
    assert_eq!(p.game, None);
    let q = RichPresence::from_parts(BasicPresence::Away, "x".into(), "OFR.1".into());
    assert_eq!(q.game, Some("OFR.1".to_string()));
    assert_eq!(q.basic, BasicPresence::Away);
}

#[test]
fn download_type_names() {
    assert_eq!(ServiceDownloadType::Staged.to_string(), "Staged");
    assert_eq!(ServiceDownloadType::Live.to_string(), "Live");
    assert_eq!(ServiceDownloadType::Unspecified.to_string(), "None");
}

#[test]
fn protocol_registration() {
    assert!(set_up_registry("/opt/maxima", "/home/u/.local/share", true).is_none());
    let reg = set_up_registry("/opt/maxima", "/home/u/.local/share", false).unwrap();
    assert_eq!(reg.desktop_file_name, "maxima-qrc.desktop");
    assert_eq!(reg.desktop_file_path, "/home/u/.local/share/applications/maxima-qrc.desktop");
    assert_eq!(reg.mime_type, "x-scheme-handler/qrc");
    assert_eq!(reg.desktop_file, desktop_entry("qrc", "Maxima Launcher", "/opt/maxima/maxima-bootstrap"));
    let other = register_custom_protocol("link2ea", "L", "/x", "/d", false).unwrap();
    assert_eq!(other.desktop_file_path, "/d/applications/maxima-link2ea.desktop");
    assert_eq!(check_registry_validity(true, None), Ok(()));
    assert_eq!(check_registry_validity(false, None), Err(RegistryError::XdgQueryFailed));
    assert_eq!(check_registry_validity(false, Some("maxima-qrc.desktop\n")), Ok(()));
    assert_eq!(check_registry_validity(false, Some("")), Err(RegistryError::QrcUnregistered));
    assert_eq!(check_registry_validity(false, Some("firefox.desktop\n")), Err(RegistryError::QrcUnregistered));
}

#[test]
fn service_request_parts() {
    let mut hash = [0u8; 32];
    hash[0] = 0xab;
    hash[31] = 0x01;
    let op = ServiceLayerGraphQLRequest {
        query: "query { me }",
        operation: "GetUserPlayer",
        key: "me",
        hash,
        request_type: ServiceLayerRequestType::ServiceAggregationLayer,
    };
    let ext = persisted_extensions(&op);
    assert_eq!(ext.persisted_query.version, 1);
    assert_eq!(ext.persisted_query.sha256_hash, format!("ab{}01", "00".repeat(30)));
    assert_eq!(authorization_header(Some("tok")), Some("Bearer tok".to_string()));
    assert_eq!(authorization_header(None), None);
}

#[test]
fn login_redirect_queries() {
    assert_eq!(login_query("qrc:/html/login_successful.html?code=a%20b&state=x+y&&z"), "code=a+b&state=x+y&z=");
    assert_eq!(login_query("qrc:/html/other"), "");
    assert_eq!(login_query("qrc:/html/login_successful.html?k=%C3%A9~"), "k=%C3%A9%7E");
}

#[test]
fn origin2_links() {
    assert_eq!(
        origin2_launch("origin2://game/launch?offerIds=OFR.1&cmdParams=-a%2520%255C%2522x%255C%2522"),
        Ok(("OFR.1".to_string(), "-a \"x\"".to_string()))
    );
    assert_eq!(origin2_launch("origin2://game/launch?offerIds=A&offerIds=B&cmdParams=x"), Ok(("B".to_string(), "x".to_string())));
    assert_eq!(origin2_launch("origin2://game/launch?cmdParams=x"), Err(Origin2Error::MissingOfferId));
    assert_eq!(origin2_launch("origin2://game/launch?offerIds=1"), Err(Origin2Error::MissingCmdParams));
    assert_eq!(origin2_launch("origin2://game/launch"), Err(Origin2Error::MissingOfferId));
    assert_eq!(origin2_launch("not a url"), Err(Origin2Error::Url));
    assert_eq!(origin2_launch("origin2://g/l?offerIds=1&cmdParams=%25FF"), Err(Origin2Error::Decode));
}

#[test]
fn case_insensitive_component() {
    let names = vec!["Game".to_string(), "DATA".to_string(), "data".to_string()];
    assert_eq!(case_insensitive_match("data", &names), Some(1));
    assert_eq!(case_insensitive_match("GAME", &names), Some(0));
    assert_eq!(case_insensitive_match("Bin", &names), None);
    assert_eq!(case_insensitive_match("x", &Vec::new()), None);
}

#[test]
fn rtm_request_ids() {
    let mut c = RequestCounter::new();
    assert_eq!(c.next_request_id(1700000000), "c-0-1700000000-1700000000");
    assert_eq!(c.next_request_id(5), "c-1-5-5");
    assert_eq!(c.request_index, 2);
}

#[test]
fn service_response_decisions() {
    assert_eq!(service_response_outcome(500, "oops"), Err(ServiceRequestError::Status("oops".to_string())));
    assert_eq!(service_response_outcome(200, "not json"), Err(ServiceRequestError::Json));
    assert_eq!(service_response_outcome(200, r#"{"data":{"me":{}}}"#), Ok(()));
    assert_eq!(
        service_response_outcome(200, r#"{"errors":[{"message":"denied"},{"message":"x"}]}"#),
        Err(ServiceRequestError::GraphQl(Some("denied".to_string())))
    );
    assert_eq!(service_response_outcome(200, r#"{"errors":[1]}"#), Err(ServiceRequestError::GraphQl(None)));
}

#[test]
fn rtm_framing_splits_length_prefixed_messages() {
    let mut r = RtmFrameReader::new();
    assert_eq!(r.receive(&[0, 0]), Vec::<Vec<u8>>::new());
    assert_eq!(r.receive(&[0, 3, 1, 2]), Vec::<Vec<u8>>::new());
    assert_eq!(r.expected, 3);
    assert_eq!(r.receive(&[3, 0, 0, 0, 2, 9, 9, 0]), vec![vec![1, 2, 3], vec![9, 9]]);
    assert_eq!(r.pending, vec![0]);
    assert_eq!(r.expected, -1);
    let mut e = RtmFrameReader::new();
    assert_eq!(e.receive(&[0, 0, 0, 0, 0, 0, 0, 1, 7]), vec![vec![], vec![7]]);
}

#[test]
fn rtm_routing() {
    assert_eq!(route_message("c-1-2-2", true, true), RtmRoute::Response);
    assert_eq!(route_message("", false, true), RtmRoute::Update);
    assert_eq!(route_message("", false, false), RtmRoute::Ignore);
    assert_eq!(route_message("c-9", false, true), RtmRoute::Ignore);
}
