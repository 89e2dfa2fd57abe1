use maxima::launch::{
    bootstrap_argument, check_launch_mode, launch_env, parse_arguments, BootstrapLaunchArgs,
    LaunchContext, LaunchError, LaunchMode,
};
use maxima::manifest::{
    platform_path, remove_leading_slash, remove_trailing_backslash, remove_trailing_slash,
    split_args, DiPBuildMetaData, DiPContentIDs, DiPFeatureFlags, DiPGameTitle, DiPGameTitles,
    DiPGameVersion, DiPInstallManifest, DiPLauncher, DiPManifest, DiPName, DiPRequirements,
    DiPRuntime, DiPTouchup, DiPUninstall, GameManifest, ManifestError,
};

fn launcher(path: &str, trial: &str, names: &[(&str, &str)]) -> DiPLauncher {
    DiPLauncher {
        attr_uid: String::new(),
        name: names.iter().map(|(l, v)| DiPName { locale: l.to_string(), value: v.to_string() }).collect(),
        filePath: path.to_string(),
        parameters: None,
        requires64BitOS: "1".to_string(),
        trial: trial.to_string(),
        requiresMetal: "0".to_string(),
    }
}

fn manifest(locales: &[&str], launchers: Vec<DiPLauncher>, touchup_params: &str) -> DiPManifest {
    let s = String::new;
    DiPManifest {
        attr_version: "4.0".to_string(),
        buildMetaData: DiPBuildMetaData {
            featureFlags: DiPFeatureFlags {
                attr_allowMultipleInstances: s(),
                attr_autoUpdateEnabled: s(),
                attr_dynamicContentSupportEnabled: s(),
                attr_enableDifferentialUpdate: s(),
                attr_enableOriginInGameAPI: s(),
                attr_enableVersionUpdate: s(),
                attr_forceTouchupInstallerAfterUpdate: s(),
                attr_languageChangeSupportEnabled: s(),
                attr_treatUpdatesAsMandatory: s(),
                attr_useGameVersionFromManifest: s(),
            },
            gameVersion: DiPGameVersion { attr_version: "1.0.2".to_string() },
            requirements: DiPRequirements { attr_clientVersion: s(), attr_osMinVersion: s(), attr_osReqs64Bit: s() },
        },
        contentIds: DiPContentIDs { items: vec![] },
        gameTitles: DiPGameTitles {
            items: locales.iter().map(|l| DiPGameTitle { locale: l.to_string(), title: "T".to_string() }).collect(),
        },
        uninstall: DiPUninstall { path: s() },
        runtime: DiPRuntime { launcher: launchers },
        touchup: DiPTouchup {
            filePath: "/Support/touchup.exe".to_string(),
            parameters: touchup_params.to_string(),
            updateParameters: s(),
            repairParameters: s(),
        },
        installManifest: DiPInstallManifest { file_path: s() },
    }
}

#[test]
fn argument_splitting() {
    assert_eq!(parse_arguments("-a  -b \"c d\" e\"f g\""), vec!["-a", "-b", "c d", "ef g"]);
    assert_eq!(parse_arguments(""), Vec::<String>::new());
    assert_eq!(parse_arguments("\"\""), Vec::<String>::new());
    assert_eq!(split_args("x \"y z\""), Ok(vec!["x".to_string(), "y z".to_string()]));
    assert_eq!(split_args("x \"open"), Err(ManifestError::Decode));
}

#[test]
fn slash_trimming() {
    assert_eq!(remove_leading_slash("/a/b"), "a/b");
    assert_eq!(remove_leading_slash("a/b"), "a/b");
    assert_eq!(remove_trailing_slash("a/b/"), "a/b");
    assert_eq!(remove_trailing_backslash("C:\\x\\"), "C:\\x");
    assert_eq!(platform_path("/home/u"), "Z:/home/u");
}

#[test]
fn launchers_and_names() {
    let l = launcher("/game.exe", "TRUE", &[("de_DE", "Spiel"), ("en_US", "Game")]);
    assert!(l.is_trial());
    assert!(launcher("x", "1", &[]).is_trial());
    assert!(!launcher("x", "0", &[]).is_trial());
    assert_eq!(l.display_name("de_DE"), Some("Spiel"));
    assert_eq!(l.display_name("fr_FR"), Some("Game"));
    assert_eq!(launcher("x", "0", &[("de_DE", "D")]).display_name("fr_FR"), None);
}

#[test]
fn dip_manifest_queries() {
    let m = manifest(
        &["de_DE", "en_US"],
        vec![launcher("/trial.exe", "1", &[]), launcher("/full.exe", "0", &[]), launcher("/other.exe", "0", &[])],
        "-locale={locale} -path=\"{installLocation}\"",
    );
    assert_eq!(m.version(), "1.0.2");
    assert_eq!(m.locale(), "en_US");
    assert_eq!(manifest(&["de_DE", "fr_FR"], vec![], "").locale(), "de_DE");
    assert_eq!(manifest(&[], vec![], "").locale(), "en_US");
    assert_eq!(m.execute_path(false), Some("/full.exe"));
    assert_eq!(m.execute_path(true), Some("/trial.exe"));
    assert_eq!(m.manifest_execute_path(false), Some("/full.exe".to_string()));
    assert_eq!(manifest(&[], vec![], "").execute_path(false), None);
    assert_eq!(m.touchup.path(), "Support/touchup.exe");
    assert_eq!(
        m.collect_touchup_args("/games/My Game/", "en_US"),
        Ok(vec!["-locale=en_US".to_string(), "-path=Z:\\games\\My Game\\".to_string()])
    );
    let bad = manifest(&[], vec![], "\"{locale}");
    assert_eq!(bad.collect_touchup_args("/g", "en_US"), Err(ManifestError::Decode));
}

#[test]
fn launch_modes() {
    let online = LaunchMode::Online("Origin.OFR.1".into());
    assert!(!online.is_online_offline());
    assert_eq!(online.to_display_string(), "Origin.OFR.1");
    assert_eq!(check_launch_mode(&online, false), Ok(()));
    assert_eq!(check_launch_mode(&LaunchMode::Offline("x".into()), true), Err(LaunchError::OfflineUnsupported));
    let oo = LaunchMode::OnlineOffline("1234".into(), "p".into(), "pw".into());
    assert!(oo.is_online_offline());
    assert_eq!(oo.to_display_string(), "1234");
    assert_eq!(check_launch_mode(&oo, false), Err(LaunchError::PathRequired));
    assert_eq!(check_launch_mode(&oo, true), Ok(()));
    let bad = LaunchMode::OnlineOffline("Origin.OFR.50".into(), "p".into(), "pw".into());
    assert_eq!(check_launch_mode(&bad, true), Err(LaunchError::ContentIdIsOfferId));
}

fn context() -> LaunchContext {
    LaunchContext {
        launch_id: "L".into(),
        locale: "en_US".into(),
        access_token: "AT".into(),
        display_name: "Me".into(),
        lsx_port: "3216".into(),
        rtp_code: "99".into(),
        user_id: "U".into(),
        content_id: "C".into(),
    }
}

#[test]
fn launch_environment() {
    let env = launch_env(&context(), &LaunchMode::Online("OFR".into()));
    assert_eq!(env.len(), 22);
    assert_eq!(env[0], ("MXLaunchId".to_string(), "L".to_string()));
    assert_eq!(env[12], ("EALsxPort".to_string(), "3216".to_string()));
    assert_eq!(env[19], ("EAConnectionId".to_string(), "OFR".to_string()));
    assert_eq!(env[21], ("EALaunchUserAuthToken".to_string(), "AT".to_string()));
    let oo = launch_env(&context(), &LaunchMode::OnlineOffline("C".into(), "me@x.com".into(), "pw".into()));
    assert_eq!(oo[19], ("EALaunchOOAUserEmail".to_string(), "me@x.com".to_string()));
    assert_eq!(oo[20], ("EALaunchOOAUserPass".to_string(), "pw".to_string()));
}

#[test]
fn bootstrap_arguments() {
    assert_eq!(bootstrap_argument("{\"path\":\"a\"}"), "eyJwYXRoIjoiYSJ9");
    assert_eq!(bootstrap_argument(""), "");
    let d = BootstrapLaunchArgs::default();
    assert!(d.path.is_empty() && d.args.is_empty());
}
