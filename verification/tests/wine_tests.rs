use maxima::wine::{
    check_runtime_validity, eac_dir, launcher_registry_file, normalize_key, parse_pid_output,
    parse_wine_registry, proton_dir, record_runtime_version, registry_file, umu_script_path,
    wine_command_env, wine_dir, CommandType, LutrisRuntime, PidError, RegKey, RuntimeError,
    Versions, NORTHSTAR_OVERRIDES,
};

#[test]
fn command_verbs() {
    assert_eq!(CommandType::Run.to_string(), "run");
    assert_eq!(CommandType::WaitForExitAndRun.to_string(), "waitforexitandrun");
    assert_eq!(CommandType::RunInPrefix.to_string(), "runinprefix");
}

#[test]
fn directories() {
    assert_eq!(wine_dir("/data/maxima"), "/data/maxima/wine");
    assert_eq!(eac_dir("/data/maxima/"), "/data/maxima/wine/eac_runtime");
    assert_eq!(proton_dir(Some("/opt/proton"), true), "/opt/proton");
    assert_eq!(proton_dir(Some("/opt/proton"), false), "GE-Proton");
    assert_eq!(proton_dir(None, true), "GE-Proton");
    assert_eq!(umu_script_path(Some("/x/umu"), Some("/usr/bin/umu-run"), "/d"), "/x/umu");
    assert_eq!(umu_script_path(None, Some("/usr/bin/umu-run"), "/d"), "/usr/bin/umu-run");
    assert_eq!(umu_script_path(None, None, "/d"), "/d/wine/umu/umu-run");
}

#[test]
fn proton_environment() {
    let env = wine_command_env("/pfx", CommandType::Run, "/proton", "/eac", false);
    let pairs: Vec<(&str, &str)> = env.iter().map(|(k, v)| (k.as_str(), v.as_str())).collect();
    assert_eq!(
        pairs,
        vec![
            ("WINEPREFIX", "/pfx"),
            ("GAMEID", "umu-0"),
            ("PROTON_VERB", "run"),
            ("PROTONPATH", "/proton"),
            ("STORE", "ea"),
            ("PROTON_EAC_RUNTIME", "/eac"),
            ("UMU_ZENITY", "1"),
            ("WINEDEBUG", "fixme-all"),
            ("LD_PRELOAD", ""),
        ]
    );
    let ns = wine_command_env("/pfx", CommandType::RunInPrefix, "/p", "/e", true);
    assert_eq!(ns.len(), 10);
    assert_eq!(ns[9], ("WINEDLLOVERRIDES".to_string(), NORTHSTAR_OVERRIDES.to_string()));
    assert_eq!(ns[2].1, "runinprefix");
}

#[test]
fn registry_files() {
    let keys = vec![RegKey {
        key: "HKEY_LOCAL_MACHINE\\Software\\X".to_string(),
        values: vec![("Path".to_string(), "C:\\Games".to_string())],
    }];
    assert_eq!(
        registry_file(&keys),
        "Windows Registry Editor Version 5.00\n\n[HKEY_LOCAL_MACHINE\\Software\\X]\n\"Path\"=\"C:\\\\Games\"\n\n"
    );
    assert_eq!(registry_file(&vec![]), "Windows Registry Editor Version 5.00\n\n");
    let launcher = launcher_registry_file();
    assert!(launcher.starts_with("Windows Registry Editor Version 5.00\n\n[HKEY_LOCAL_MACHINE\\Software\\Electronic Arts\\EA Desktop]\n\"InstallSuccessful\"=\"true\"\n\n"));
    assert!(launcher.contains("\"ClientPath\"=\"C:/Windows/System32/conhost.exe\"\n\n"));
    assert_eq!(launcher.matches('[').count(), 4);
}

#[test]
fn wine_registry_parsing() {
    let text = "WINE REGISTRY Version 2\n[Software\\\\Electronic Arts\\\\EA Desktop] 1700000000\n\"InstallSuccessful\"=\"true\"\n#time=1\n\n[Software\\\\Game] 1\n  \"Install Dir\"=\"C:\\\\Games\\\\X\"  \n";
    let entries = parse_wine_registry(text);
    let pairs: Vec<(&str, &str)> = entries.iter().map(|(k, v)| (k.as_str(), v.as_str())).collect();
    assert_eq!(
        pairs,
        vec![
            ("software\\electronic arts\\ea desktop\\installsuccessful", "true"),
            ("software\\game\\install dir", "C:\\\\Games\\\\X"),
        ]
    );
    assert!(parse_wine_registry("").is_empty());
}

#[test]
fn key_normalisation() {
    assert_eq!(normalize_key("HKEY_LOCAL_MACHINE\\Software\\X"), "software\\x");
    assert_eq!(normalize_key("Software\\Y"), "software\\y");
}

#[test]
fn runtime_versions() {
    let versions = Versions { eac_runtime: "2024-01-01".to_string(), umu: "v1".to_string() };
    let runtimes = vec![
        LutrisRuntime { name: "eac_runtime".into(), created_at: "2024-01-01".into(), url: "u".into() },
        LutrisRuntime { name: "umu".into(), created_at: "v2".into(), url: "u".into() },
        LutrisRuntime { name: "eac_runtime".into(), created_at: "old".into(), url: "u".into() },
    ];
    assert_eq!(check_runtime_validity("eac_runtime", &versions, true, &runtimes), Ok(true));
    assert_eq!(check_runtime_validity("eac_runtime", &versions, false, &runtimes), Ok(false));
    assert_eq!(check_runtime_validity("umu", &versions, true, &runtimes), Ok(false));
    assert_eq!(check_runtime_validity("umu", &versions, true, &vec![]), Ok(false));
    assert_eq!(
        check_runtime_validity("dxvk", &versions, true, &runtimes),
        Err(RuntimeError::UnimplementedRuntime("dxvk".to_string()))
    );
    let mut v = versions;
    assert_eq!(record_runtime_version(&mut v, "umu", "v2".to_string()), Ok(()));
    assert_eq!(v.umu, "v2");
    assert_eq!(v.eac_runtime, "2024-01-01");
    assert_eq!(check_runtime_validity("umu", &v, true, &runtimes), Ok(true));
    assert!(record_runtime_version(&mut v, "other", "x".to_string()).is_err());
    assert_eq!(v.umu, "v2");
}

#[test]
fn pid_output() {
    assert_eq!(parse_pid_output("log\nwine-helper: PID 1234\n"), Ok(1234));
    assert_eq!(parse_pid_output("Failed to find PID for game"), Err(PidError::NotFound));
    assert_eq!(parse_pid_output("nothing here"), Err(PidError::Pattern));
    assert_eq!(parse_pid_output("wine-helper: PID abc"), Err(PidError::Parse));
}
