use maxima::ooa::{
    decrypt_license_text, detect_ooa_state, encrypt_license, license_blob, license_dir,
    license_document, license_file_names, license_query, save_license, save_licenses, License,
    LicenseAuth, LicenseFileError, OOAState, XML_HEADER,
};

fn pairs(q: &[(String, String)]) -> Vec<(&str, &str)> {
    q.iter().map(|(k, v)| (k.as_str(), v.as_str())).collect()
}

#[test]
fn ooa_state_detection() {
    assert_eq!(detect_ooa_state(false, true), OOAState::Disabled);
    assert_eq!(detect_ooa_state(true, true), OOAState::SignatureEncoded);
    assert_eq!(detect_ooa_state(true, false), OOAState::SignatureDecoded);
}

#[test]
fn license_query_with_token() {
    let q = license_query("123", "mh", &LicenseAuth::AccessToken("tok".into()), None, None).unwrap();
    assert_eq!(pairs(&q), vec![("contentId", "123"), ("machineHash", "mh"), ("ea_eadmtoken", "tok")]);
    let q2 = license_query("1", "m", &LicenseAuth::AccessToken("t".into()), Some("rt"), Some("2")).unwrap();
    assert_eq!(pairs(&q2)[3..].to_vec(), vec![("requestToken", "rt"), ("requestType", "2")]);
    assert_eq!(license_query("1", "m", &LicenseAuth::AccessToken("t".into()), Some("rt"), None), None);
}

#[test]
fn license_query_email_or_persona() {
    let q = license_query("1", "m", &LicenseAuth::Direct("me@example.com".into(), "pw".into()), None, None).unwrap();
    assert_eq!(pairs(&q)[2..].to_vec(), vec![("ea_email", "me@example.com"), ("ea_password", "pw")]);
    let p = license_query("1", "m", &LicenseAuth::Direct("PlayerOne".into(), "pw".into()), None, None).unwrap();
    assert_eq!(pairs(&p)[2..].to_vec(), vec![("ea_persona", "PlayerOne"), ("ea_password", "pw")]);
}

#[test]
fn license_encryption_round_trip() {
    let doc = "<License>data</License>";
    let enc = encrypt_license(doc);
    assert_eq!(enc.len() % 16, 0);
    assert!(enc.len() > doc.len());
    assert_ne!(&enc[..doc.len().min(enc.len())], doc.as_bytes());
    assert_eq!(decrypt_license_text(&enc), Some(doc.to_string()));
    assert_eq!(decrypt_license_text(&[1, 2, 3]), None);
}

#[test]
fn license_document_drops_empty_token() {
    assert_eq!(license_document("<L><GameToken/></L>"), format!("{}<L></L>", XML_HEADER));
    assert_eq!(
        license_document("<L><GameToken>x</GameToken></L>"),
        format!("{}<L><GameToken>x</GameToken></L>", XML_HEADER)
    );
}

#[test]
fn license_blob_layout() {
    let b = license_blob(b"sig", &[9, 9]);
    assert_eq!(b.len(), 67);
    assert_eq!(&b[..3], b"sig");
    assert!(b[3..65].iter().all(|x| *x == 0));
    assert_eq!(&b[65..], &[9, 9]);
}

fn license(signature: &str) -> License {
    License {
        xmlns: String::new(),
        signature: signature.to_string(),
        cipher_key: String::new(),
        machine_hash: String::new(),
        content_id: "1234".to_string(),
        user_id: String::new(),
        game_token: None,
        grant_time: String::new(),
        start_time: String::new(),
    }
}

#[test]
fn license_file_bytes_cases() {
    let xml = "<L/>";
    let enc = encrypt_license(&license_document(xml));
    let plain = save_license(&license("abc"), xml, OOAState::SignatureEncoded).unwrap();
    assert_eq!(plain, license_blob(b"abc", &enc));
    let decoded = save_license(&license("YWJj"), xml, OOAState::SignatureDecoded).unwrap();
    assert_eq!(decoded, license_blob(b"abc", &enc));
    assert_eq!(save_license(&license("!!"), xml, OOAState::SignatureDecoded), Err(LicenseFileError::SignatureDecode));
    let long = "x".repeat(66);
    assert_eq!(save_license(&license(&long), xml, OOAState::SignatureEncoded), Err(LicenseFileError::SignatureTooLong));
}

#[test]
fn licenses_are_saved_twice() {
    let xml = "<L/>";
    let files = save_licenses(&license("abc"), xml, OOAState::SignatureEncoded, Some("/pfx")).unwrap();
    let bytes = save_license(&license("abc"), xml, OOAState::SignatureEncoded).unwrap();
    assert_eq!(files.len(), 2);
    assert_eq!(files[0].0, "/pfx/drive_c/ProgramData/Electronic Arts/EA Services/License/1234.dlf");
    assert_eq!(files[1].0, "/pfx/drive_c/ProgramData/Electronic Arts/EA Services/License/1234_cached.dlf");
    assert_eq!(files[0].1, bytes);
    assert_eq!(files[1].1, bytes);
    let win = save_licenses(&license("abc"), xml, OOAState::SignatureEncoded, None).unwrap();
    assert_eq!(win[0].0, "C:/ProgramData/Electronic Arts/EA Services/License/1234.dlf");
    assert_eq!(save_licenses(&license("!!"), xml, OOAState::SignatureDecoded, None), Err(LicenseFileError::SignatureDecode));
}

#[test]
fn license_locations() {
    let (a, b) = license_file_names("1234");
    assert_eq!(a, "1234.dlf");
    assert_eq!(b, "1234_cached.dlf");
    assert_eq!(license_dir(None), "C:/ProgramData/Electronic Arts/EA Services/License");
    assert_eq!(license_dir(Some("/pfx")), "/pfx/drive_c/ProgramData/Electronic Arts/EA Services/License");
}
