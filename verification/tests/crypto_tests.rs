use maxima::crypto::{
    check_challenge_response, get_array, hash_fnv1a, make_challenge_response, make_lsx_key,
    rtp_handshake_for_date, simple_decrypt, simple_encrypt, try_check_challenge_response,
    try_make_challenge_response, try_simple_decrypt, try_simple_encrypt, CRandom, CRYPTO_KEY,
};

#[test]
fn lsx_key_for_zero_seed_is_fixed_key() {
    assert_eq!(make_lsx_key(0), CRYPTO_KEY);
}

#[test]
fn lsx_key_for_seeds() {
    assert_eq!(
        make_lsx_key(1),
        [241, 72, 112, 90, 166, 22, 121, 42, 185, 152, 11, 111, 57, 105, 227, 66]
    );
    assert_eq!(
        make_lsx_key(0x1234),
        [95, 226, 103, 221, 217, 129, 166, 13, 196, 144, 68, 13, 118, 158, 232, 248]
    );
}

#[test]
fn crandom_sequence_for_seed_one() {
    let mut r = CRandom::default();
    r.seed(1);
    // The linear congruential sequence for seed 1, upper 16 bits of each state.
    assert_eq!(r.rand(), 41);
    assert_eq!(r.rand(), 51235);
    assert_eq!(r.rand(), 6334);
}

#[test]
fn fnv1a_known_values() {
    assert_eq!(hash_fnv1a(b""), 0xcbf29ce484222325);
    assert_eq!(hash_fnv1a(b"a"), 0xaf63dc4c8601ec8c);
    assert_eq!(hash_fnv1a(b"hello"), 11831194018420276491);
}

#[test]
fn get_array_decodes_hex() {
    assert_eq!(get_array("0a1B"), vec![0x0a, 0x1b]);
    assert_eq!(get_array("DE:AD be-ef"), vec![0xde, 0xad, 0xbe, 0xef]);
    assert_eq!(get_array("abc"), Vec::<u8>::new());
    assert_eq!(get_array("xyz"), Vec::<u8>::new());
    assert_eq!(get_array("\u{e9}0A\u{212a}"), vec![0x0a]);
}

#[test]
fn challenge_round_trip() {
    let response = make_challenge_response("ChallengeText123");
    assert_eq!(response.len(), 64);
    assert!(check_challenge_response(&response, "ChallengeText123"));
    assert!(!check_challenge_response(&response, "Other"));
    assert_eq!(try_make_challenge_response("abc"), Some(make_challenge_response("abc")));
}

#[test]
fn encrypt_decrypt_round_trip() {
    let key = [7u8; 16];
    let enc = simple_encrypt(b"secret", &key);
    assert_eq!(enc.len(), 32);
    assert!(enc.chars().all(|c| c.is_ascii_hexdigit() && !c.is_ascii_uppercase()));
    assert_eq!(simple_decrypt(enc.as_bytes(), &key), "secret");
    assert_eq!(try_simple_encrypt(b"secret", &key), Some(enc.clone()));
    assert_eq!(try_simple_decrypt(enc.as_bytes(), &key), Some("secret".to_string()));
}

#[test]
fn bad_responses_are_reported() {
    assert_eq!(try_check_challenge_response("zz", "x"), None);
    assert_eq!(try_simple_decrypt(&[0xff, 0xfe], &CRYPTO_KEY), None);
    assert_eq!(try_check_challenge_response("00112233", "x"), None);
}

#[test]
fn rtp_code_for_date() {
    assert_eq!(rtp_handshake_for_date(2024, 5, 17), 2803738397);
}
