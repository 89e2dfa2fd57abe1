//! Online activation (OOA): which games need a license, how the license request is
//! written, and the bytes of the license files a game reads.

use aes::cipher::{block_padding::Pkcs7, BlockDecryptMut, BlockEncryptMut, KeyIvInit};
use base64::Engine;
use crate::pattern::{pattern_matches, regex_is_match};
use crate::text::{
    concat, contains_spec, path_join, path_join_exec, replace_all, replace_spec, str_contains,
    string_from_utf8,
};
use vstd::prelude::*;
use vstd::utf8::{decode_utf8, encode_utf8, valid_utf8};

verus! {

/// The key licenses are encrypted with.
pub const OOA_CRYPTO_KEY: [u8; 16] = [
    65, 50, 114, 45, 208, 130, 239, 176, 220, 100, 87, 197, 118, 104, 202, 9,
];

/// A license for one game on one machine.
#[derive(Debug, PartialEq)]
pub struct License {
    pub xmlns: String,
    pub signature: String,
    pub cipher_key: String,
    pub machine_hash: String,
    pub content_id: String,
    pub user_id: String,
    pub game_token: Option<String>,
    pub grant_time: String,
    pub start_time: String,
}

#[derive(Debug, Clone, Copy, PartialEq, Eq, Structural)]
pub enum OOAState {
    /// We don't need to request a license for this game
    Disabled,
    /// This game expects the license to have its signature base64 encoded
    SignatureEncoded,
    /// This game expects the license to have its signature decoded
    SignatureDecoded,
}

/// How a license request authenticates.
#[derive(Debug, Clone, PartialEq)]
pub enum LicenseAuth {
    AccessToken(String),
    /// Persona/Email, Password
    Direct(String, String),
}

/// A game needs no license without a `Core` directory; one whose `Core` holds
/// `activation.exe` wants the signature encoded, any other the signature decoded.
pub fn detect_ooa_state(core_dir_exists: bool, activation_exists: bool) -> (r: OOAState)
    ensures
        !core_dir_exists ==> r == OOAState::Disabled,
        core_dir_exists && activation_exists ==> r == OOAState::SignatureEncoded,
        core_dir_exists && !activation_exists ==> r == OOAState::SignatureDecoded,
{
    if !core_dir_exists {
        return OOAState::Disabled;
    }
    if activation_exists {
        return OOAState::SignatureEncoded;
    }
    OOAState::SignatureDecoded
}

/// What an e-mail address looks like to the license service.
pub const EMAIL_PATTERN: &'static str = "^([a-z0-9_+]([a-z0-9_+.]*[a-z0-9_+])?)@([a-z0-9]+([\\-\\.]{1}[a-z0-9]+)*\\.[a-z]{2,6})";

/// A query parameter.
pub open spec fn param(k: Seq<char>, v: Seq<char>) -> (Seq<char>, Seq<char>) {
    (k, v)
}

/// The views of query parameters.
pub open spec fn param_views(v: Seq<(String, String)>) -> Seq<(Seq<char>, Seq<char>)> {
    v.map_values(|p: (String, String)| (p.0@, p.1@))
}

/// The query of a license request: content and machine, then the credentials (a token,
/// or an e-mail or persona name with the password), then the request token and type
/// when given. Nothing when a token comes without a type or the e-mail pattern does not
/// compile.
pub open spec fn license_query_spec(
    content_id: Seq<char>,
    machine_hash: Seq<char>,
    auth: LicenseAuth,
    request_token: Option<Seq<char>>,
    request_type: Option<Seq<char>>,
) -> Option<Seq<(Seq<char>, Seq<char>)>> {
    let head = seq![param("contentId"@, content_id), param("machineHash"@, machine_hash)];
    let creds = match auth {
        LicenseAuth::AccessToken(t) => Some(seq![param("ea_eadmtoken"@, t@)]),
        LicenseAuth::Direct(persona, password) => match regex_is_match(EMAIL_PATTERN@, persona@) {
            Some(true) => Some(seq![param("ea_email"@, persona@), param("ea_password"@, password@)]),
            Some(false) => Some(
                seq![param("ea_persona"@, persona@), param("ea_password"@, password@)],
            ),
            None => None,
        },
    };
    let tail = match request_token {
        Some(t) => match request_type {
            Some(ty) => Some(seq![param("requestToken"@, t), param("requestType"@, ty)]),
            None => None,
        },
        None => Some(Seq::empty()),
    };
    match (creds, tail) {
        (Some(c), Some(t)) => Some(head + c + t),
        _ => None,
    }
}

fn push_param(q: &mut Vec<(String, String)>, k: &str, v: &str)
    ensures
        param_views(final(q)@) == param_views(old(q)@).push(param(k@, v@)),
{
    q.push((k.to_string(), v.to_string()));
    assert(param_views(q@) =~= param_views(old(q)@).push(param(k@, v@)));
}

/// The query parameters of a license request.
pub fn license_query(
    content_id: &str,
    machine_hash: &str,
    auth: &LicenseAuth,
    request_token: Option<&str>,
    request_type: Option<&str>,
) -> (r: Option<Vec<(String, String)>>)
    ensures
        match license_query_spec(
            content_id@,
            machine_hash@,
            *auth,
            match request_token {
                Some(t) => Some(t@),
                None => None,
            },
            match request_type {
                Some(t) => Some(t@),
                None => None,
            },
        ) {
            Some(q) => r matches Some(v) && param_views(v@) == q,
            None => r is None,
        },
{
    let mut q: Vec<(String, String)> = Vec::new();
    assert(param_views(q@) =~= Seq::<(Seq<char>, Seq<char>)>::empty());
    push_param(&mut q, "contentId", content_id);
    push_param(&mut q, "machineHash", machine_hash);
    match auth {
        LicenseAuth::AccessToken(token) => {
            push_param(&mut q, "ea_eadmtoken", token.as_str());
        },
        LicenseAuth::Direct(persona, password) => {
            match pattern_matches(EMAIL_PATTERN, persona.as_str()) {
                Some(true) => push_param(&mut q, "ea_email", persona.as_str()),
                Some(false) => push_param(&mut q, "ea_persona", persona.as_str()),
                None => return None,
            }
            push_param(&mut q, "ea_password", password.as_str());
        },
    }
    match request_token {
        Some(t) => match request_type {
            Some(ty) => {
                push_param(&mut q, "requestToken", t);
                push_param(&mut q, "requestType", ty);
            },
            None => return None,
        },
        None => {},
    }
    Some(q)
}

/// AES-128-CBC encryption with PKCS#7 padding.
pub uninterp spec fn aes128_cbc_encrypt(key: Seq<u8>, iv: Seq<u8>, data: Seq<u8>) -> Seq<u8>;

/// AES-128-CBC decryption with PKCS#7 padding; nothing when the padding is wrong.
pub uninterp spec fn aes128_cbc_decrypt(key: Seq<u8>, iv: Seq<u8>, data: Seq<u8>) -> Option<Seq<u8>>;

/// `cbc::Encryptor::<aes::Aes128>::new(key, iv).encrypt_padded_vec_mut::<Pkcs7>(data)`,
/// named by `aes128_cbc_encrypt`.
#[verifier::external_body]
fn cbc_encrypt(key: &[u8; 16], iv: &[u8; 16], data: &[u8]) -> (r: Vec<u8>)
    ensures
        r@ == aes128_cbc_encrypt(key@, iv@, data@),
{
    cbc::Encryptor::<aes::Aes128>::new(key.into(), iv.into()).encrypt_padded_vec_mut::<Pkcs7>(data)
}

/// `cbc::Decryptor::<aes::Aes128>::new(key, iv).decrypt_padded_vec_mut::<Pkcs7>(data)`,
/// named by `aes128_cbc_decrypt`; nothing on an unpadding error.
#[verifier::external_body]
fn cbc_decrypt(key: &[u8; 16], iv: &[u8; 16], data: &[u8]) -> (r: Option<Vec<u8>>)
    ensures
        match aes128_cbc_decrypt(key@, iv@, data@) {
            Some(p) => r matches Some(v) && v@ == p,
            None => r is None,
        },
{
    match cbc::Decryptor::<aes::Aes128>::new(key.into(), iv.into()).decrypt_padded_vec_mut::<
        Pkcs7,
    >(data) {
        Ok(v) => Some(v),
        Err(_) => None,
    }
}

/// The IV licenses are encrypted with: all zeros.
pub open spec fn zero_iv() -> Seq<u8> {
    Seq::new(16, |i: int| 0u8)
}

/// A license document encrypted for storage: AES-128-CBC under the OOA key, zero IV.
pub fn encrypt_license(data: &str) -> (r: Vec<u8>)
    ensures
        r@ == aes128_cbc_encrypt(OOA_CRYPTO_KEY@, zero_iv(), encode_utf8(data@)),
{
    let key = OOA_CRYPTO_KEY;
    let iv = [0u8; 16];
    assert(iv@ =~= zero_iv());
    cbc_encrypt(&key, &iv, data.as_bytes())
}

/// The text of an encrypted license, when it decrypts to UTF-8.
pub open spec fn license_text(data: Seq<u8>) -> Option<Seq<char>> {
    match aes128_cbc_decrypt(OOA_CRYPTO_KEY@, zero_iv(), data) {
        Some(p) => if valid_utf8(p) {
            Some(decode_utf8(p))
        } else {
            None
        },
        None => None,
    }
}

/// Decrypts a license as the service sends it, giving its XML text.
pub fn decrypt_license_text(data: &[u8]) -> (r: Option<String>)
    ensures
        match license_text(data@) {
            Some(t) => r matches Some(s) && s@ == t,
            None => r is None,
        },
{
    let key = OOA_CRYPTO_KEY;
    let iv = [0u8; 16];
    assert(iv@ =~= zero_iv());
    match cbc_decrypt(&key, &iv, data) {
        Some(plain) => string_from_utf8(plain),
        None => None,
    }
}

/// Standard base64 decoding (with padding); nothing for invalid input.
pub uninterp spec fn base64_decode(data: Seq<u8>) -> Option<Seq<u8>>;

/// `base64::engine::general_purpose::STANDARD.decode(data)`, named by `base64_decode`.
#[verifier::external_body]
fn base64_standard_decode(data: &[u8]) -> (r: Option<Vec<u8>>)
    ensures
        match base64_decode(data@) {
            Some(d) => r matches Some(v) && v@ == d,
            None => r is None,
        },
{
    match base64::engine::general_purpose::STANDARD.decode(data) {
        Ok(v) => Some(v),
        Err(_) => None,
    }
}

/// The XML declaration a license document starts with.
pub const XML_HEADER: &'static str = "<?xml version=\"1.0\" encoding=\"UTF-8\" standalone=\"yes\"?>";

/// The stored document: the XML declaration, then the serialised license, whose empty
/// game token element is dropped when it has no game token.
pub open spec fn license_document_spec(xml: Seq<char>) -> Seq<char> {
    let data = XML_HEADER@ + xml;
    if contains_spec(data, "<GameToken>"@) {
        data
    } else {
        replace_spec(data, "<GameToken/>"@, Seq::empty())
    }
}

pub fn license_document(xml: &str) -> (r: String)
    ensures
        r@ == license_document_spec(xml@),
{
    let data = concat(XML_HEADER, xml);
    if str_contains(data.as_str(), "<GameToken>") {
        data
    } else {
        let empty = "";
        proof {
            reveal_strlit("<GameToken/>");
            reveal_strlit("");
            assert(empty@ =~= Seq::<char>::empty());
        }
        replace_all(data.as_str(), "<GameToken/>", empty)
    }
}

/// A license file: the signature, zeros up to 65 bytes, then the encrypted document.
pub open spec fn license_blob_spec(signature: Seq<u8>, encrypted: Seq<u8>) -> Seq<u8> {
    signature + Seq::new((65 - signature.len()) as nat, |i: int| 0u8) + encrypted
}

pub fn license_blob(signature: &[u8], encrypted: &[u8]) -> (r: Vec<u8>)
    requires
        signature@.len() <= 65,
    ensures
        r@ == license_blob_spec(signature@, encrypted@),
{
    let mut r: Vec<u8> = Vec::new();
    let mut i: usize = 0;
    while i < signature.len()
        invariant
            i <= signature@.len(),
            r@ == signature@.take(i as int),
        decreases signature@.len() - i,
    {
        r.push(signature[i]);
        i = i + 1;
        assert(r@ =~= signature@.take(i as int));
    }
    let pad = 65 - signature.len();
    let mut k: usize = 0;
    while k < pad
        invariant
            k <= pad,
            pad == 65 - signature@.len(),
            r@ == signature@ + Seq::new(k as nat, |j: int| 0u8),
        decreases pad - k,
    {
        r.push(0u8);
        k = k + 1;
        assert(r@ =~= signature@ + Seq::new(k as nat, |j: int| 0u8));
    }
    let mut j: usize = 0;
    while j < encrypted.len()
        invariant
            j <= encrypted@.len(),
            r@ == signature@ + Seq::new((65 - signature@.len()) as nat, |x: int| 0u8)
                + encrypted@.take(j as int),
        decreases encrypted@.len() - j,
    {
        r.push(encrypted[j]);
        j = j + 1;
        assert(r@ =~= signature@ + Seq::new((65 - signature@.len()) as nat, |x: int| 0u8)
            + encrypted@.take(j as int));
    }
    assert(encrypted@.take(encrypted@.len() as int) =~= encrypted@);
    r
}

/// Why a license file could not be written.
#[derive(Debug, Clone, Copy, PartialEq, Eq, Structural)]
pub enum LicenseFileError {
    /// The signature is not valid base64.
    SignatureDecode,
    /// The signature is longer than the 65 bytes the file has room for.
    SignatureTooLong,
}

/// The signature bytes a game expects: the text's bytes, decoded from base64 for games
/// that want it decoded.
pub open spec fn signature_bytes(signature: Seq<char>, state: OOAState) -> Option<Seq<u8>> {
    if state == OOAState::SignatureDecoded {
        base64_decode(encode_utf8(signature))
    } else {
        Some(encode_utf8(signature))
    }
}

/// The bytes of the license file of `license`, whose serialised form is `xml`.
pub fn save_license(license: &License, xml: &str, state: OOAState) -> (r: Result<
    Vec<u8>,
    LicenseFileError,
>)
    ensures
        match signature_bytes(license.signature@, state) {
            None => r == Err::<Vec<u8>, LicenseFileError>(LicenseFileError::SignatureDecode),
            Some(sig) => if sig.len() > 65 {
                r == Err::<Vec<u8>, LicenseFileError>(LicenseFileError::SignatureTooLong)
            } else {
                r matches Ok(v) && v@ == license_blob_spec(
                    sig,
                    aes128_cbc_encrypt(
                        OOA_CRYPTO_KEY@,
                        zero_iv(),
                        encode_utf8(license_document_spec(xml@)),
                    ),
                )
            },
        },
{
    let data = license_document(xml);
    let encrypted = encrypt_license(data.as_str());
    let sig_text = license.signature.as_str().as_bytes();
    let decoded;
    let sig: &[u8] = if state == OOAState::SignatureDecoded {
        decoded = match base64_standard_decode(sig_text) {
            Some(d) => d,
            None => return Err(LicenseFileError::SignatureDecode),
        };
        decoded.as_slice()
    } else {
        sig_text
    };
    if sig.len() > 65 {
        return Err(LicenseFileError::SignatureTooLong);
    }
    Ok(license_blob(sig, encrypted.as_slice()))
}

/// The two files a license is saved as: `<content id>.dlf` and `<content id>_cached.dlf`.
pub fn license_file_names(content_id: &str) -> (r: (String, String))
    ensures
        r.0@ == content_id@ + ".dlf"@,
        r.1@ == content_id@ + "_cached.dlf"@,
{
    (concat(content_id, ".dlf"), concat(content_id, "_cached.dlf"))
}

/// Where licenses live under the system drive.
pub const LICENSE_PATH: &'static str = "ProgramData/Electronic Arts/EA Services/License";

/// The license directory: under `C:/` on Windows, under the Wine prefix's `drive_c`
/// elsewhere.
pub fn license_dir(wine_prefix: Option<&str>) -> (r: String)
    ensures
        match wine_prefix {
            Some(p) => r@ == p@ + "/drive_c/"@ + LICENSE_PATH@,
            None => r@ == "C:/"@ + LICENSE_PATH@,
        },
{
    match wine_prefix {
        Some(p) => {
            let a = concat(p, "/drive_c/");
            concat(a.as_str(), LICENSE_PATH)
        },
        None => concat("C:/", LICENSE_PATH),
    }
}

/// The files of a license: its bytes under `<content id>.dlf` and `<content id>_cached.dlf`
/// in the license directory.
pub open spec fn license_files_spec(license: License, xml: Seq<char>, state: OOAState, dir: Seq<char>, bytes: Seq<u8>) -> Seq<(Seq<char>, Seq<u8>)> {
    seq![
        (path_join(dir, license.content_id@ + ".dlf"@), bytes),
        (path_join(dir, license.content_id@ + "_cached.dlf"@), bytes),
    ]
}

/// The files to write for a license (path and bytes), in the license directory of the
/// Wine prefix (`None` on Windows); an error where the license file cannot be made.
pub fn save_licenses(license: &License, xml: &str, state: OOAState, wine_prefix: Option<&str>) -> (r: Result<
    Vec<(String, Vec<u8>)>,
    LicenseFileError,
>)
    ensures
        match signature_bytes(license.signature@, state) {
            None => r == Err::<Vec<(String, Vec<u8>)>, LicenseFileError>(LicenseFileError::SignatureDecode),
            Some(sig) => if sig.len() > 65 {
                r == Err::<Vec<(String, Vec<u8>)>, LicenseFileError>(LicenseFileError::SignatureTooLong)
            } else {
                r matches Ok(files) && files@.map_values(|f: (String, Vec<u8>)| (f.0@, f.1@)) == license_files_spec(
                    *license,
                    xml@,
                    state,
                    match wine_prefix {
                        Some(p) => p@ + "/drive_c/"@ + LICENSE_PATH@,
                        None => "C:/"@ + LICENSE_PATH@,
                    },
                    license_blob_spec(
                        sig,
                        aes128_cbc_encrypt(
                            OOA_CRYPTO_KEY@,
                            zero_iv(),
                            encode_utf8(license_document_spec(xml@)),
                        ),
                    ),
                )
            },
        },
{
    let bytes = match save_license(license, xml, state) {
        Ok(b) => b,
        Err(e) => return Err(e),
    };
    let dir = license_dir(wine_prefix);
    let (name, cached) = license_file_names(license.content_id.as_str());
    let first = path_join_exec(dir.as_str(), name.as_str());
    let second = path_join_exec(dir.as_str(), cached.as_str());
    let ghost bv = bytes@;
    let copy = bytes.clone();
    assert(copy@ =~= bv);
    let mut files: Vec<(String, Vec<u8>)> = Vec::new();
    files.push((first, copy));
    files.push((second, bytes));
    assert(files@.map_values(|f: (String, Vec<u8>)| (f.0@, f.1@)) =~= license_files_spec(
        *license,
        xml@,
        state,
        dir@,
        bv,
    ));
    Ok(files)
}

} // verus!
