//! The small ciphers of the LSX protocol: the challenge response, the derived session
//! key, and the FNV-1a hash used for machine identifiers.

use crate::text::{ascii_lower, ascii_lower_exec, hex_digit_char, hex_encode, hex_lower, str_from_utf8, string_from_utf8};
use openssl::symm::{decrypt, encrypt, Cipher};
use vstd::prelude::*;
use vstd::utf8::{decode_utf8, encode_utf8, valid_utf8};

verus! {

broadcast use vstd::utf8::encode_utf8_valid_utf8, vstd::utf8::encode_utf8_decode_utf8;

pub const CRYPTO_KEY: [u8; 16] = [0, 1, 2, 3, 4, 5, 6, 7, 8, 9, 10, 11, 12, 13, 14, 15];

pub const PRIME_10K: u32 = 104729;

pub const PRIME_20K: u32 = 224737;

pub const PRIME_30K: u32 = 350377;

pub const FNV_OFFSET: u64 = 0xcbf29ce484222325;

pub const FNV_PRIME: u64 = 0x100000001b3;

/// AES-128 in ECB mode with PKCS#7 padding, as OpenSSL computes it: the ciphertext of
/// `data` under `key`, when OpenSSL produces one.
pub uninterp spec fn aes128_ecb_encrypt(key: Seq<u8>, data: Seq<u8>) -> Option<Seq<u8>>;

/// AES-128 in ECB mode with PKCS#7 padding, as OpenSSL computes it: the plaintext of
/// `data` under `key`, when it decrypts with valid padding.
pub uninterp spec fn aes128_ecb_decrypt(key: Seq<u8>, data: Seq<u8>) -> Option<Seq<u8>>;

/// The longest input OpenSSL's cipher step takes: its length must fit in a C `int`.
pub const MAX_CIPHER_INPUT: usize = 0x7fff_ffff;

/// AES-128-ECB encryption as the launcher can ask for it: nothing for an input longer
/// than `MAX_CIPHER_INPUT`.
pub open spec fn ecb_encrypt(key: Seq<u8>, data: Seq<u8>) -> Option<Seq<u8>> {
    if data.len() <= MAX_CIPHER_INPUT {
        aes128_ecb_encrypt(key, data)
    } else {
        None
    }
}

/// AES-128-ECB decryption as the launcher can ask for it: nothing for an input longer
/// than `MAX_CIPHER_INPUT`.
pub open spec fn ecb_decrypt(key: Seq<u8>, data: Seq<u8>) -> Option<Seq<u8>> {
    if data.len() <= MAX_CIPHER_INPUT {
        aes128_ecb_decrypt(key, data)
    } else {
        None
    }
}

/// `openssl::symm::encrypt` with AES-128-ECB and no IV: the ciphertext named by
/// `aes128_ecb_encrypt`, or nothing when OpenSSL reports an error. The input must fit in
/// a C `int` (OpenSSL's update step panics otherwise). A ciphertext it gives is at most
/// one block longer than `data` (the output buffer it is cut from), and decrypts under the
/// same key (with its padding) back to `data`.
#[verifier::external_body]
fn openssl_encrypt_aes128_ecb(key: &[u8; 16], data: &[u8]) -> (r: Option<Vec<u8>>)
    requires
        data@.len() <= MAX_CIPHER_INPUT,
    ensures
        match aes128_ecb_encrypt(key@, data@) {
            Some(c) => r matches Some(v) && v@ == c,
            None => r is None,
        },
        r matches Some(v) ==> v@.len() <= data@.len() + 16,
        r matches Some(v) ==> aes128_ecb_decrypt(key@, v@) == Some(data@),
{
    match encrypt(Cipher::aes_128_ecb(), key, None, data) {
        Ok(v) => Some(v),
        Err(_) => None,
    }
}

/// `openssl::symm::decrypt` with AES-128-ECB (the zero IV that is passed is unused by
/// ECB): the plaintext named by `aes128_ecb_decrypt`, or nothing on an error. The input
/// must fit in a C `int` (OpenSSL's update step panics otherwise).
#[verifier::external_body]
fn openssl_decrypt_aes128_ecb(key: &[u8; 16], data: &[u8]) -> (r: Option<Vec<u8>>)
    requires
        data@.len() <= MAX_CIPHER_INPUT,
    ensures
        match aes128_ecb_decrypt(key@, data@) {
            Some(p) => r matches Some(v) && v@ == p,
            None => r is None,
        },
{
    match decrypt(Cipher::aes_128_ecb(), key, Some(&[0u8; 16]), data) {
        Ok(v) => Some(v),
        Err(_) => None,
    }
}

/// Lower-case hexadecimal digits.
pub open spec fn is_hex_digit(c: char) -> bool {
    ('0' <= c && c <= '9') || ('a' <= c && c <= 'f')
}

/// The value of a lower-case hexadecimal digit.
pub open spec fn hex_value(c: char) -> nat {
    if '0' <= c && c <= '9' {
        (c as nat - '0' as nat) as nat
    } else {
        (c as nat - 'a' as nat + 10) as nat
    }
}

/// The hexadecimal digits of `s`, in order.
pub open spec fn keep_hex(s: Seq<char>) -> Seq<char>
    decreases s.len(),
{
    if s.len() == 0 {
        Seq::empty()
    } else if is_hex_digit(s.last()) {
        keep_hex(s.drop_last()).push(s.last())
    } else {
        keep_hex(s.drop_last())
    }
}

/// The bytes that consecutive pairs of hex digits spell.
pub open spec fn hex_pairs(digits: Seq<char>) -> Seq<u8> {
    Seq::new(
        digits.len() / 2,
        |k: int| (16 * hex_value(digits[2 * k]) + hex_value(digits[2 * k + 1])) as u8,
    )
}

/// `s` with its ASCII capitals made lower case.
pub open spec fn ascii_lowercase(s: Seq<char>) -> Seq<char> {
    s.map_values(|c: char| ascii_lower(c))
}

/// The bytes spelled by the hex digits of `s`, read without regard to case and ignoring
/// every other character; nothing when there is an odd number of digits.
pub open spec fn hex_array(s: Seq<char>) -> Seq<u8> {
    let digits = keep_hex(ascii_lowercase(s));
    if digits.len() % 2 != 0 {
        Seq::empty()
    } else {
        hex_pairs(digits)
    }
}

fn hex_digit_value(c: char) -> (v: u8)
    requires
        is_hex_digit(c),
    ensures
        v == hex_value(c),
{
    if '0' <= c && c <= '9' {
        (c as u32 - '0' as u32) as u8
    } else {
        (c as u32 - 'a' as u32 + 10) as u8
    }
}

/// Decodes the hexadecimal digits found in `s` into bytes.
pub fn get_array(s: &str) -> (r: Vec<u8>)
    ensures
        r@ == hex_array(s@),
{
    let mut digits: Vec<char> = Vec::new();
    for c in it: s.chars()
        invariant
            it.seq() == s@,
            digits@ == keep_hex(ascii_lowercase(it.seq().take(it.index() as int))),
    {
        proof {
            let t = it.seq().take(it.index() + 1);
            assert(t.drop_last() =~= it.seq().take(it.index() as int));
            assert(ascii_lowercase(t).drop_last() =~= ascii_lowercase(t.drop_last()));
        }
        let lc = ascii_lower_exec(c);
        if ('0' <= lc && lc <= '9') || ('a' <= lc && lc <= 'f') {
            digits.push(lc);
        }
    }
    proof {
        assert(s@.take(s@.len() as int) =~= s@);
    }
    let mut out: Vec<u8> = Vec::new();
    if digits.len() % 2 != 0 {
        assert(out@ =~= hex_array(s@));
        return out;
    }
    proof {
        lemma_keep_hex_digits(ascii_lowercase(s@));
    }
    let dl = digits.len();
    let n = dl / 2;
    let mut k: usize = 0;
    while k < n
        invariant
            dl == digits@.len(),
            n == digits@.len() / 2,
            digits@ == keep_hex(ascii_lowercase(s@)),
            k <= n,
            out@ =~= hex_pairs(digits@).take(k as int),
            forall|i: int| 0 <= i < digits@.len() ==> is_hex_digit(#[trigger] digits@[i]),
        decreases n - k,
    {
        assert(2 * k + 1 < digits@.len()) by (nonlinear_arith)
            requires
                k < n,
                n == digits@.len() / 2,
        ;
        let j: usize = k + k;
        let hi = hex_digit_value(digits[j]);
        let lo = hex_digit_value(digits[j + 1]);
        out.push(hi * 16 + lo);
        k = k + 1;
    }
    out
}

/// Two hexadecimal digits per byte, as `hex_lower` writes them.
proof fn lemma_hex_lower_shape(c: Seq<u8>)
    ensures
        hex_lower(c).len() == 2 * c.len(),
        forall|k: int|
            0 <= k < c.len() ==> hex_lower(c)[2 * k] == hex_digit_char(#[trigger] c[k] as nat / 16)
                && hex_lower(c)[2 * k + 1] == hex_digit_char(c[k] as nat % 16),
    decreases c.len(),
{
    if c.len() > 0 {
        let p = c.drop_last();
        lemma_hex_lower_shape(p);
        assert forall|k: int| 0 <= k < c.len() implies hex_lower(c)[2 * k] == hex_digit_char(
            #[trigger] c[k] as nat / 16,
        ) && hex_lower(c)[2 * k + 1] == hex_digit_char(c[k] as nat % 16) by {
            if k < p.len() {
                assert(c[k] == p[k]);
            }
        }
    }
}

/// A hexadecimal digit as `hex_lower` writes it reads back as its value.
proof fn lemma_hex_digit_round_trip(v: nat)
    requires
        v < 16,
    ensures
        is_hex_digit(hex_digit_char(v)),
        ascii_lower(hex_digit_char(v)) == hex_digit_char(v),
        hex_value(hex_digit_char(v)) == v,
{
}

/// A string of hexadecimal digits keeps all of them.
proof fn lemma_keep_hex_all(s: Seq<char>)
    requires
        forall|i: int| 0 <= i < s.len() ==> is_hex_digit(#[trigger] s[i]),
    ensures
        keep_hex(s) == s,
    decreases s.len(),
{
    if s.len() > 0 {
        lemma_keep_hex_all(s.drop_last());
        assert(s.drop_last().push(s.last()) =~= s);
    }
}

/// Hex-encoded bytes decode back to the same bytes.
pub proof fn lemma_hex_array_of_hex_lower(c: Seq<u8>)
    ensures
        hex_array(hex_lower(c)) == c,
{
    let h = hex_lower(c);
    lemma_hex_lower_shape(c);
    assert forall|i: int| 0 <= i < h.len() implies is_hex_digit(#[trigger] h[i]) && ascii_lower(h[i]) == h[i] by {
        let k = i / 2;
        assert(0 <= k < c.len());
        lemma_hex_digit_round_trip(c[k] as nat / 16);
        lemma_hex_digit_round_trip(c[k] as nat % 16);
        if i % 2 == 0 {
            assert(i == 2 * k);
        } else {
            assert(i == 2 * k + 1);
        }
    }
    assert(ascii_lowercase(h) =~= h);
    lemma_keep_hex_all(h);
    assert forall|k: int| 0 <= k < c.len() implies #[trigger] hex_pairs(h)[k] == c[k] by {
        lemma_hex_digit_round_trip(c[k] as nat / 16);
        lemma_hex_digit_round_trip(c[k] as nat % 16);
        assert(h[2 * k] == hex_digit_char(c[k] as nat / 16));
        assert(h[2 * k + 1] == hex_digit_char(c[k] as nat % 16));
    }
    assert(hex_pairs(h) =~= c);
}

proof fn lemma_keep_hex_digits(s: Seq<char>)
    ensures
        forall|i: int| 0 <= i < keep_hex(s).len() ==> is_hex_digit(#[trigger] keep_hex(s)[i]),
    decreases s.len(),
{
    if s.len() > 0 {
        lemma_keep_hex_digits(s.drop_last());
        let k = keep_hex(s.drop_last());
        assert forall|i: int| 0 <= i < keep_hex(s).len() implies is_hex_digit(#[trigger] keep_hex(s)[i]) by {
            if i < k.len() {
                assert(keep_hex(s)[i] == k[i]);
            }
        }
    }
}

/// The state after one step of the C runtime's linear congruential generator.
pub open spec fn lcg_next(s: u32) -> u32 {
    ((s as nat * 214013 + 2531011) % 0x1_0000_0000) as u32
}

/// The state after `n` steps.
pub open spec fn lcg_iter(s: u32, n: nat) -> u32
    decreases n,
{
    if n == 0 {
        s
    } else {
        lcg_next(lcg_iter(s, (n - 1) as nat))
    }
}

/// The value drawn from a state: its upper 16 bits.
pub open spec fn lcg_output(s: u32) -> i32 {
    (s / 0x10000) as i32
}

/// The generator of the C runtime's `rand`.
#[derive(Debug, Default)]
pub struct CRandom {
    seed: u32,
}

impl CRandom {
    pub closed spec fn state(&self) -> u32 {
        self.seed
    }

    pub fn seed(&mut self, seed: u32)
        ensures
            final(self).state() == seed,
    {
        self.seed = seed;
    }

    pub fn rand(&mut self) -> (r: i32)
        ensures
            final(self).state() == lcg_next(old(self).state()),
            r == lcg_output(final(self).state()),
            0 <= r <= 0xFFFF,
    {
        let next = ((self.seed as u64 * 214013 + 2531011) % 0x1_0000_0000) as u32;
        self.seed = next;
        assert(((next >> 16u32) & 0xFFFFu32) == next / 0x10000u32) by (bit_vector);
        ((next >> 16) & 0xFFFF) as i32
    }
}

/// The session key derived from an LSX seed: the fixed key for seed 0; otherwise the
/// generator, seeded with 7, gives one value that is added to the seed, and reseeded with
/// that sum, gives the 16 key bytes (the low byte of each value).
pub open spec fn lsx_key(seed: u16) -> Seq<u8> {
    if seed == 0 {
        CRYPTO_KEY@
    } else {
        lsx_key_bytes((lcg_output(lcg_next(7)) + seed) as u32)
    }
}

/// The 16 bytes drawn after seeding the generator with `s`.
pub open spec fn lsx_key_bytes(s: u32) -> Seq<u8> {
    Seq::new(16, |i: int| lcg_output(lcg_iter(s, (i + 1) as nat)) as u8)
}

pub fn make_lsx_key(seed: u16) -> (r: [u8; 16])
    ensures
        r@ == lsx_key(seed),
{
    if seed == 0 {
        return CRYPTO_KEY;
    }
    let mut crand = CRandom { seed: 0 };
    crand.seed(7);
    let seed = (crand.rand() as u32) + (seed as u32);
    crand.seed(seed);
    let mut result: [u8; 16] = [0; 16];
    let mut i: usize = 0;
    while i < 16
        invariant
            i <= 16,
            crand.state() == lcg_iter(seed, i as nat),
            forall|j: int| 0 <= j < i ==> result@[j] == lcg_output(lcg_iter(seed, (j + 1) as nat)) as u8,
        decreases 16 - i,
    {
        let v = crand.rand();
        result[i] = v as u8;
        i = i + 1;
    }
    assert(result@ =~= lsx_key_bytes(seed));
    result
}

/// The text that the hex string `data` decrypts to under `key`, when the ciphertext
/// decrypts and the plaintext is valid UTF-8.
pub open spec fn decrypted_text(data: Seq<char>, key: Seq<u8>) -> Option<Seq<char>> {
    match ecb_decrypt(key, hex_array(data)) {
        Some(p) => if valid_utf8(p) {
            Some(decode_utf8(p))
        } else {
            None
        },
        None => None,
    }
}

/// Decrypts the hex-encoded AES-128-ECB ciphertext in the UTF-8 bytes `data`.
pub fn simple_decrypt(data: &[u8], key: &[u8; 16]) -> (r: String)
    requires
        valid_utf8(data@),
        decrypted_text(decode_utf8(data@), key@) is Some,
    ensures
        decrypted_text(decode_utf8(data@), key@) == Some(r@),
{
    let text = match str_from_utf8(data) {
        Some(t) => t,
        None => return String::new(),
    };
    let bytes = get_array(text);
    if bytes.len() > MAX_CIPHER_INPUT {
        return String::new();
    }
    let plain = match openssl_decrypt_aes128_ecb(key, bytes.as_slice()) {
        Some(p) => p,
        None => return String::new(),
    };
    match string_from_utf8(plain) {
        Some(s) => s,
        None => String::new(),
    }
}

/// Decrypts like `simple_decrypt`, or gives nothing when `data` is not UTF-8 or its
/// ciphertext does not decrypt to UTF-8 text.
pub fn try_simple_decrypt(data: &[u8], key: &[u8; 16]) -> (r: Option<String>)
    ensures
        r is Some <==> valid_utf8(data@) && decrypted_text(decode_utf8(data@), key@) is Some,
        r matches Some(s) ==> decrypted_text(decode_utf8(data@), key@) == Some(s@),
{
    let text = match str_from_utf8(data) {
        Some(t) => t,
        None => return None,
    };
    let bytes = get_array(text);
    if bytes.len() > MAX_CIPHER_INPUT {
        return None;
    }
    let plain = match openssl_decrypt_aes128_ecb(key, bytes.as_slice()) {
        Some(p) => p,
        None => return None,
    };
    if string_from_utf8(plain).is_none() {
        return None;
    }
    Some(simple_decrypt(data, key))
}

/// The AES-128-ECB ciphertext of `data` under `key`, hex-encoded. It decrypts back to
/// `data` where the ciphertext is short enough to be decrypted.
pub fn simple_encrypt(data: &[u8], key: &[u8; 16]) -> (r: String)
    requires
        ecb_encrypt(key@, data@) is Some,
    ensures
        r@ == hex_lower(ecb_encrypt(key@, data@)->0),
        data@.len() + 16 <= MAX_CIPHER_INPUT ==> ecb_decrypt(key@, hex_array(r@)) == Some(data@),
{
    match openssl_encrypt_aes128_ecb(key, data) {
        Some(c) => {
            proof {
                lemma_hex_array_of_hex_lower(c@);
            }
            hex_encode(c.as_slice())
        },
        None => String::new(),
    }
}

/// Encrypts like `simple_encrypt`, or gives nothing when `data` is too long for the
/// cipher or OpenSSL reports an error.
pub fn try_simple_encrypt(data: &[u8], key: &[u8; 16]) -> (r: Option<String>)
    ensures
        r is Some <==> ecb_encrypt(key@, data@) is Some,
        r matches Some(s) ==> s@ == hex_lower(ecb_encrypt(key@, data@)->0),
        r matches Some(s) ==> (data@.len() + 16 <= MAX_CIPHER_INPUT ==> ecb_decrypt(
            key@,
            hex_array(s@),
        ) == Some(data@)),
{
    if data.len() > MAX_CIPHER_INPUT {
        return None;
    }
    if openssl_encrypt_aes128_ecb(key, data).is_none() {
        return None;
    }
    Some(simple_encrypt(data, key))
}

/// Whether `response` is the encryption of `challenge` under the fixed LSX key.
pub fn check_challenge_response(response: &str, challenge: &str) -> (r: bool)
    requires
        decrypted_text(response@, CRYPTO_KEY@) is Some,
    ensures
        r == (decrypted_text(response@, CRYPTO_KEY@) == Some(challenge@)),
{
    let key = CRYPTO_KEY;
    let decrypted = simple_decrypt(response.as_bytes(), &key);
    let expected = challenge.to_owned();
    decrypted == expected
}

/// A response that decrypts to the challenge `c` (as `make_challenge_response` gives for
/// `c`) passes `check_challenge_response` for the challenge `d` exactly when `d` is `c`.
pub proof fn lemma_challenge_check(response: Seq<char>, c: Seq<char>, d: Seq<char>)
    requires
        decrypted_text(response, CRYPTO_KEY@) == Some(c),
    ensures
        (decrypted_text(response, CRYPTO_KEY@) == Some(d)) == (c == d),
{
}

/// Checks a response like `check_challenge_response`, or gives nothing when the
/// response does not decrypt to text.
pub fn try_check_challenge_response(response: &str, challenge: &str) -> (r: Option<bool>)
    ensures
        r is Some <==> decrypted_text(response@, CRYPTO_KEY@) is Some,
        r matches Some(b) ==> b == (decrypted_text(response@, CRYPTO_KEY@) == Some(challenge@)),
{
    let key = CRYPTO_KEY;
    if try_simple_decrypt(response.as_bytes(), &key).is_none() {
        return None;
    }
    Some(check_challenge_response(response, challenge))
}

/// The response a peer sends for `challenge`: its encryption under the fixed LSX key. It
/// is a response that `check_challenge_response` accepts for that challenge.
pub fn make_challenge_response(challenge: &str) -> (r: String)
    requires
        ecb_encrypt(CRYPTO_KEY@, encode_utf8(challenge@)) is Some,
    ensures
        r@ == hex_lower(ecb_encrypt(CRYPTO_KEY@, encode_utf8(challenge@))->0),
        encode_utf8(challenge@).len() + 16 <= MAX_CIPHER_INPUT ==> decrypted_text(r@, CRYPTO_KEY@)
            == Some(challenge@),
{
    let key = CRYPTO_KEY;
    simple_encrypt(challenge.as_bytes(), &key)
}

/// Makes a response like `make_challenge_response`, or gives nothing when OpenSSL
/// reports an error.
pub fn try_make_challenge_response(challenge: &str) -> (r: Option<String>)
    ensures
        r is Some <==> ecb_encrypt(CRYPTO_KEY@, encode_utf8(challenge@)) is Some,
        r matches Some(s) ==> s@ == hex_lower(ecb_encrypt(CRYPTO_KEY@, encode_utf8(challenge@))->0),
        r matches Some(s) ==> (encode_utf8(challenge@).len() + 16 <= MAX_CIPHER_INPUT
            ==> decrypted_text(s@, CRYPTO_KEY@) == Some(challenge@)),
{
    let key = CRYPTO_KEY;
    if try_simple_encrypt(challenge.as_bytes(), &key).is_none() {
        return None;
    }
    Some(make_challenge_response(challenge))
}

/// The 64-bit FNV-1a hash of `s`.
pub open spec fn fnv1a(s: Seq<u8>) -> u64
    decreases s.len(),
{
    if s.len() == 0 {
        FNV_OFFSET
    } else {
        vstd::wrapping::u64_specs::wrapping_mul(fnv1a(s.drop_last()) ^ (s.last() as u64), FNV_PRIME)
    }
}

pub fn hash_fnv1a(input: &[u8]) -> (r: u64)
    ensures
        r == fnv1a(input@),
{
    let mut acc: u64 = FNV_OFFSET;
    let mut i: usize = 0;
    while i < input.len()
        invariant
            i <= input@.len(),
            acc == fnv1a(input@.take(i as int)),
        decreases input@.len() - i,
    {
        assert(input@.take(i + 1).drop_last() =~= input@.take(i as int));
        acc = (acc ^ (input[i] as u64)).wrapping_mul(FNV_PRIME);
        i = i + 1;
    }
    assert(input@.take(input@.len() as int) =~= input@);
    acc
}

/// The launch code of a calendar date: the year, month and day, each multiplied by its
/// prime (wrapping at 32 bits) and combined with exclusive or, then folded with its own
/// 16-bit rotations.
pub open spec fn rtp_code(year: i32, month: u32, day: u32) -> u32 {
    let time = vstd::wrapping::u32_specs::wrapping_mul(PRIME_10K, year as u32)
        ^ vstd::wrapping::u32_specs::wrapping_mul(month, PRIME_20K)
        ^ vstd::wrapping::u32_specs::wrapping_mul(day, PRIME_30K);
    time ^ (time << 16u32) ^ (time >> 16u32)
}

/// The launch code for the given UTC date.
pub fn rtp_handshake_for_date(year: i32, month: u32, day: u32) -> (r: u32)
    ensures
        r == rtp_code(year, month, day),
{
    let time = PRIME_10K.wrapping_mul(year as u32) ^ month.wrapping_mul(PRIME_20K)
        ^ day.wrapping_mul(PRIME_30K);
    time ^ (time << 16) ^ (time >> 16)
}

} // verus!
