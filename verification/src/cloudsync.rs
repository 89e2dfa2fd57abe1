//! Cloud saves: where save files live, how their checksums are written, and which files
//! a sync downloads or uploads.

use crate::assoc::{assoc_map, last_position, lemma_assoc_absent, lemma_assoc_last};
use crate::hardware::digit_char;
use crate::search::{first_index, lemma_first_index_found, lemma_first_index_none};
use crate::service_layer::ServiceLegacyOffer;
use crate::text::{
    concat, contains_spec, hex_encode, hex_lower, path_join, path_join_exec, push_char, replace_all,
    replace_spec, str_contains, str_eq,
};
use vstd::prelude::*;
use vstd::string::StrSliceExecFns;

verus! {

/// Which lock a sync takes on the save data.
#[derive(Debug, Clone, Copy, PartialEq, Eq, Structural)]
pub enum CloudSyncLockMode {
    Read,
    Write,
}

impl CloudSyncLockMode {
    pub open spec fn path_spec(self) -> Seq<char> {
        match self {
            CloudSyncLockMode::Read => "lock/read"@,
            CloudSyncLockMode::Write => "lock/write"@,
        }
    }

    /// The service path of the lock.
    pub fn lock_path(&self) -> (r: String)
        ensures
            r@ == self.path_spec(),
    {
        match self {
            CloudSyncLockMode::Read => "lock/read".to_string(),
            CloudSyncLockMode::Write => "lock/write".to_string(),
        }
    }
}

/// Why a cloud sync cannot start.
#[derive(Debug, Clone, PartialEq, Eq)]
pub enum CloudSyncError {
    /// The offer (by id) has no cloud save configuration.
    NoConfig(String),
}

/// What a sync of an offer's saves locks, and the save-file criteria it syncs: the lock id
/// `<primary master title id>_<multiplayer id>` and the offer's cloud save configuration;
/// an error when the offer has no configuration.
pub fn lock_target(offer: &ServiceLegacyOffer) -> (r: Result<(String, String), CloudSyncError>)
    requires
        offer.multiplayer_id is Some,
    ensures
        match offer.cloud_save_configuration_override {
            Some(config) => r matches Ok((id, c)) && id@ == offer.primary_master_title_id@ + "_"@
                + offer.multiplayer_id->0@ && c@ == config@,
            None => r == Err::<(String, String), CloudSyncError>(
                CloudSyncError::NoConfig(offer.offer_id),
            ),
        },
{
    let multiplayer = match &offer.multiplayer_id {
        Some(m) => m,
        None => return Err(CloudSyncError::NoConfig(offer.offer_id.clone())),
    };
    let head = concat(offer.primary_master_title_id.as_str(), "_");
    let id = concat(head.as_str(), multiplayer.as_str());
    proof {
        reveal_strlit("_");
    }
    match &offer.cloud_save_configuration_override {
        Some(config) => Ok((id, config.clone())),
        None => Err(CloudSyncError::NoConfig(offer.offer_id.clone())),
    }
}

/// The home directory saves live under inside a Proton prefix: the `steamuser` profile of
/// its `drive_c`.
pub fn home_dir(wine_prefix: &str) -> (r: String)
    ensures
        r@ == path_join(wine_prefix@, "drive_c/users/steamuser"@),
{
    path_join_exec(wine_prefix, "drive_c/users/steamuser")
}

/// A save path with its placeholder made concrete: `%Documents%` becomes the Documents
/// folder under `home`, or else `%SavedGames%` the Saved Games folder.
pub open spec fn substitute_spec(path: Seq<char>, home: Seq<char>) -> Seq<char> {
    if contains_spec(path, "%Documents%"@) {
        replace_spec(path, "%Documents%"@, path_join(home, "Documents"@))
    } else if contains_spec(path, "%SavedGames%"@) {
        replace_spec(path, "%SavedGames%"@, path_join(home, "Saved Games"@))
    } else {
        path
    }
}

pub fn substitute_paths(path: &str, home: &str) -> (r: String)
    ensures
        r@ == substitute_spec(path@, home@),
{
    proof {
        reveal_strlit("%Documents%");
        reveal_strlit("%SavedGames%");
    }
    if str_contains(path, "%Documents%") {
        let docs = path_join_exec(home, "Documents");
        replace_all(path, "%Documents%", docs.as_str())
    } else if str_contains(path, "%SavedGames%") {
        let saves = path_join_exec(home, "Saved Games");
        replace_all(path, "%SavedGames%", saves.as_str())
    } else {
        path.to_string()
    }
}

/// A local save path with the Documents or Saved Games folder under `home` written back
/// as its placeholder.
pub open spec fn unsubstitute_spec(path: Seq<char>, home: Seq<char>) -> Seq<char> {
    let docs = path_join(home, "Documents"@);
    let saves = path_join(home, "Saved Games"@);
    if contains_spec(path, docs) {
        replace_spec(path, docs, "%Documents%"@)
    } else if contains_spec(path, saves) {
        replace_spec(path, saves, "%SavedGames%"@)
    } else {
        path
    }
}

pub fn unsubstitute_paths(path: &str, home: &str) -> (r: String)
    ensures
        r@ == unsubstitute_spec(path@, home@),
{
    let docs = path_join_exec(home, "Documents");
    let saves = path_join_exec(home, "Saved Games");
    proof {
        reveal_strlit("Documents");
        reveal_strlit("Saved Games");
        assert(docs@.len() > 0);
        assert(saves@.len() > 0);
    }
    if str_contains(path, docs.as_str()) {
        replace_all(path, docs.as_str(), "%Documents%")
    } else if str_contains(path, saves.as_str()) {
        replace_all(path, saves.as_str(), "%SavedGames%")
    } else {
        path.to_string()
    }
}

proof fn lemma_replace_absent(s: Seq<char>, from: Seq<char>, to: Seq<char>)
    requires
        from.len() > 0,
        !contains_spec(s, from),
    ensures
        replace_spec(s, from, to) == s,
    decreases s.len(),
{
    if s.len() >= from.len() {
        if s.subrange(0, from.len() as int) == from {
            assert(s.subrange(0int, 0int + from.len()) == from);
        }
        assert forall|i: int| 0 <= i && i + from.len() <= s.skip(1).len() implies #[trigger] s.skip(1).subrange(i, i + from.len()) != from by {
            assert(s.skip(1).subrange(i, i + from.len()) =~= s.subrange(i + 1, i + 1 + from.len()));
        }
        lemma_replace_absent(s.skip(1), from, to);
        assert(seq![s[0]] + s.skip(1) =~= s);
    }
}

proof fn lemma_replace_leading(p: Seq<char>, rest: Seq<char>, to: Seq<char>)
    requires
        p.len() > 0,
        !contains_spec(rest, p),
    ensures
        replace_spec(p + rest, p, to) == to + rest,
        contains_spec(p + rest, p),
{
    assert((p + rest).subrange(0, p.len() as int) =~= p);
    assert((p + rest).subrange(0int, 0int + p.len()) == p);
    assert((p + rest).skip(p.len() as int) =~= rest);
    lemma_replace_absent(rest, p, to);
}

/// A save path that starts with the Documents placeholder comes back from its local form
/// unchanged, when the rest of it holds neither the placeholder nor the local Documents
/// folder.
pub proof fn lemma_documents_round_trip(rest: Seq<char>, home: Seq<char>)
    requires
        !contains_spec(rest, "%Documents%"@),
        !contains_spec(rest, path_join(home, "Documents"@)),
    ensures
        unsubstitute_spec(substitute_spec("%Documents%"@ + rest, home), home) == "%Documents%"@ + rest,
{
    let p = "%Documents%"@;
    let d = path_join(home, "Documents"@);
    reveal_strlit("%Documents%");
    reveal_strlit("Documents");
    assert(d.len() > 0);
    lemma_replace_leading(p, rest, d);
    lemma_replace_leading(d, rest, p);
}

/// A save path that starts with the Saved Games placeholder comes back from its local
/// form unchanged, when it holds no Documents placeholder, the rest of it holds neither the
/// placeholder nor the local Saved Games folder, and its local form does not hold the local
/// Documents folder.
pub proof fn lemma_saved_games_round_trip(rest: Seq<char>, home: Seq<char>)
    requires
        !contains_spec("%SavedGames%"@ + rest, "%Documents%"@),
        !contains_spec(rest, "%SavedGames%"@),
        !contains_spec(rest, path_join(home, "Saved Games"@)),
        !contains_spec(path_join(home, "Saved Games"@) + rest, path_join(home, "Documents"@)),
    ensures
        unsubstitute_spec(substitute_spec("%SavedGames%"@ + rest, home), home) == "%SavedGames%"@
            + rest,
{
    let p = "%SavedGames%"@;
    let g = path_join(home, "Saved Games"@);
    reveal_strlit("%SavedGames%");
    reveal_strlit("Saved Games");
    assert(g.len() > 0);
    lemma_replace_leading(p, rest, g);
    lemma_replace_leading(g, rest, p);
}

/// A text without the character at position `k` of `x` does not hold `x`.
proof fn lemma_missing_char(s: Seq<char>, x: Seq<char>, k: int)
    requires
        0 <= k < x.len(),
        forall|j: int| 0 <= j < s.len() ==> s[j] != x[k],
    ensures
        !contains_spec(s, x),
{
    if contains_spec(s, x) {
        let i = choose|i: int| 0 <= i && i + x.len() <= s.len() && #[trigger] s.subrange(i, i + x.len()) == x;
        assert(s.subrange(i, i + x.len())[k] == s[i + k]);
    }
}

/// `p + m` does not hold `p + t` when `t` starts with a character that `m` lacks.
proof fn lemma_shared_prefix(p: Seq<char>, m: Seq<char>, t: Seq<char>)
    requires
        t.len() > 0,
        forall|j: int| 0 <= j < m.len() ==> m[j] != t[0],
    ensures
        !contains_spec(p + m, p + t),
{
    let s = p + m;
    let x = p + t;
    if contains_spec(s, x) {
        let i = choose|i: int| 0 <= i && i + x.len() <= s.len() && #[trigger] s.subrange(i, i + x.len()) == x;
        assert(s.subrange(i, i + x.len())[p.len() as int] == s[i + p.len()]);
        assert(x[p.len() as int] == t[0]);
        assert(s[i + p.len()] == m[i]);
    }
}

/// The folder `rel` (not starting with `/`) under `home`: what joins before it, then it.
proof fn lemma_join_prefix(home: Seq<char>, rel: Seq<char>)
    requires
        rel.len() > 0,
        rel[0] != '/',
    ensures
        path_join(home, rel) == join_prefix(home) + rel,
{
    if home.len() > 0 && home.last() != '/' {
        assert(home + seq!['/'] + rel =~= (home + seq!['/']) + rel);
    } else if home.len() == 0 {
        assert(Seq::<char>::empty() + rel =~= rel);
    }
}

/// What `path_join` puts before a relative folder under `home`.
pub open spec fn join_prefix(home: Seq<char>) -> Seq<char> {
    if home.len() == 0 {
        Seq::empty()
    } else if home.last() == '/' {
        home
    } else {
        home + seq!['/']
    }
}

/// The save paths `%Documents%/Game/save.dat` and `%SavedGames%/Game/save.dat` come back
/// unchanged from their local form, whatever the home directory.
pub proof fn lemma_save_paths_round_trip(home: Seq<char>)
    ensures
        unsubstitute_spec(substitute_spec("%Documents%/Game/save.dat"@, home), home)
            == "%Documents%/Game/save.dat"@,
        unsubstitute_spec(substitute_spec("%SavedGames%/Game/save.dat"@, home), home)
            == "%SavedGames%/Game/save.dat"@,
{
    reveal_strlit("%Documents%/Game/save.dat");
    reveal_strlit("%SavedGames%/Game/save.dat");
    reveal_strlit("%Documents%");
    reveal_strlit("%SavedGames%");
    reveal_strlit("Documents");
    reveal_strlit("Saved Games");
    let rest = "/Game/save.dat"@;
    reveal_strlit("/Game/save.dat");
    let dp = "%Documents%"@;
    let sp = "%SavedGames%"@;
    assert(dp + rest =~= "%Documents%/Game/save.dat"@);
    assert(sp + rest =~= "%SavedGames%/Game/save.dat"@);
    let pre = join_prefix(home);
    lemma_join_prefix(home, "Documents"@);
    lemma_join_prefix(home, "Saved Games"@);
    let docs = path_join(home, "Documents"@);
    let saves = path_join(home, "Saved Games"@);
    assert(forall|j: int| 0 <= j < rest.len() ==> rest[j] != '%' && rest[j] != 'D' && rest[j] != 'S');
    lemma_missing_char(rest, dp, 0);
    lemma_missing_char(rest, sp, 0);
    assert(docs[pre.len() as int] == 'D');
    assert(saves[pre.len() as int] == 'S');
    lemma_missing_char(rest, docs, pre.len() as int);
    lemma_missing_char(rest, saves, pre.len() as int);
    lemma_documents_round_trip(rest, home);
    assert(forall|j: int| 0 <= j < (sp + rest).len() ==> (sp + rest)[j] != 'D');
    lemma_missing_char(sp + rest, dp, 1);
    let m = "Saved Games"@ + rest;
    assert(forall|j: int| 0 <= j < m.len() ==> m[j] != 'D');
    lemma_shared_prefix(pre, m, "Documents"@);
    assert(pre + m =~= saves + rest);
    lemma_saved_games_round_trip(rest, home);
}

/// The MD5 digest of some bytes.
pub uninterp spec fn md5_of(data: Seq<u8>) -> Seq<u8>;

/// `md5::compute(data)`: the 16-byte MD5 digest, named by `md5_of`.
#[verifier::external_body]
fn md5_compute(data: &[u8]) -> (r: [u8; 16])
    ensures
        r@ == md5_of(data@),
{
    md5::compute(data).0
}

/// The decimal numeral of `n`.
pub open spec fn decimal_nat(n: nat) -> Seq<char>
    decreases n,
{
    if n < 10 {
        seq![digit_char(n)]
    } else {
        decimal_nat(n / 10).push(digit_char(n % 10))
    }
}

pub(crate) fn decimal_u128_pub(n: u128) -> (r: String)
    ensures
        r@ == decimal_nat(n as nat),
    decreases n,
{
    let d = (n % 10) as u8;
    let c = (48u8 + d) as char;
    assert(c == digit_char((n % 10) as nat));
    if n < 10 {
        let mut s = String::new();
        push_char(&mut s, c);
        assert(s@ =~= seq![c]);
        s
    } else {
        let mut s = decimal_u128_pub(n / 10);
        push_char(&mut s, c);
        s
    }
}

/// The number whose little-endian bytes these are.
pub open spec fn le_value(b: Seq<u8>) -> nat
    decreases b.len(),
{
    if b.len() == 0 {
        0
    } else {
        b[0] as nat + 256 * le_value(b.drop_first())
    }
}

proof fn lemma_le_value_bound(b: Seq<u8>)
    ensures
        le_value(b) < vstd::arithmetic::power2::pow2(8 * b.len()),
    decreases b.len(),
{
    vstd::arithmetic::power2::lemma2_to64();
    if b.len() > 0 {
        let n = b.len();
        let p = vstd::arithmetic::power2::pow2(8 * (n - 1) as nat);
        lemma_le_value_bound(b.drop_first());
        vstd::arithmetic::power2::lemma_pow2_adds(8, 8 * (n - 1) as nat);
        assert(8 + 8 * (n - 1) as nat == 8 * n);
        assert(vstd::arithmetic::power2::pow2(8 * n) == 256 * p);
        assert(le_value(b) < 256 * p) by (nonlinear_arith)
            requires
                le_value(b) == b[0] as nat + 256 * le_value(b.drop_first()),
                b[0] <= 255,
                le_value(b.drop_first()) < p,
        ;
    }
}

fn le_u128(b: &[u8; 16]) -> (r: u128)
    ensures
        r as nat == le_value(b@),
{
    let mut v: u128 = 0;
    let mut i: usize = 16;
    proof {
        assert(b@.skip(16) =~= Seq::<u8>::empty());
    }
    while i > 0
        invariant
            i <= 16,
            v as nat == le_value(b@.skip(i as int)),
        decreases i,
    {
        i = i - 1;
        assert(b@.skip(i as int).drop_first() =~= b@.skip(i + 1));
        proof {
            lemma_le_value_bound(b@.skip(i as int));
            if i > 0 {
                vstd::arithmetic::power2::lemma_pow2_strictly_increases(8 * (16 - i) as nat, 128);
            }
            vstd::arithmetic::power2::lemma2_to64();
            assert(vstd::arithmetic::power2::pow2(128) == 0x1_0000_0000_0000_0000_0000_0000_0000_0000)
                by {
                vstd::arithmetic::power2::lemma_pow2_adds(64, 64);
            }
        }
        v = (b[i] as u128) + 256 * v;
    }
    assert(b@.skip(0) =~= b@);
    v
}

/// How the service writes a checksum as an `md5` attribute: the digest's bytes as a
/// little-endian number in decimal, padded with `=` to 24 characters.
pub open spec fn base62_spec(digest: Seq<u8>) -> Seq<char> {
    let d = decimal_nat(le_value(digest));
    if d.len() < 24 {
        d + Seq::new((24 - d.len()) as nat, |i: int| '=')
    } else {
        d
    }
}

/// The checksum of a file's bytes: the MD5 digest in lower-case hexadecimal, or in the
/// service's base-62 form.
pub fn file_md5(data: &[u8], base62: bool) -> (r: String)
    ensures
        base62 ==> r@ == base62_spec(md5_of(data@)),
        !base62 ==> r@ == hex_lower(md5_of(data@)),
{
    let digest = md5_compute(data);
    if !base62 {
        return hex_encode(&digest);
    }
    let mut b = decimal_u128_pub(le_u128(&digest));
    let ghost d = b@;
    let mut k: usize = b.as_str().unicode_len();
    if k >= 24 {
        return b;
    }
    while k < 24
        invariant
            d.len() <= k <= 24,
            b@ == d + Seq::new((k - d.len()) as nat, |i: int| '='),
        decreases 24 - k,
    {
        push_char(&mut b, '=');
        k = k + 1;
        assert(b@ =~= d + Seq::new((k - d.len()) as nat, |i: int| '='));
    }
    b
}

/// A file of the cloud save manifest.
#[derive(Debug, PartialEq)]
pub struct CloudSyncFile {
    pub attr_href: String,
    pub attr_size: String,
    pub attr_md5: Option<String>,
    pub local_name: String,
}

impl Clone for CloudSyncFile {
    fn clone(&self) -> (r: Self)
        ensures
            r == *self,
    {
        CloudSyncFile {
            attr_href: self.attr_href.clone(),
            attr_size: self.attr_size.clone(),
            attr_md5: match &self.attr_md5 {
                Some(m) => Some(m.clone()),
                None => None,
            },
            local_name: self.local_name.clone(),
        }
    }
}

/// The cloud save manifest: the files the service holds.
#[derive(Debug, PartialEq)]
pub struct CloudSyncManifest {
    pub attr_xmlns: String,
    pub file: Vec<CloudSyncFile>,
}

/// Files whose checksum is the given one.
pub open spec fn has_md5(md5: Seq<char>) -> spec_fn(CloudSyncFile) -> bool {
    |f: CloudSyncFile| f.attr_md5 matches Some(m) && m@ == md5
}

impl CloudSyncManifest {
    /// The first file with the given checksum.
    pub fn file_by_md5(&self, md5: &str) -> (r: Option<&CloudSyncFile>)
        ensures
            match first_index(self.file@, has_md5(md5@)) {
                Some(i) => r == Some(&self.file@[i]),
                None => r is None,
            },
    {
        let ghost p = has_md5(md5@);
        let mut i: usize = 0;
        while i < self.file.len()
            invariant
                i <= self.file@.len(),
                p == has_md5(md5@),
                forall|j: int| 0 <= j < i ==> !p(#[trigger] self.file@[j]),
            decreases self.file@.len() - i,
        {
            let found = match &self.file[i].attr_md5 {
                Some(m) => str_eq(m.as_str(), md5),
                None => false,
            };
            if found {
                proof {
                    lemma_first_index_found(self.file@, p, i as int);
                }
                return Some(&self.file[i]);
            }
            i = i + 1;
        }
        proof {
            lemma_first_index_none(self.file@, p);
        }
        None
    }
}

/// A request for access to one stored file.
#[derive(Debug, Clone, PartialEq)]
pub struct CloudSyncRequest {
    pub attr_id: String,
    pub verb: String,
    pub resource: String,
    pub md5: Option<String>,
    pub content_type: Option<String>,
}

/// Whether the local copy of a manifest file must be downloaded: it exists and its
/// checksum is none the manifest holds.
pub open spec fn needs_download(m: Seq<CloudSyncFile>, local_md5: Option<Seq<char>>) -> bool {
    match local_md5 {
        Some(md5) => first_index(m, has_md5(md5)) is None,
        None => false,
    }
}

/// The download requests of a read sync: for each manifest file (by position) whose
/// local copy exists with a checksum the manifest does not hold, a `GET` of its
/// reference, identified by its position.
pub open spec fn read_requests_spec(m: Seq<CloudSyncFile>, local: Seq<Option<Seq<char>>>, n: nat) -> Seq<(Seq<char>, Seq<char>, Seq<char>)>
    decreases n,
{
    if n == 0 {
        Seq::empty()
    } else {
        let i = (n - 1) as nat;
        let before = read_requests_spec(m, local, i);
        if needs_download(m, local[i as int]) {
            before.push((decimal_nat(i), "GET"@, m[i as int].attr_href@))
        } else {
            before
        }
    }
}

/// Whether an HTTP status is a success (`2xx`).
pub open spec fn is_success_status(status: u16) -> bool {
    200 <= status <= 299
}

/// Where an authorized download of a read sync is written: nothing when the storage
/// answered with an error status (its body is the error, and must not replace the save);
/// otherwise the local path recorded for the request's id (`paths` maps ids to paths, a
/// later entry of an id replacing an earlier one).
pub fn download_destination(status: u16, id: &str, paths: &Vec<(String, String)>) -> (r: Option<String>)
    requires
        is_success_status(status) ==> assoc_map(paths@).contains_key(id@),
    ensures
        !is_success_status(status) ==> r is None,
        is_success_status(status) ==> (r matches Some(p) && p@ == assoc_map(paths@)[id@]@),
{
    if status < 200 || status > 299 {
        return None;
    }
    match last_position(paths, id) {
        Some(i) => {
            proof {
                lemma_assoc_last(paths@, i as int);
            }
            Some(paths[i].1.clone())
        },
        None => {
            proof {
                lemma_assoc_absent(paths@, id@);
            }
            None
        },
    }
}

/// The id, verb and resource of each request.
pub open spec fn request_views(v: Seq<CloudSyncRequest>) -> Seq<(Seq<char>, Seq<char>, Seq<char>)> {
    v.map_values(|r: CloudSyncRequest| (r.attr_id@, r.verb@, r.resource@))
}

/// The checksums of local copies, absent where the file cannot be read.
pub open spec fn opt_views(v: Seq<Option<String>>) -> Seq<Option<Seq<char>>> {
    v.map_values(
        |o: Option<String>|
            match o {
                Some(s) => Some(s@),
                None => None,
            },
    )
}

fn decimal_usize(n: usize) -> (r: String)
    ensures
        r@ == decimal_nat(n as nat),
{
    decimal_u128_pub(n as u128)
}

impl CloudSyncManifest {
    /// The requests of a read sync, given the checksum of each manifest file's local copy.
    pub fn read_requests(&self, local_md5: &Vec<Option<String>>) -> (r: Vec<CloudSyncRequest>)
        requires
            local_md5.len() == self.file.len(),
        ensures
            request_views(r@) == read_requests_spec(
                self.file@,
                opt_views(local_md5@),
                self.file.len() as nat,
            ),
            forall|k: int| 0 <= k < r.len() ==> (#[trigger] r@[k]).md5 is None && r@[k].content_type is None,
    {
        let ghost lv = opt_views(local_md5@);
        let mut out: Vec<CloudSyncRequest> = Vec::new();
        let mut i: usize = 0;
        assert(request_views(out@) =~= Seq::<(Seq<char>, Seq<char>, Seq<char>)>::empty());
        while i < self.file.len()
            invariant
                i <= self.file.len(),
                local_md5.len() == self.file.len(),
                lv == opt_views(local_md5@),
                request_views(out@) == read_requests_spec(self.file@, lv, i as nat),
                forall|k: int| 0 <= k < out.len() ==> (#[trigger] out@[k]).md5 is None && out@[k].content_type is None,
            decreases self.file.len() - i,
        {
            let download = match &local_md5[i] {
                Some(md5) => self.file_by_md5(md5.as_str()).is_none(),
                None => false,
            };
            assert(lv[i as int] == match local_md5@[i as int] {
                Some(s) => Some(s@),
                None => None,
            });
            if download {
                let ghost old_out = request_views(out@);
                let req = CloudSyncRequest {
                    attr_id: decimal_usize(i),
                    verb: "GET".to_string(),
                    resource: self.file[i].attr_href.clone(),
                    md5: None,
                    content_type: None,
                };
                out.push(req);
                assert(request_views(out@) =~= old_out.push(
                    (decimal_nat(i as nat), "GET"@, self.file@[i as int].attr_href@),
                ));
            }
            i = i + 1;
        }
        out
    }
}

/// The name a file is stored under: its size, a dash, and its hexadecimal checksum.
pub open spec fn file_key_spec(size: u64, hex: Seq<char>) -> Seq<char> {
    decimal_nat(size as nat) + "-"@ + hex
}

pub fn file_key(size: u64, hex: &str) -> (r: String)
    ensures
        r@ == file_key_spec(size, hex@),
{
    let s = decimal_u128_pub(size as u128);
    let a = concat(s.as_str(), "-");
    concat(a.as_str(), hex)
}


/// A save file that a write sync may upload: its name with placeholders, its size, and its
/// checksum in both forms.
pub struct LocalSave {
    pub name: String,
    pub size: u64,
    pub hex: String,
    pub base62: String,
}

/// Whether the service holds no file with this save's checksum.
pub open spec fn not_stored(m: Seq<CloudSyncFile>) -> spec_fn(LocalSave) -> bool {
    |f: LocalSave| first_index(m, has_md5(f.hex@)) is None
}

/// The manifest files that saves with a stored checksum stand for, in the saves' order.
pub open spec fn kept_files(m: Seq<CloudSyncFile>, saves: Seq<LocalSave>) -> Seq<CloudSyncFile>
    decreases saves.len(),
{
    if saves.len() == 0 {
        Seq::empty()
    } else {
        match first_index(m, has_md5(saves.last().hex@)) {
            Some(i) => kept_files(m, saves.drop_last()).push(m[i]),
            None => kept_files(m, saves.drop_last()),
        }
    }
}

/// The request views: id, verb, resource, checksum and content type.
pub open spec fn full_request_view(r: CloudSyncRequest) -> (Seq<char>, Seq<char>, Seq<char>, Option<Seq<char>>, Option<Seq<char>>) {
    (
        r.attr_id@,
        r.verb@,
        r.resource@,
        match r.md5 {
            Some(m) => Some(m@),
            None => None,
        },
        match r.content_type {
            Some(c) => Some(c@),
            None => None,
        },
    )
}

/// What a write sync sends: the access requests (the manifest first, then each save to
/// upload), and the manifest it writes (the kept files, then the uploaded ones).
pub struct WritePlan {
    pub requests: Vec<CloudSyncRequest>,
    pub files: Vec<CloudSyncFile>,
}

/// The upload request of the `k`-th save to upload.
pub open spec fn upload_request(k: int, f: LocalSave) -> (Seq<char>, Seq<char>, Seq<char>, Option<Seq<char>>, Option<Seq<char>>) {
    (decimal_nat((k + 1) as nat), "PUT"@, file_key_spec(f.size, f.hex@), Some(f.base62@), None)
}

/// Whether a manifest file describes an uploaded save.
pub open spec fn uploaded_file(c: CloudSyncFile, f: LocalSave) -> bool {
    &&& c.attr_href@ == file_key_spec(f.size, f.hex@)
    &&& c.attr_size@ == decimal_nat(f.size as nat)
    &&& c.attr_md5 matches Some(m) && m@ == f.base62@
    &&& c.local_name@ == f.name@
}

impl CloudSyncManifest {
    /// Plans a write sync: nothing when every save is stored already.
    pub fn write_plan(&self, saves: &Vec<LocalSave>) -> (r: Option<WritePlan>)
        ensures
            ({
                let up = saves@.filter(not_stored(self.file@));
                let kept = kept_files(self.file@, saves@);
                &&& (r is None <==> up.len() == 0)
                &&& r matches Some(plan) ==> {
                    &&& plan.requests.len() == up.len() + 1
                    &&& full_request_view(plan.requests@[0]) == ("0"@, "PUT"@, "manifest.xml"@, None::<Seq<char>>, Some("text/xml"@))
                    &&& forall|k: int| 0 <= k < up.len() ==> full_request_view(#[trigger] plan.requests@[k + 1]) == upload_request(k, up[k])
                    &&& plan.files.len() == kept.len() + up.len()
                    &&& forall|k: int| 0 <= k < kept.len() ==> #[trigger] plan.files@[k] == kept[k]
                    &&& forall|k: int| 0 <= k < up.len() ==> uploaded_file(#[trigger] plan.files@[kept.len() + k], up[k])
                }
            }),
    {
        let ghost p = not_stored(self.file@);
        let mut kept: Vec<CloudSyncFile> = Vec::new();
        let mut up: Vec<usize> = Vec::new();
        let mut i: usize = 0;
        assert(saves@.take(0) =~= Seq::<LocalSave>::empty());
        proof {
            reveal(Seq::filter);
        }
        while i < saves.len()
            invariant
                i <= saves.len(),
                p == not_stored(self.file@),
                kept@ == kept_files(self.file@, saves@.take(i as int)),
                up.len() == saves@.take(i as int).filter(p).len(),
                forall|k: int| 0 <= k < up.len() ==> (#[trigger] up@[k]) < i && saves@[up@[k] as int] == saves@.take(i as int).filter(p)[k],
            decreases saves.len() - i,
        {
            proof {
                assert(saves@.take(i + 1).drop_last() =~= saves@.take(i as int));
                assert(saves@.take(i + 1).last() == saves@[i as int]);
                assert(saves@.take(i + 1) =~= saves@.take(i as int).push(saves@[i as int]));
                saves@.take(i as int).lemma_filter_push(saves@[i as int], p);
            }
            match self.file_by_md5(saves[i].hex.as_str()) {
                Some(f) => {
                    kept.push(f.clone());
                },
                None => {
                    up.push(i);
                },
            }
            i = i + 1;
        }
        assert(saves@.take(saves.len() as int) =~= saves@);
        if up.len() == 0 {
            return None;
        }
        let ghost ups = saves@.filter(p);
        let mut requests: Vec<CloudSyncRequest> = Vec::new();
        requests.push(
            CloudSyncRequest {
                attr_id: "0".to_string(),
                verb: "PUT".to_string(),
                resource: "manifest.xml".to_string(),
                md5: None,
                content_type: Some("text/xml".to_string()),
            },
        );
        let ghost n_kept = kept.len();
        let mut files = kept;
        let mut k: usize = 0;
        while k < up.len()
            invariant
                k <= up.len(),
                up.len() == ups.len(),
                forall|j: int| 0 <= j < up.len() ==> (#[trigger] up@[j]) < saves.len() && saves@[up@[j] as int] == ups[j],
                requests.len() == k + 1,
                full_request_view(requests@[0]) == ("0"@, "PUT"@, "manifest.xml"@, None::<Seq<char>>, Some("text/xml"@)),
                forall|j: int| 0 <= j < k ==> full_request_view(#[trigger] requests@[j + 1]) == upload_request(j, ups[j]),
                files.len() == n_kept + k,
                forall|j: int| 0 <= j < n_kept ==> #[trigger] files@[j] == kept_files(self.file@, saves@)[j],
                n_kept == kept_files(self.file@, saves@).len(),
                forall|j: int| 0 <= j < k ==> uploaded_file(#[trigger] files@[n_kept + j], ups[j]),
            decreases up.len() - k,
        {
            let s = &saves[up[k]];
            let key = file_key(s.size, s.hex.as_str());
            let id = decimal_u128_pub((k + 1) as u128);
            let ghost old_req = requests@;
            let ghost old_files = files@;
            requests.push(
                CloudSyncRequest {
                    attr_id: id,
                    verb: "PUT".to_string(),
                    resource: key.clone(),
                    md5: Some(s.base62.clone()),
                    content_type: None,
                },
            );
            files.push(
                CloudSyncFile {
                    attr_href: key,
                    attr_size: decimal_u128_pub(s.size as u128),
                    attr_md5: Some(s.base62.clone()),
                    local_name: s.name.clone(),
                },
            );
            proof {
                assert forall|j: int| 0 <= j < k + 1 implies full_request_view(
                    #[trigger] requests@[j + 1],
                ) == upload_request(j, ups[j]) by {
                    if j < k {
                        assert(requests@[j + 1] == old_req[j + 1]);
                    }
                }
                assert forall|j: int| 0 <= j < k + 1 implies uploaded_file(
                    #[trigger] files@[n_kept + j],
                    ups[j],
                ) by {
                    if j < k {
                        assert(files@[n_kept + j] == old_files[n_kept + j]);
                    }
                }
            }
            k = k + 1;
        }
        Some(WritePlan { requests, files })
    }
}
} // verus!
