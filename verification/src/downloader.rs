//! Downloading one file of a game's zip archive: what to request of the server, when to
//! retry, and when to save the decompressor's state.

use crate::cloudsync::decimal_nat;
use crate::text::{concat, push_char, replace_all, replace_spec};
use crate::zip::{ZipEntryModel, ZipFileEntry};
use vstd::prelude::*;
use vstd::string::StrSliceExecFns;

verus! {

/// How often the decompressor's state is saved, in bytes written.
pub const STATE_SAVE_INTERVAL: usize = 1_048_576;

/// How many times a range request is tried.
pub const MAX_RETRIES: u32 = 3;

/// What downloading an entry takes.
#[derive(Debug, Clone, Copy, PartialEq, Eq, Structural)]
pub enum EntryPlan {
    /// The entry is a directory: it is only created.
    Directory,
    /// The entry has no content.
    Empty,
    /// Everything has been downloaded already.
    Complete,
    /// The bytes `start..=end` of the archive are still to be fetched.
    Range { start: i64, end: i64 },
}

/// Why an entry cannot be downloaded.
#[derive(Debug, Clone, Copy, PartialEq, Eq, Structural)]
pub enum DownloadError {
    /// The range to fetch would be empty or reversed.
    InvalidRange { start: i64, end: i64 },
    /// The server answered a resumed download with something else than partial content.
    RangeIgnored(u16),
    /// The server answered with a failure status.
    Status(u16),
}

/// An entry's name with backslashes made forward slashes.
pub open spec fn entry_path(name: Seq<char>) -> Seq<char> {
    replace_spec(name, seq!['\\'], seq!['/'])
}

/// A size as the unsigned number it is compared as.
pub open spec fn as_unsigned(x: int) -> int {
    if x < 0 {
        x + 0x1_0000_0000_0000_0000
    } else {
        x
    }
}

/// Whether an entry's range is computed at all: it is neither a directory nor empty.
pub open spec fn needs_range(e: ZipEntryModel) -> bool {
    let p = entry_path(e.name);
    !(p.len() > 0 && p.last() == '/') && e.uncompressed_size != 0
}

/// The plan for an entry, `done` compressed bytes of it being on disk already.
pub open spec fn plan_spec(e: ZipEntryModel, done: u64) -> Result<EntryPlan, DownloadError> {
    let p = entry_path(e.name);
    if p.len() > 0 && p.last() == '/' {
        Ok(EntryPlan::Directory)
    } else if e.uncompressed_size == 0 {
        Ok(EntryPlan::Empty)
    } else {
        let start = e.data_offset + done;
        let end = e.data_offset + e.compressed_size - 1;
        if done >= as_unsigned(e.compressed_size) {
            Ok(EntryPlan::Complete)
        } else if start > end {
            Err(DownloadError::InvalidRange { start: start as i64, end: end as i64 })
        } else {
            Ok(EntryPlan::Range { start: start as i64, end: end as i64 })
        }
    }
}

/// Where the range's ends fit in 64-bit offsets (as `plan_entry_download` requires), a
/// planned range starts at the entry's data plus the bytes already on disk and covers
/// exactly the compressed bytes still missing, which are then more than none; an entry
/// that is neither a directory nor empty is planned as a range exactly when bytes are
/// missing and the range is not reversed.
pub proof fn lemma_plan_range(e: ZipEntryModel, done: u64)
    requires
        needs_range(e) ==> {
            &&& i64::MIN <= e.data_offset + done <= i64::MAX
            &&& i64::MIN <= e.data_offset + e.compressed_size - 1 <= i64::MAX
        },
    ensures
        plan_spec(e, done) matches Ok(EntryPlan::Range { start, end }) ==> {
            &&& start == e.data_offset + done
            &&& end - start + 1 == e.compressed_size - done
            &&& done < as_unsigned(e.compressed_size)
            &&& start <= end
        },
        needs_range(e) && done < as_unsigned(e.compressed_size) && e.data_offset + done
            <= e.data_offset + e.compressed_size - 1 ==> plan_spec(e, done) is Ok
            && plan_spec(e, done)->Ok_0 is Range,
        needs_range(e) && done >= as_unsigned(e.compressed_size) ==> plan_spec(e, done) == Ok::<
            EntryPlan,
            DownloadError,
        >(EntryPlan::Complete),
{
}

/// Plans the download of an entry.
pub fn plan_entry_download(entry: &ZipFileEntry, done: u64) -> (r: Result<EntryPlan, DownloadError>)
    requires
        needs_range(entry@) ==> {
            &&& done <= i64::MAX
            &&& i64::MIN <= entry@.data_offset + done <= i64::MAX
            &&& i64::MIN <= entry@.data_offset + entry@.compressed_size <= i64::MAX
            &&& i64::MIN <= entry@.data_offset + entry@.compressed_size - 1 <= i64::MAX
        },
    ensures
        r == plan_spec(entry@, done),
        r matches Ok(EntryPlan::Range { start, end }) ==> start == entry@.data_offset + done
            && end - start + 1 == entry@.compressed_size - done,
{
    let backslash = "\\";
    let slash = "/";
    proof {
        reveal_strlit("\\");
        reveal_strlit("/");
        assert(backslash@ =~= seq!['\\']);
        assert(slash@ =~= seq!['/']);
    }
    let path = replace_all(entry.name().as_str(), backslash, slash);
    let n = path.as_str().unicode_len();
    if n > 0 && path.as_str().get_char(n - 1) == '/' {
        return Ok(EntryPlan::Directory);
    }
    if *entry.uncompressed_size() == 0 {
        return Ok(EntryPlan::Empty);
    }
    let offset = *entry.data_offset();
    let size = *entry.compressed_size();
    let start = offset + (done as i64);
    let end = offset + size - 1;
    let size_unsigned: u64 = if size < 0 {
        (size as i128 + 0x1_0000_0000_0000_0000i128) as u64
    } else {
        size as u64
    };
    if done >= size_unsigned {
        return Ok(EntryPlan::Complete);
    }
    if start > end {
        return Err(DownloadError::InvalidRange { start, end });
    }
    Ok(EntryPlan::Range { start, end })
}

/// The decimal numeral of a signed number.
pub open spec fn signed_decimal(x: int) -> Seq<char> {
    if x < 0 {
        seq!['-'] + decimal_nat((-x) as nat)
    } else {
        decimal_nat(x as nat)
    }
}

fn decimal_i64(x: i64) -> (r: String)
    ensures
        r@ == signed_decimal(x as int),
{
    proof {
        reveal_strlit("-");
        assert("-"@ =~= seq!['-']);
    }
    if x < 0 {
        let mag: u128 = (-(x as i128)) as u128;
        let digits = crate::cloudsync::decimal_u128_pub(mag);
        concat("-", digits.as_str())
    } else {
        crate::cloudsync::decimal_u128_pub(x as u128)
    }
}

/// The `Range` header for the bytes `start..=end`.
pub fn range_header(start: i64, end: i64) -> (r: String)
    ensures
        r@ == "bytes="@ + signed_decimal(start as int) + "-"@ + signed_decimal(end as int),
{
    let s = decimal_i64(start);
    let e = decimal_i64(end);
    let a = concat("bytes=", s.as_str());
    let b = concat(a.as_str(), "-");
    concat(b.as_str(), e.as_str())
}

/// Whether the server's answer to a range request can be used: a resumed download must get
/// partial content (206), and any answer must be a success (2xx).
pub fn check_range_response(done: u64, status: u16) -> (r: Result<(), DownloadError>)
    ensures
        done > 0 && status != 206 ==> r == Err::<(), DownloadError>(DownloadError::RangeIgnored(status)),
        !(done > 0 && status != 206) && !(200 <= status <= 299) ==> r == Err::<(), DownloadError>(
            DownloadError::Status(status),
        ),
        !(done > 0 && status != 206) && 200 <= status <= 299 ==> r is Ok,
{
    if done > 0 && status != 206 {
        return Err(DownloadError::RangeIgnored(status));
    }
    if !(200 <= status && status <= 299) {
        return Err(DownloadError::Status(status));
    }
    Ok(())
}

/// After the `attempt`-th failed request: the seconds to wait before trying again (two to
/// the attempt), or nothing once the retries are spent.
pub fn retry_delay(attempt: u32) -> (r: Option<u64>)
    ensures
        attempt < MAX_RETRIES ==> r == Some(vstd::arithmetic::power2::pow2(attempt as nat) as u64),
        attempt >= MAX_RETRIES ==> r is None,
{
    if attempt < MAX_RETRIES {
        proof {
            vstd::arithmetic::power2::lemma2_to64();
        }
        let d: u64 = if attempt == 0 {
            1
        } else if attempt == 1 {
            2
        } else {
            4
        };
        Some(d)
    } else {
        None
    }
}

/// The file a decompressor's state is saved in: the entry's name with slashes and
/// backslashes made underscores, and `.state`.
pub open spec fn state_file_spec(name: Seq<char>) -> Seq<char> {
    name.map_values(|c: char| if c == '/' || c == '\\' { '_' } else { c }) + ".state"@
}

pub fn state_file_name(name: &str) -> (r: String)
    ensures
        r@ == state_file_spec(name@),
{
    let n = name.unicode_len();
    let mut s = String::new();
    let mut i: usize = 0;
    while i < n
        invariant
            n == name@.len(),
            i <= n,
            s@ == name@.take(i as int).map_values(
                |c: char|
                    if c == '/' || c == '\\' {
                        '_'
                    } else {
                        c
                    },
            ),
        decreases n - i,
    {
        let c = name.get_char(i);
        let d = if c == '/' || c == '\\' {
            '_'
        } else {
            c
        };
        push_char(&mut s, d);
        i = i + 1;
        assert(s@ =~= name@.take(i as int).map_values(
            |c: char|
                if c == '/' || c == '\\' {
                    '_'
                } else {
                    c
                },
        ));
    }
    assert(name@.take(n as int) =~= name@);
    concat(s.as_str(), ".state")
}

/// How much a decompressor has written, and whether its state is due to be saved.
pub struct SaveTracker {
    pub bytes_written: usize,
    pub bytes_since_last: usize,
    pub should_save: bool,
}

impl SaveTracker {
    pub fn new() -> (r: Self)
        ensures
            r.bytes_written == 0,
            r.bytes_since_last == 0,
            !r.should_save,
    {
        SaveTracker { bytes_written: 0, bytes_since_last: 0, should_save: false }
    }

    /// Counts bytes written; the state is due once a save interval has passed since the
    /// last save.
    pub fn update_bytes_written(&mut self, bytes: usize)
        requires
            old(self).bytes_written + bytes <= usize::MAX,
            old(self).bytes_since_last + bytes <= usize::MAX,
        ensures
            final(self).bytes_written == old(self).bytes_written + bytes,
            final(self).bytes_since_last == old(self).bytes_since_last + bytes,
            final(self).should_save == (final(self).bytes_since_last >= STATE_SAVE_INTERVAL),
    {
        self.bytes_written = self.bytes_written + bytes;
        self.bytes_since_last = self.bytes_since_last + bytes;
        self.should_save = self.bytes_since_last >= STATE_SAVE_INTERVAL;
    }

    /// The state has been saved.
    pub fn saved(&mut self)
        ensures
            final(self).bytes_since_last == 0,
            final(self).bytes_written == old(self).bytes_written,
            final(self).should_save == old(self).should_save,
    {
        self.bytes_since_last = 0;
    }
}

} // verus!
