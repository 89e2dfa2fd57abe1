//! Files a user excluded from a game's download: glob patterns read from the game's
//! exclusion file, matched with `globset`.

use crate::downloader::as_unsigned;
use crate::text::{trim, trim_spec, views};
use crate::zip::{ZipEntryModel, ZipFileEntry};
use globset::{Glob, GlobSet, GlobSetBuilder};
use vstd::prelude::*;

verus! {

#[verifier::external_type_specification]
#[verifier::external_body]
pub struct ExGlob(Glob);

#[verifier::external_type_specification]
#[verifier::external_body]
pub struct ExGlobSet(GlobSet);

#[verifier::external_type_specification]
#[verifier::external_body]
pub struct ExGlobSetBuilder(GlobSetBuilder);

/// Whether `Glob::new` accepts a pattern.
pub uninterp spec fn glob_valid(pattern: Seq<char>) -> bool;

/// The pattern text a `Glob` was built from.
pub uninterp spec fn glob_pattern(g: Glob) -> Seq<char>;

/// The patterns added to a `GlobSetBuilder`, in order.
pub uninterp spec fn builder_patterns(b: GlobSetBuilder) -> Seq<Seq<char>>;

/// The patterns a `GlobSet` was built from, in order.
pub uninterp spec fn glob_set_patterns(s: GlobSet) -> Seq<Seq<char>>;

/// Whether `GlobSet::new` builds a set from these patterns.
pub uninterp spec fn glob_set_builds(patterns: Seq<Seq<char>>) -> bool;

/// Whether some pattern of a set built from `patterns` matches `path`.
pub uninterp spec fn glob_set_match(patterns: Seq<Seq<char>>, path: Seq<char>) -> bool;

/// `Glob::new(pattern)`: a glob of the pattern, when the pattern is valid glob syntax.
#[verifier::external_body]
fn glob_new(pattern: &str) -> (r: Option<Glob>)
    ensures
        r is Some <==> glob_valid(pattern@),
        r matches Some(g) ==> glob_pattern(g) == pattern@,
{
    match Glob::new(pattern) {
        Ok(g) => Some(g),
        Err(_) => None,
    }
}

/// `GlobSetBuilder::new()`: a builder with no pattern.
#[verifier::external_body]
fn glob_set_builder_new() -> (r: GlobSetBuilder)
    ensures
        builder_patterns(r) == Seq::<Seq<char>>::empty(),
{
    GlobSetBuilder::new()
}

/// `GlobSetBuilder::add`: appends the glob to the builder's patterns.
#[verifier::external_body]
fn glob_set_builder_add(b: &mut GlobSetBuilder, g: Glob)
    ensures
        builder_patterns(*final(b)) == builder_patterns(*old(b)).push(glob_pattern(g)),
{
    b.add(g);
}

/// `GlobSetBuilder::build`: a set of the builder's patterns, unless building it fails.
#[verifier::external_body]
fn glob_set_builder_build(b: &GlobSetBuilder) -> (r: Option<GlobSet>)
    ensures
        r is Some <==> glob_set_builds(builder_patterns(*b)),
        r matches Some(s) ==> glob_set_patterns(s) == builder_patterns(*b),
{
    match b.build() {
        Ok(s) => Some(s),
        Err(_) => None,
    }
}

/// `GlobSet::empty()`: the set without patterns.
#[verifier::external_body]
fn glob_set_empty() -> (r: GlobSet)
    ensures
        glob_set_patterns(r) == Seq::<Seq<char>>::empty(),
{
    GlobSet::empty()
}

/// `GlobSet::is_match(path)`: whether a pattern of the set matches the path; an empty set
/// matches nothing.
#[verifier::external_body]
fn glob_set_is_match(s: &GlobSet, path: &str) -> (r: bool)
    ensures
        r == glob_set_match(glob_set_patterns(*s), path@),
        glob_set_patterns(*s).len() == 0 ==> !r,
{
    s.is_match(path)
}

/// The pattern a line of an exclusion file gives: the trimmed line, unless it is empty or
/// a comment.
pub open spec fn exclusion_entry(line: Seq<char>) -> Option<Seq<char>> {
    let t = trim_spec(line);
    if t.len() > 0 && t[0] != '#' {
        Some(t)
    } else {
        None
    }
}

/// The valid patterns of an exclusion file's lines, in order.
pub open spec fn exclusion_patterns(lines: Seq<Seq<char>>) -> Seq<Seq<char>>
    decreases lines.len(),
{
    if lines.len() == 0 {
        Seq::empty()
    } else {
        let rest = exclusion_patterns(lines.drop_last());
        match exclusion_entry(lines.last()) {
            Some(t) => if glob_valid(t) {
                rest.push(t)
            } else {
                rest
            },
            None => rest,
        }
    }
}

/// The patterns of the exclusion set for a game's exclusion file (`None` when it could
/// not be read): its valid patterns, or none when they do not build into a set.
pub open spec fn exclusion_set_spec(lines: Option<Seq<Seq<char>>>) -> Seq<Seq<char>> {
    match lines {
        Some(ls) => {
            let p = exclusion_patterns(ls);
            if glob_set_builds(p) {
                p
            } else {
                Seq::empty()
            }
        },
        None => Seq::empty(),
    }
}

/// The exclusion set of a game, from the lines of its exclusion file.
pub fn get_exclusion_list(lines: Option<&Vec<String>>) -> (r: GlobSet)
    ensures
        glob_set_patterns(r) == exclusion_set_spec(
            match lines {
                Some(ls) => Some(views(ls@)),
                None => None,
            },
        ),
{
    let ls = match lines {
        Some(ls) => ls,
        None => return glob_set_empty(),
    };
    let ghost vs = views(ls@);
    let mut builder = glob_set_builder_new();
    let mut i: usize = 0;
    assert(vs.take(0) =~= Seq::<Seq<char>>::empty());
    while i < ls.len()
        invariant
            i <= ls.len(),
            vs == views(ls@),
            vs.len() == ls.len(),
            builder_patterns(builder) == exclusion_patterns(vs.take(i as int)),
        decreases ls.len() - i,
    {
        assert(vs.take(i + 1).drop_last() =~= vs.take(i as int));
        assert(vs.take(i + 1).last() == ls@[i as int]@);
        let entry = trim(ls[i].as_str());
        let n = entry.unicode_len();
        if n > 0 && entry.get_char(0) != '#' {
            match glob_new(entry) {
                Some(g) => glob_set_builder_add(&mut builder, g),
                None => {},
            }
        }
        i = i + 1;
    }
    assert(vs.take(ls.len() as int) =~= vs);
    match glob_set_builder_build(&builder) {
        Some(s) => s,
        None => glob_set_empty(),
    }
}

/// Entries whose name no pattern matches.
pub open spec fn not_excluded(patterns: Seq<Seq<char>>) -> spec_fn(ZipFileEntry) -> bool {
    |e: ZipFileEntry| !glob_set_match(patterns, e@.name)
}

/// The compressed bytes of entries, each size read as an unsigned number.
pub open spec fn compressed_total(es: Seq<ZipFileEntry>) -> int
    decreases es.len(),
{
    if es.len() == 0 {
        0
    } else {
        compressed_total(es.drop_last()) + as_unsigned(es.last()@.compressed_size)
    }
}

proof fn lemma_compressed_total_filter(es: Seq<ZipFileEntry>, p: spec_fn(ZipFileEntry) -> bool)
    ensures
        compressed_total(es.filter(p)) <= compressed_total(es),
    decreases es.len(),
{
    reveal(Seq::filter);
    if es.len() > 0 {
        lemma_compressed_total_filter(es.drop_last(), p);
        crate::zip::lemma_entry_sizes(es.last());
        if p(es.last()) {
            assert(es.filter(p).drop_last() =~= es.drop_last().filter(p));
        } else {
            assert(es.filter(p) =~= es.drop_last().filter(p));
        }
    }
}

/// The entries a download fetches, those no exclusion pattern matches, in archive order,
/// and the bytes it has to account for: their compressed sizes, plus one for the touchup
/// step at the end.
pub fn included_entries(entries: Vec<ZipFileEntry>, exclusion: &GlobSet) -> (r: (
    Vec<ZipFileEntry>,
    u64,
))
    requires
        compressed_total(entries@) + 1 <= u64::MAX,
    ensures
        r.0@ == entries@.filter(not_excluded(glob_set_patterns(*exclusion))),
        r.1 == compressed_total(r.0@) + 1,
{
    let ghost p = not_excluded(glob_set_patterns(*exclusion));
    let ghost orig = entries@;
    let mut kept: Vec<ZipFileEntry> = Vec::new();
    let mut total: u64 = 0;
    proof {
        reveal(Seq::filter);
        broadcast use vstd::std_specs::vec::axiom_spec_into_iter;
    }
    for e in it: entries.into_iter()
        invariant
            it.seq() == orig,
            kept@ == orig.take(it.index() as int).filter(p),
            total == compressed_total(kept@),
            compressed_total(orig) + 1 <= u64::MAX,
            p == not_excluded(glob_set_patterns(*exclusion)),
    {
        let ghost i = it.index() as int;
        proof {
            reveal(Seq::filter);
            assert(orig.take(i + 1).drop_last() =~= orig.take(i));
            assert(orig.take(i + 1).last() == e);
        }
        let excluded = glob_set_is_match(exclusion, e.name().as_str());
        if !excluded {
            let ghost before = kept@;
            proof {
                assert(p(e));
                assert(orig.take(i + 1).filter(p) == before.push(e));
                lemma_compressed_total_filter(orig.take(i + 1), p);
                lemma_compressed_total_prefix(orig, i + 1);
                crate::zip::lemma_entry_sizes(e);
                assert(before.push(e).drop_last() =~= before);
            }
            let size = *e.compressed_size();
            let size_unsigned: u64 = if size < 0 {
                (size as i128 + 0x1_0000_0000_0000_0000i128) as u64
            } else {
                size as u64
            };
            kept.push(e);
            total = total + size_unsigned;
        } else {
            proof {
                assert(!p(e));
                assert(orig.take(i + 1).filter(p) == kept@);
            }
        }
    }
    proof {
        assert(orig.take(orig.len() as int) =~= orig);
        lemma_compressed_total_filter(orig, p);
    }
    (kept, total + 1)
}

proof fn lemma_compressed_total_prefix(es: Seq<ZipFileEntry>, k: int)
    requires
        0 <= k <= es.len(),
    ensures
        compressed_total(es.take(k)) <= compressed_total(es),
    decreases es.len() - k,
{
    if k < es.len() {
        lemma_compressed_total_prefix(es, k + 1);
        assert(es.take(k + 1).drop_last() =~= es.take(k));
        assert(es.take(k + 1).last() == es[k]);
        crate::zip::lemma_entry_sizes(es[k]);
    } else {
        assert(es.take(k) =~= es);
    }
}

} // verus!
