//! Where a game is installed, and its Wine prefix.

use vstd::prelude::*;

verus! {

/// The install location of a game and, under Wine, its prefix.
pub struct GameInstallInfo {
    pub path: String,
    pub wine_prefix: Option<String>,
}

impl GameInstallInfo {
    pub fn new(path: String, wine_prefix: Option<String>) -> (r: Self)
        ensures
            r.path == path,
            r.wine_prefix == wine_prefix,
    {
        GameInstallInfo { path, wine_prefix }
    }

    pub fn path(&self) -> (r: String)
        ensures
            r == self.path,
    {
        self.path.clone()
    }

    pub fn wine_prefix(&self) -> (r: Option<String>)
        ensures
            r == self.wine_prefix,
    {
        match &self.wine_prefix {
            Some(p) => Some(p.clone()),
            None => None,
        }
    }
}

/// The stored form of a prefix: the empty string stands for no prefix.
pub open spec fn prefix_text(prefix: Option<String>) -> Seq<char> {
    match prefix {
        Some(p) => p@,
        None => Seq::empty(),
    }
}

/// The prefix a stored string stands for.
pub fn prefix_from_string(s: String) -> (r: Option<String>)
    ensures
        s@.len() == 0 ==> r is None,
        s@.len() > 0 ==> r == Some(s),
{
    if s.as_str().is_empty() {
        None
    } else {
        Some(s)
    }
}

/// The string a prefix is stored as.
pub fn prefix_to_string(prefix: &Option<String>) -> (r: String)
    ensures
        r@ == prefix_text(*prefix),
{
    match prefix {
        Some(p) => p.clone(),
        None => String::new(),
    }
}

/// Storing a prefix and reading it back gives it again, except an empty prefix, which
/// reads back as none.
pub proof fn lemma_prefix_round_trip(prefix: Option<String>, stored: String, read: Option<String>)
    requires
        stored@ == prefix_text(prefix),
        stored@.len() == 0 ==> read is None,
        stored@.len() > 0 ==> read == Some(stored),
        !(prefix matches Some(p) && p@.len() == 0),
    ensures
        match prefix {
            Some(p) => read matches Some(q) && q@ == p@,
            None => read is None,
        },
{
}

} // verus!
