//! The bootstrap program's command line: what each invocation asks for.

use crate::text::{
    concat, matches_at, replace_all, replace_spec, starts_with, starts_with_spec, str_eq,
};
use vstd::prelude::*;
use vstd::string::StrSliceExecFns;

verus! {

/// What an invocation of the bootstrap asks for.
#[derive(Debug, Clone, PartialEq)]
pub enum BootstrapAction {
    /// `--noop`: nothing, successfully.
    Noop,
    /// A `link2ea` link, which the launcher does not handle yet.
    Link2Ea,
    /// An `origin2` link to launch an offer.
    Origin2(String),
    /// The login page's redirect; the text after `login_successful.html?` (up to any
    /// second occurrence) is the query to hand to the login flow.
    LoginRedirect(String),
    /// `launch` with the encoded launch arguments.
    Launch(String),
    /// Nothing the bootstrap knows; it reports that it did not handle the invocation.
    Unhandled,
    /// No arguments: set up the background service.
    ServiceSetup,
}

/// The position of the first occurrence of `p` in `s` at or after `from`.
pub open spec fn find_from(s: Seq<char>, p: Seq<char>, from: int) -> Option<int>
    decreases s.len() + 1 - from,
{
    if from < 0 || from + p.len() > s.len() {
        None
    } else if s.subrange(from, from + p.len()) == p {
        Some(from)
    } else {
        find_from(s, p, from + 1)
    }
}

fn find_str(s: &Vec<char>, p: &Vec<char>, from: usize) -> (r: Option<usize>)
    requires
        from <= s@.len(),
    ensures
        r is None <==> find_from(s@, p@, from as int) is None,
        r matches Some(i) ==> find_from(s@, p@, from as int) == Some(i as int) && from <= i
            && i + p@.len() <= s@.len(),
{
    let n = s.len();
    let m = p.len();
    if m == 0 {
        assert(s@.subrange(from as int, from as int) =~= p@);
        return Some(from);
    }
    if m > n || from > n - m {
        return None;
    }
    let mut i = from;
    while i <= n - m
        invariant
            n == s@.len(),
            m == p@.len(),
            1 <= m <= n,
            from <= i <= n - m + 1,
            find_from(s@, p@, from as int) == find_from(s@, p@, i as int),
        decreases n - m + 1 - i,
    {
        if matches_at(s, i, p) {
            return Some(i);
        }
        i = i + 1;
    }
    None
}

/// The piece of `s` after the first occurrence of `p`, up to the next one (the second
/// piece of `str::split`); empty when `p` does not occur.
pub open spec fn second_piece(s: Seq<char>, p: Seq<char>) -> Seq<char> {
    match find_from(s, p, 0) {
        Some(i) => {
            let start = i + p.len();
            match find_from(s, p, start) {
                Some(j) => s.subrange(start, j),
                None => s.subrange(start, s.len() as int),
            }
        },
        None => Seq::empty(),
    }
}

/// `s.split(p).nth(1).unwrap_or_default()` for a non-empty pattern.
pub fn split_second(s: &str, p: &str) -> (r: String)
    requires
        p@.len() > 0,
    ensures
        r@ == second_piece(s@, p@),
{
    let cs = crate::text::chars_of(s);
    let ps = crate::text::chars_of(p);
    let n = cs.len();
    let found = find_str(&cs, &ps, 0);
    match found {
        Some(i) => {
            assert(i + ps@.len() <= cs@.len());
            let start = i + ps.len();
            let end = match find_str(&cs, &ps, start) {
                Some(j) => j,
                None => n,
            };
            s.substring_char(start, end).to_string()
        },
        None => String::new(),
    }
}

/// What an invocation asks for.
pub open spec fn bootstrap_action_spec(args: Seq<Seq<char>>) -> BootstrapActionView {
    if args.len() == 1 {
        let a = args[0];
        if a == "--noop"@ {
            BootstrapActionView::Noop
        } else if starts_with_spec(a, "link2ea"@) {
            BootstrapActionView::Link2Ea
        } else if starts_with_spec(a, "origin2"@) {
            BootstrapActionView::Origin2(a)
        } else if starts_with_spec(a, "qrc"@) {
            BootstrapActionView::LoginRedirect(second_piece(a, "login_successful.html?"@))
        } else {
            BootstrapActionView::Unhandled
        }
    } else if args.len() > 1 {
        if args[0] == "launch"@ {
            BootstrapActionView::Launch(args[1])
        } else {
            BootstrapActionView::Unhandled
        }
    } else {
        BootstrapActionView::ServiceSetup
    }
}

/// An action with its texts as character sequences.
pub enum BootstrapActionView {
    Noop,
    Link2Ea,
    Origin2(Seq<char>),
    LoginRedirect(Seq<char>),
    Launch(Seq<char>),
    Unhandled,
    ServiceSetup,
}

impl BootstrapAction {
    pub open spec fn view_spec(self) -> BootstrapActionView {
        match self {
            BootstrapAction::Noop => BootstrapActionView::Noop,
            BootstrapAction::Link2Ea => BootstrapActionView::Link2Ea,
            BootstrapAction::Origin2(s) => BootstrapActionView::Origin2(s@),
            BootstrapAction::LoginRedirect(s) => BootstrapActionView::LoginRedirect(s@),
            BootstrapAction::Launch(s) => BootstrapActionView::Launch(s@),
            BootstrapAction::Unhandled => BootstrapActionView::Unhandled,
            BootstrapAction::ServiceSetup => BootstrapActionView::ServiceSetup,
        }
    }
}

/// Reads the bootstrap's arguments (without the program name).
pub fn bootstrap_action(args: &Vec<String>) -> (r: BootstrapAction)
    ensures
        r.view_spec() == bootstrap_action_spec(crate::text::views(args@)),
{
    let ghost vs = crate::text::views(args@);
    assert(vs.len() == args.len());
    if args.len() == 1 {
        let a = args[0].as_str();
        assert(vs[0] == a@);
        if str_eq(a, "--noop") {
            return BootstrapAction::Noop;
        }
        if starts_with(a, "link2ea") {
            return BootstrapAction::Link2Ea;
        }
        if starts_with(a, "origin2") {
            return BootstrapAction::Origin2(a.to_string());
        }
        if starts_with(a, "qrc") {
            let pat = "login_successful.html?";
            proof {
                reveal_strlit("login_successful.html?");
            }
            return BootstrapAction::LoginRedirect(split_second(a, pat));
        }
        return BootstrapAction::Unhandled;
    }
    if args.len() > 1 {
        assert(vs[0] == args@[0]@ && vs[1] == args@[1]@);
        if str_eq(args[0].as_str(), "launch") {
            return BootstrapAction::Launch(args[1].clone());
        }
        return BootstrapAction::Unhandled;
    }
    BootstrapAction::ServiceSetup
}

/// The value of a hexadecimal digit byte of either case.
pub open spec fn hex_byte_value(b: u8) -> Option<u8> {
    if 48 <= b <= 57 {
        Some((b - 48) as u8)
    } else if 97 <= b <= 102 {
        Some((b - 87) as u8)
    } else if 65 <= b <= 70 {
        Some((b - 55) as u8)
    } else {
        None
    }
}

/// Percent-decoding of bytes: `%` and two hexadecimal digits stand for the byte they
/// spell; every other byte, a `%` that starts no such triple included, stands for itself.
pub open spec fn percent_decode_bytes(b: Seq<u8>) -> Seq<u8>
    decreases b.len(),
{
    if b.len() == 0 {
        Seq::empty()
    } else if b[0] == 37 && b.len() >= 3 && hex_byte_value(b[1]) is Some && hex_byte_value(b[2]) is Some {
        seq![(hex_byte_value(b[1])->0 * 16 + hex_byte_value(b[2])->0) as u8] + percent_decode_bytes(b.skip(3))
    } else {
        seq![b[0]] + percent_decode_bytes(b.skip(1))
    }
}

fn hex_byte_value_exec(b: u8) -> (r: Option<u8>)
    ensures
        r == hex_byte_value(b),
{
    if 48 <= b && b <= 57 {
        Some(b - 48)
    } else if 97 <= b && b <= 102 {
        Some(b - 87)
    } else if 65 <= b && b <= 70 {
        Some(b - 55)
    } else {
        None
    }
}

/// Decodes the percent-escapes of a URL component; nothing when the bytes they spell are
/// not UTF-8.
pub fn percent_decode(s: &str) -> (r: Option<String>)
    ensures
        match r {
            Some(t) => vstd::utf8::valid_utf8(percent_decode_bytes(vstd::utf8::encode_utf8(s@)))
                && t@ == vstd::utf8::decode_utf8(percent_decode_bytes(vstd::utf8::encode_utf8(s@))),
            None => !vstd::utf8::valid_utf8(percent_decode_bytes(vstd::utf8::encode_utf8(s@))),
        },
{
    let b = s.as_bytes();
    let n = b.len();
    let mut out: Vec<u8> = Vec::new();
    let mut i: usize = 0;
    assert(b@.skip(0) =~= b@);
    while i < n
        invariant
            n == b@.len(),
            i <= n,
            out@ + percent_decode_bytes(b@.skip(i as int)) == percent_decode_bytes(b@),
        decreases n - i,
    {
        let ghost rest = b@.skip(i as int);
        if b[i] == 37 && n - i >= 3 {
            let hi = hex_byte_value_exec(b[i + 1]);
            let lo = hex_byte_value_exec(b[i + 2]);
            if hi.is_some() && lo.is_some() {
                let v = hi.unwrap() * 16 + lo.unwrap();
                let ghost old_out = out@;
                out.push(v);
                assert(rest[1] == b@[i + 1] && rest[2] == b@[i + 2] && rest[0] == b@[i as int]);
                assert(rest.skip(3) =~= b@.skip(i + 3));
                assert(out@ + percent_decode_bytes(b@.skip(i + 3)) =~= old_out + (seq![v]
                    + percent_decode_bytes(rest.skip(3))));
                i = i + 3;
                continue;
            }
        }
        let ghost old_out = out@;
        out.push(b[i]);
        assert(rest[0] == b@[i as int]);
        assert(rest.skip(1) =~= b@.skip(i + 1));
        proof {
            if rest.len() >= 3 {
                assert(rest[1] == b@[i + 1] && rest[2] == b@[i + 2]);
            }
        }
        assert(out@ + percent_decode_bytes(b@.skip(i + 1)) =~= old_out + (seq![b@[i as int]]
            + percent_decode_bytes(rest.skip(1))));
        i = i + 1;
    }
    assert(b@.skip(n as int) =~= Seq::<u8>::empty());
    assert(out@ + Seq::<u8>::empty() =~= out@);
    crate::text::string_from_utf8(out)
}

/// The launch arguments an `origin2` link carries: its `cmdParams` decoded again, with
/// escaped quotes made plain.
pub open spec fn launch_args_of(cmd_params: Seq<char>) -> Option<Seq<char>> {
    let bytes = percent_decode_bytes(vstd::utf8::encode_utf8(cmd_params));
    if vstd::utf8::valid_utf8(bytes) {
        Some(replace_spec(vstd::utf8::decode_utf8(bytes), seq!['\\', '"'], seq!['"']))
    } else {
        None
    }
}

pub fn origin2_launch_args(cmd_params: &str) -> (r: Option<String>)
    ensures
        match launch_args_of(cmd_params@) {
            Some(a) => r matches Some(t) && t@ == a,
            None => r is None,
        },
{
    let decoded = match percent_decode(cmd_params) {
        Some(d) => d,
        None => return None,
    };
    let esc = "\\\"";
    let quote = "\"";
    proof {
        reveal_strlit("\\\"");
        reveal_strlit("\"");
        assert(esc@ =~= seq!['\\', '"']);
        assert(quote@ =~= seq!['"']);
    }
    Some(replace_all(decoded.as_str(), esc, quote))
}

/// The query part of a URL, when the text parses as an absolute URL (`url::Url::parse`).
pub uninterp spec fn url_query_of(text: Seq<char>) -> Option<Option<Seq<char>>>;

/// `url::Url::parse(text)` and the parsed URL's `query()`: nothing when the text is no
/// URL; otherwise its query, if it has one (named by `url_query_of`).
#[verifier::external_body]
pub(crate) fn parse_url_query(text: &str) -> (r: Option<Option<String>>)
    ensures
        match url_query_of(text@) {
            None => r is None,
            Some(None) => r == Some(None::<String>),
            Some(Some(q)) => r matches Some(Some(s)) && s@ == q,
        },
{
    match url::Url::parse(text) {
        Ok(u) => Some(u.query().map(|q| q.to_string())),
        Err(_) => None,
    }
}

/// The fragment of a URL, when the text parses as an absolute URL (`url::Url::parse`).
pub uninterp spec fn url_fragment_of(text: Seq<char>) -> Option<Option<Seq<char>>>;

/// `url::Url::parse(text)` and the parsed URL's `fragment()`: nothing when the text is no
/// URL; otherwise its fragment, if it has one (named by `url_fragment_of`).
#[verifier::external_body]
pub(crate) fn parse_url_fragment(text: &str) -> (r: Option<Option<String>>)
    ensures
        match url_fragment_of(text@) {
            None => r is None,
            Some(None) => r == Some(None::<String>),
            Some(Some(f)) => r matches Some(Some(s)) && s@ == f,
        },
{
    match url::Url::parse(text) {
        Ok(u) => Some(u.fragment().map(|f| f.to_string())),
        Err(_) => None,
    }
}

/// The decoded name/value pairs of `application/x-www-form-urlencoded` bytes, in order.
pub uninterp spec fn form_decode(input: Seq<u8>) -> Seq<(Seq<char>, Seq<char>)>;

/// The texts of name/value pairs.
pub open spec fn pair_texts(v: Seq<(String, String)>) -> Seq<(Seq<char>, Seq<char>)> {
    v.map_values(|p: (String, String)| (p.0@, p.1@))
}

/// `form_urlencoded::parse(query.as_bytes())`, each pair made owned: the pairs named by
/// `form_decode`.
#[verifier::external_body]
fn form_urlencoded_pairs(query: &str) -> (r: Vec<(String, String)>)
    ensures
        pair_texts(r@) == form_decode(vstd::utf8::encode_utf8(query@)),
{
    url::form_urlencoded::parse(query.as_bytes()).map(|(k, v)| (k.into_owned(), v.into_owned())).collect()
}

/// Bytes that the form serializer writes as they are.
pub open spec fn form_byte_unchanged(b: u8) -> bool {
    b == 42 || b == 45 || b == 46 || (48 <= b <= 57) || (65 <= b <= 90) || b == 95 || (97 <= b
        <= 122)
}

/// An upper-case hexadecimal digit.
pub open spec fn upper_hex_digit(v: nat) -> char {
    if v < 10 {
        ('0' as nat + v) as char
    } else {
        ('A' as nat + v - 10) as char
    }
}

/// The form serialization of bytes: `*-._`, digits and ASCII letters as they are, a space
/// as `+`, every other byte as `%` and two upper-case hexadecimal digits.
pub open spec fn form_byte_serialize(bytes: Seq<u8>) -> Seq<char>
    decreases bytes.len(),
{
    if bytes.len() == 0 {
        Seq::empty()
    } else {
        let b = bytes[0];
        let head = if form_byte_unchanged(b) {
            seq![b as char]
        } else if b == 32 {
            seq!['+']
        } else {
            seq!['%', upper_hex_digit((b / 16) as nat), upper_hex_digit((b % 16) as nat)]
        };
        head + form_byte_serialize(bytes.skip(1))
    }
}

/// `form_urlencoded::byte_serialize(bytes)`, collected into a string.
#[verifier::external_body]
fn form_byte_serialize_exec(bytes: &[u8]) -> (r: String)
    ensures
        r@ == form_byte_serialize(bytes@),
{
    url::form_urlencoded::byte_serialize(bytes).collect()
}

/// A form-urlencoded query of name/value pairs: `name=value` with both serialized, joined
/// by `&`.
pub open spec fn serialize_pairs(pairs: Seq<(Seq<char>, Seq<char>)>) -> Seq<char>
    decreases pairs.len(),
{
    if pairs.len() == 0 {
        Seq::empty()
    } else {
        let rest = serialize_pairs(pairs.drop_last());
        let p = pairs.last();
        let item = form_byte_serialize(vstd::utf8::encode_utf8(p.0)) + seq!['='] + form_byte_serialize(
            vstd::utf8::encode_utf8(p.1),
        );
        if pairs.len() > 1 {
            rest + seq!['&'] + item
        } else {
            item
        }
    }
}

/// The query the login redirect hands to the launcher: the pairs of the text after
/// `login_successful.html?`, serialized again.
pub fn login_query(arg: &str) -> (r: String)
    ensures
        r@ == serialize_pairs(
            form_decode(vstd::utf8::encode_utf8(second_piece(arg@, "login_successful.html?"@))),
        ),
{
    let pat = "login_successful.html?";
    proof {
        reveal_strlit("login_successful.html?");
    }
    let raw = split_second(arg, pat);
    let pairs = form_urlencoded_pairs(raw.as_str());
    let ghost ps = pair_texts(pairs@);
    let mut out = String::new();
    let mut i: usize = 0;
    assert(ps.take(0) =~= Seq::<(Seq<char>, Seq<char>)>::empty());
    while i < pairs.len()
        invariant
            i <= pairs.len(),
            ps == pair_texts(pairs@),
            ps.len() == pairs.len(),
            out@ == serialize_pairs(ps.take(i as int)),
        decreases pairs.len() - i,
    {
        assert(ps.take(i + 1).drop_last() =~= ps.take(i as int));
        assert(ps.take(i + 1).last() == (pairs@[i as int].0@, pairs@[i as int].1@));
        if i > 0 {
            crate::text::push_char(&mut out, '&');
        }
        let name = form_byte_serialize_exec(pairs[i].0.as_str().as_bytes());
        let value = form_byte_serialize_exec(pairs[i].1.as_str().as_bytes());
        crate::text::push_str(&mut out, name.as_str());
        crate::text::push_char(&mut out, '=');
        crate::text::push_str(&mut out, value.as_str());
        i = i + 1;
        proof {
            let item = form_byte_serialize(vstd::utf8::encode_utf8(ps[i - 1].0)) + seq!['=']
                + form_byte_serialize(vstd::utf8::encode_utf8(ps[i - 1].1));
            if i > 1 {
                assert(out@ =~= serialize_pairs(ps.take(i - 1)) + seq!['&'] + item);
            } else {
                assert(out@ =~= item);
            }
        }
    }
    assert(ps.take(pairs.len() as int) =~= ps);
    out
}

/// The value of the last pair with the given name.
pub open spec fn last_value(pairs: Seq<(Seq<char>, Seq<char>)>, name: Seq<char>) -> Option<Seq<char>>
    decreases pairs.len(),
{
    if pairs.len() == 0 {
        None
    } else if pairs.last().0 == name {
        Some(pairs.last().1)
    } else {
        last_value(pairs.drop_last(), name)
    }
}

fn find_last_value(pairs: &Vec<(String, String)>, name: &str) -> (r: Option<String>)
    ensures
        match last_value(pair_texts(pairs@), name@) {
            Some(v) => r matches Some(s) && s@ == v,
            None => r is None,
        },
{
    let ghost ps = pair_texts(pairs@);
    let mut i: usize = pairs.len();
    assert(ps.take(ps.len() as int) =~= ps);
    while i > 0
        invariant
            i <= pairs.len(),
            ps == pair_texts(pairs@),
            ps.len() == pairs.len(),
            last_value(ps, name@) == last_value(ps.take(i as int), name@),
        decreases i,
    {
        assert(ps.take(i as int).last() == (pairs@[i - 1].0@, pairs@[i - 1].1@));
        assert(ps.take(i as int).drop_last() =~= ps.take(i - 1));
        if crate::text::str_eq(pairs[i - 1].0.as_str(), name) {
            return Some(pairs[i - 1].1.clone());
        }
        i = i - 1;
    }
    None
}

/// Why an `origin2` link cannot be launched.
#[derive(Debug, Clone, Copy, PartialEq, Eq, Structural)]
pub enum Origin2Error {
    /// The link is not a URL.
    Url,
    /// The link names no offer.
    MissingOfferId,
    /// The link carries no launch parameters.
    MissingCmdParams,
    /// The launch parameters do not decode to text.
    Decode,
}

/// What an `origin2` link asks: the offer (`offerIds`) and the launch arguments
/// (`cmdParams`, decoded once more, with escaped quotes made plain); the last value of a
/// repeated name counts.
pub open spec fn origin2_spec(link: Seq<char>) -> Result<(Seq<char>, Seq<char>), Origin2Error> {
    match url_query_of(link) {
        None => Err(Origin2Error::Url),
        Some(q) => {
            let query = match q {
                Some(t) => t,
                None => Seq::empty(),
            };
            let pairs = form_decode(vstd::utf8::encode_utf8(query));
            match last_value(pairs, "offerIds"@) {
                None => Err(Origin2Error::MissingOfferId),
                Some(offer) => match last_value(pairs, "cmdParams"@) {
                    None => Err(Origin2Error::MissingCmdParams),
                    Some(params) => match launch_args_of(params) {
                        Some(a) => Ok((offer, a)),
                        None => Err(Origin2Error::Decode),
                    },
                },
            }
        },
    }
}

/// Reads an `origin2` link: the offer it names and the arguments to launch it with.
pub fn origin2_launch(link: &str) -> (r: Result<(String, String), Origin2Error>)
    ensures
        match origin2_spec(link@) {
            Ok((offer, args)) => r matches Ok((o, a)) && o@ == offer && a@ == args,
            Err(e) => r == Err::<(String, String), Origin2Error>(e),
        },
{
    let query = match parse_url_query(link) {
        None => return Err(Origin2Error::Url),
        Some(Some(q)) => q,
        Some(None) => String::new(),
    };
    let pairs = form_urlencoded_pairs(query.as_str());
    let offer = match find_last_value(&pairs, "offerIds") {
        Some(o) => o,
        None => return Err(Origin2Error::MissingOfferId),
    };
    let params = match find_last_value(&pairs, "cmdParams") {
        Some(p) => p,
        None => return Err(Origin2Error::MissingCmdParams),
    };
    match origin2_launch_args(params.as_str()) {
        Some(a) => Ok((offer, a)),
        None => Err(Origin2Error::Decode),
    }
}

} // verus!
