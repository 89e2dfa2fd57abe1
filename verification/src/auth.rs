//! Logging in to EA: the query strings the login flows read, the redirect of the auth
//! exchange, and the answer of the license service to a direct login.

use crate::ooa::{param_views, EMAIL_PATTERN};
use crate::pattern::{pattern_matches, regex_is_match};
use crate::text::{
    concat, push_char, replace_all, replace_spec, starts_with, starts_with_spec,
    str_eq, trim, trim_spec, views,
};
use vstd::prelude::*;
use vstd::string::StrSliceExecFns;

verus! {

/// A value attribute of the license service's login answer.
#[derive(Debug, Clone, PartialEq)]
pub struct NovaLoginValue {
    pub value: String,
}

#[derive(Debug, Clone, Copy, PartialEq, Eq, Structural)]
pub enum NovaLoginErrorCode {
    InvalidPassword,
    ValidationFailed,
}

/// The license service's answer to a direct login.
#[derive(Debug, Clone, PartialEq)]
pub struct NovaLoginError {
    pub code: NovaLoginErrorCode,
    pub auth_token: Option<NovaLoginValue>,
}

#[derive(Debug, Clone, PartialEq)]
pub struct NovaLoginResponse {
    pub error: NovaLoginError,
}

/// The tokens of an authorization code exchange.
#[derive(Debug, Clone, PartialEq)]
pub struct TokenResponse {
    pub access_token: String,
    pub token_type: String,
    pub expires_in: u32,
    pub refresh_token: String,
    pub refresh_token_expires_in: u32,
}

/// Why a login step failed.
#[derive(Debug, Clone, PartialEq)]
pub enum LoginError {
    /// The license service did not answer a login with a conflict.
    NotAcknowledged,
    /// The license service refused the login.
    Refused(NovaLoginErrorCode),
    /// The exchange was sent to the sign-in page: two-factor authentication is on.
    TwoFactor,
    /// The redirect is not a URL.
    InvalidRedirect,
    /// The redirect carries no query (or fragment).
    NoQuery,
    /// The redirect's query has no value for the requested response type.
    NoToken,
}

/// `str::split` with a character: the pieces between the separators, at least one.
pub open spec fn split_from(s: Seq<char>, c: char, cur: Seq<char>) -> Seq<Seq<char>>
    decreases s.len(),
{
    if s.len() == 0 {
        seq![cur]
    } else if s[0] == c {
        seq![cur] + split_from(s.drop_first(), c, Seq::empty())
    } else {
        split_from(s.drop_first(), c, cur.push(s[0]))
    }
}

pub open spec fn split_spec(s: Seq<char>, c: char) -> Seq<Seq<char>> {
    split_from(s, c, Seq::empty())
}

/// `str::split` with a character.
pub fn split_char(s: &str, c: char) -> (r: Vec<String>)
    ensures
        views(r@) == split_spec(s@, c),
{
    let n = s.unicode_len();
    let mut r: Vec<String> = Vec::new();
    let mut cur = String::new();
    let mut i: usize = 0;
    assert(s@.skip(0) =~= s@);
    assert(views(r@) =~= Seq::<Seq<char>>::empty());
    assert(cur@ =~= Seq::<char>::empty());
    while i < n
        invariant
            n == s@.len(),
            i <= n,
            views(r@) + split_from(s@.skip(i as int), c, cur@) == split_spec(s@, c),
        decreases n - i,
    {
        let d = s.get_char(i);
        assert(s@.skip(i as int).drop_first() =~= s@.skip(i + 1));
        if d == c {
            let ghost old_r = views(r@);
            let ghost w = cur@;
            r.push(cur);
            assert(views(r@) =~= old_r.push(w));
            cur = String::new();
            assert(cur@ =~= Seq::<char>::empty());
            assert(views(r@) + split_from(s@.skip(i + 1), c, cur@) =~= old_r + (seq![w]
                + split_from(s@.skip(i + 1), c, Seq::empty())));
        } else {
            push_char(&mut cur, d);
        }
        i = i + 1;
    }
    assert(s@.skip(n as int) =~= Seq::<char>::empty());
    let ghost old_r = views(r@);
    let ghost w = cur@;
    r.push(cur);
    assert(views(r@) =~= old_r + seq![w]);
    r
}

/// The key and value of a query piece: the text before its first `=` and that between
/// the first and any second `=`; nothing for a piece without `=`.
pub open spec fn query_pair(piece: Seq<char>) -> Option<(Seq<char>, Seq<char>)> {
    let parts = split_spec(piece, '=');
    if parts.len() >= 2 {
        Some((parts[0], parts[1]))
    } else {
        None
    }
}

/// The pairs of a query string (`querystring::querify`): its `&`-separated pieces that
/// hold an `=`, in order.
pub open spec fn querify_from(pieces: Seq<Seq<char>>) -> Seq<(Seq<char>, Seq<char>)>
    decreases pieces.len(),
{
    if pieces.len() == 0 {
        Seq::empty()
    } else {
        match query_pair(pieces.last()) {
            Some(p) => querify_from(pieces.drop_last()).push(p),
            None => querify_from(pieces.drop_last()),
        }
    }
}

pub open spec fn querify_spec(s: Seq<char>) -> Seq<(Seq<char>, Seq<char>)> {
    querify_from(split_spec(s, '&'))
}

/// The views of key/value pairs.
pub open spec fn kv_views(v: Seq<(String, String)>) -> Seq<(Seq<char>, Seq<char>)> {
    v.map_values(|p: (String, String)| (p.0@, p.1@))
}

/// `querystring::querify`.
pub fn querify(s: &str) -> (r: Vec<(String, String)>)
    ensures
        kv_views(r@) == querify_spec(s@),
{
    let pieces = split_char(s, '&');
    let ghost ps = views(pieces@);
    let mut out: Vec<(String, String)> = Vec::new();
    let mut i: usize = 0;
    assert(ps.take(0) =~= Seq::<Seq<char>>::empty());
    assert(kv_views(out@) =~= Seq::<(Seq<char>, Seq<char>)>::empty());
    while i < pieces.len()
        invariant
            i <= pieces.len(),
            ps == views(pieces@),
            ps.len() == pieces.len(),
            kv_views(out@) == querify_from(ps.take(i as int)),
        decreases pieces.len() - i,
    {
        assert(ps.take(i + 1).drop_last() =~= ps.take(i as int));
        assert(ps.take(i + 1).last() == pieces@[i as int]@);
        let parts = split_char(pieces[i].as_str(), '=');
        assert(views(parts@).len() == parts.len());
        if parts.len() >= 2 {
            assert(views(parts@)[0] == parts@[0]@);
            assert(views(parts@)[1] == parts@[1]@);
            let ghost old_out = kv_views(out@);
            out.push((parts[0].clone(), parts[1].clone()));
            assert(kv_views(out@) =~= old_out.push((parts@[0]@, parts@[1]@)));
        }
        i = i + 1;
    }
    assert(ps.take(pieces.len() as int) =~= ps);
    out
}

/// Pairs with the given key.
pub open spec fn has_key(key: Seq<char>) -> spec_fn((Seq<char>, Seq<char>)) -> bool {
    |p: (Seq<char>, Seq<char>)| p.0 == key
}

/// The value of the first pair with the given key.
pub open spec fn query_value(pairs: Seq<(Seq<char>, Seq<char>)>, key: Seq<char>) -> Option<Seq<char>> {
    match crate::search::first_index(pairs, has_key(key)) {
        Some(i) => Some(pairs[i].1),
        None => None,
    }
}

pub fn find_query_value(pairs: &Vec<(String, String)>, key: &str) -> (r: Option<String>)
    ensures
        match query_value(kv_views(pairs@), key@) {
            Some(v) => r matches Some(s) && s@ == v,
            None => r is None,
        },
{
    let ghost kv = kv_views(pairs@);
    let ghost p = has_key(key@);
    let mut i: usize = 0;
    while i < pairs.len()
        invariant
            i <= pairs.len(),
            kv == kv_views(pairs@),
            kv.len() == pairs.len(),
            p == has_key(key@),
            forall|j: int| 0 <= j < i ==> !p(#[trigger] kv[j]),
        decreases pairs.len() - i,
    {
        assert(kv[i as int] == (pairs@[i as int].0@, pairs@[i as int].1@));
        if str_eq(pairs[i].0.as_str(), key) {
            proof {
                crate::search::lemma_first_index_found(kv, p, i as int);
            }
            return Some(pairs[i].1.clone());
        }
        i = i + 1;
    }
    proof {
        crate::search::lemma_first_index_none(kv, p);
    }
    None
}

/// The token in the first request line of the browser's callback: for a line of the
/// callback (`GET /auth`), the `access_token` of the query after its first `?`, trimmed;
/// nothing for other lines (the flow waits for the next connection).
pub open spec fn oauth_callback_spec(line: Seq<char>) -> Option<Option<Seq<char>>> {
    if !starts_with_spec(line, "GET /auth"@) {
        None
    } else {
        match crate::text::char_index(line, '?') {
            Some(q) => Some(query_value(querify_spec(trim_spec(line.skip(q + 1))), "access_token"@)),
            None => Some(None),
        }
    }
}

/// What a line read by the login callback server says: `None` when it is not the
/// callback, else the access token it carries, if any.
pub fn oauth_callback_token(line: &str) -> (r: Option<Option<String>>)
    ensures
        match oauth_callback_spec(line@) {
            None => r is None,
            Some(None) => r == Some(None::<String>),
            Some(Some(t)) => r matches Some(Some(s)) && s@ == t,
        },
{
    if !starts_with(line, "GET /auth") {
        return None;
    }
    match crate::text::find_char(line, '?') {
        Some(q) => {
            let n = line.unicode_len();
            let rest = line.substring_char(q + 1, n);
            assert(rest@ =~= line@.skip(q + 1));
            let pairs = querify(trim(rest));
            Some(find_query_value(&pairs, "access_token"))
        },
        None => Some(None),
    }
}

/// The query of a direct login through the license service: content id `1`, the
/// persona as e-mail or persona name, and the password. Nothing when the e-mail pattern
/// does not compile.
pub fn manual_login_query(persona: &str, password: &str) -> (r: Option<Vec<(String, String)>>)
    ensures
        match regex_is_match(EMAIL_PATTERN@, persona@) {
            Some(is_email) => r matches Some(v) && param_views(v@) == seq![
                ("contentId"@, "1"@),
                (if is_email {
                    "ea_email"@
                } else {
                    "ea_persona"@
                }, persona@),
                ("ea_password"@, password@),
            ],
            None => r is None,
        },
{
    let is_email = match pattern_matches(EMAIL_PATTERN, persona) {
        Some(b) => b,
        None => return None,
    };
    let mut v: Vec<(String, String)> = Vec::new();
    v.push(("contentId".to_string(), "1".to_string()));
    if is_email {
        v.push(("ea_email".to_string(), persona.to_string()));
    } else {
        v.push(("ea_persona".to_string(), persona.to_string()));
    }
    v.push(("ea_password".to_string(), password.to_string()));
    assert(param_views(v@) =~= seq![
        ("contentId"@, "1"@),
        (if is_email {
            "ea_email"@
        } else {
            "ea_persona"@
        }, persona@),
        ("ea_password"@, password@),
    ]);
    Some(v)
}

/// The outcome of a direct login: the service must answer with a conflict (409) whose
/// code says the validation failed; its token is then exchanged.
pub fn manual_login_token(status: u16, error: &NovaLoginError) -> (r: Result<String, LoginError>)
    requires
        status == 409 && error.code == NovaLoginErrorCode::ValidationFailed ==> error.auth_token is Some,
    ensures
        status != 409 ==> r == Err::<String, LoginError>(LoginError::NotAcknowledged),
        status == 409 && error.code != NovaLoginErrorCode::ValidationFailed ==> r == Err::<
            String,
            LoginError,
        >(LoginError::Refused(error.code)),
        status == 409 && error.code == NovaLoginErrorCode::ValidationFailed ==> (r matches Ok(t)
            && t == error.auth_token->0.value),
{
    if status != 409 {
        return Err(LoginError::NotAcknowledged);
    }
    if error.code != NovaLoginErrorCode::ValidationFailed {
        return Err(LoginError::Refused(error.code));
    }
    match &error.auth_token {
        Some(t) => Ok(t.value.clone()),
        None => Err(LoginError::NotAcknowledged),
    }
}

/// Where the exchange's redirect carries its token: the sign-in page means two-factor
/// authentication; a `qrc` URL is rewritten onto `http://127.0.0.1` and carries it in its
/// fragment, any other in its query.
pub open spec fn redirect_spec(url: Seq<char>) -> Result<(Seq<char>, bool), LoginError> {
    if starts_with_spec(url, "https://signin.ea.com"@) {
        Err(LoginError::TwoFactor)
    } else if starts_with_spec(url, "qrc"@) {
        Ok((replace_spec(url, "qrc:/html"@, "http://127.0.0.1"@), true))
    } else {
        Ok((url, false))
    }
}

pub fn auth_redirect(url: &str) -> (r: Result<(String, bool), LoginError>)
    ensures
        match redirect_spec(url@) {
            Ok((u, frag)) => r matches Ok((s, f)) && s@ == u && f == frag,
            Err(e) => r == Err::<(String, bool), LoginError>(e),
        },
{
    if starts_with(url, "https://signin.ea.com") {
        return Err(LoginError::TwoFactor);
    }
    if starts_with(url, "qrc") {
        proof {
            reveal_strlit("qrc:/html");
        }
        return Ok((replace_all(url, "qrc:/html", "http://127.0.0.1"), true));
    }
    Ok((url.to_string(), false))
}

/// The query key that holds the token for a response type (`token` is answered as
/// `access_token`).
pub fn response_key(response_type: &str) -> (r: String)
    ensures
        r@ == (if response_type@ == "token"@ {
            "access_token"@
        } else {
            response_type@
        }),
{
    if str_eq(response_type, "token") {
        "access_token".to_string()
    } else {
        response_type.to_string()
    }
}

/// The token an authorization exchange answers with, from the redirect it ended on: the
/// value of the response type (`token` meaning `access_token`) in the redirect's query,
/// or in its fragment for a `qrc` redirect (read as an `http://127.0.0.1` address).
pub open spec fn exchange_token_spec(redirect: Seq<char>, response_type: Seq<char>) -> Result<Seq<char>, LoginError> {
    match redirect_spec(redirect) {
        Err(e) => Err(e),
        Ok((url, fragment)) => {
            let part = if fragment {
                crate::bootstrap::url_fragment_of(url)
            } else {
                crate::bootstrap::url_query_of(url)
            };
            match part {
                None => Err(LoginError::InvalidRedirect),
                Some(None) => Err(LoginError::NoQuery),
                Some(Some(q)) => {
                    let key = if response_type == "token"@ {
                        "access_token"@
                    } else {
                        response_type
                    };
                    match query_value(querify_spec(q), key) {
                        Some(v) => Ok(v),
                        None => Err(LoginError::NoToken),
                    }
                },
            }
        },
    }
}

/// Reads the token of an authorization exchange from the redirect it ended on.
pub fn exchange_token(redirect: &str, response_type: &str) -> (r: Result<String, LoginError>)
    ensures
        match exchange_token_spec(redirect@, response_type@) {
            Ok(t) => r matches Ok(s) && s@ == t,
            Err(e) => r == Err::<String, LoginError>(e),
        },
{
    let (url, fragment) = match auth_redirect(redirect) {
        Ok(v) => v,
        Err(e) => return Err(e),
    };
    let part = if fragment {
        crate::bootstrap::parse_url_fragment(url.as_str())
    } else {
        crate::bootstrap::parse_url_query(url.as_str())
    };
    let q = match part {
        None => return Err(LoginError::InvalidRedirect),
        Some(None) => return Err(LoginError::NoQuery),
        Some(Some(q)) => q,
    };
    let key = response_key(response_type);
    let pairs = querify(q.as_str());
    proof {
        reveal_strlit("token");
        reveal_strlit("access_token");
    }
    match find_query_value(&pairs, key.as_str()) {
        Some(v) => Ok(v),
        None => Err(LoginError::NoToken),
    }
}

} // verus!
