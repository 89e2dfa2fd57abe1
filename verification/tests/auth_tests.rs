use maxima::auth::exchange_token;
use maxima::auth::{
    auth_redirect, find_query_value, manual_login_query, manual_login_token, oauth_callback_token,
    querify, response_key, split_char, LoginError, NovaLoginError, NovaLoginErrorCode,
    NovaLoginValue,
};
use maxima::auth_storage::{AuthAccount, AuthStorage, TokenError};

fn pairs(q: &[(String, String)]) -> Vec<(&str, &str)> {
    q.iter().map(|(k, v)| (k.as_str(), v.as_str())).collect()
}

#[test]
fn splitting_keeps_empty_pieces() {
    assert_eq!(split_char("a&b&&c", '&'), vec!["a", "b", "", "c"]);
    assert_eq!(split_char("", '&'), vec![""]);
    assert_eq!(split_char("x=", '='), vec!["x", ""]);
}

#[test]
fn querify_pairs() {
    let q = querify("access_token=abc&token_type=Bearer&junk&expires_in=3600&x=1=2");
    assert_eq!(
        pairs(&q),
        vec![("access_token", "abc"), ("token_type", "Bearer"), ("expires_in", "3600"), ("x", "1")]
    );
    assert_eq!(find_query_value(&q, "expires_in"), Some("3600".to_string()));
    assert_eq!(find_query_value(&q, "missing"), None);
}

#[test]
fn oauth_callback_lines() {
    assert_eq!(
        oauth_callback_token("GET /auth?access_token=tok123&x=y HTTP/1.1"),
        Some(Some("tok123".to_string()))
    );
    assert_eq!(oauth_callback_token("GET /auth?x=y"), Some(None));
    assert_eq!(oauth_callback_token("GET /auth"), Some(None));
    assert_eq!(oauth_callback_token("POST /other"), None);
}

#[test]
fn manual_login() {
    let q = manual_login_query("me@example.com", "pw").unwrap();
    assert_eq!(pairs(&q), vec![("contentId", "1"), ("ea_email", "me@example.com"), ("ea_password", "pw")]);
    let p = manual_login_query("Player", "pw").unwrap();
    assert_eq!(pairs(&p)[1], ("ea_persona", "Player"));
    let ok = NovaLoginError {
        code: NovaLoginErrorCode::ValidationFailed,
        auth_token: Some(NovaLoginValue { value: "T".to_string() }),
    };
    assert_eq!(manual_login_token(409, &ok), Ok("T".to_string()));
    assert_eq!(manual_login_token(200, &ok), Err(LoginError::NotAcknowledged));
    let bad = NovaLoginError { code: NovaLoginErrorCode::InvalidPassword, auth_token: None };
    assert_eq!(manual_login_token(409, &bad), Err(LoginError::Refused(NovaLoginErrorCode::InvalidPassword)));
}

#[test]
fn redirects() {
    assert_eq!(auth_redirect("https://signin.ea.com/p/x"), Err(LoginError::TwoFactor));
    assert_eq!(
        auth_redirect("qrc:/html/login_successful.html#access_token=1"),
        Ok(("http://127.0.0.1/login_successful.html#access_token=1".to_string(), true))
    );
    assert_eq!(auth_redirect("https://example.com/"), Ok(("https://example.com/".to_string(), false)));
    assert_eq!(response_key("token"), "access_token");
    assert_eq!(response_key("code"), "code");
}

#[test]
fn account_tokens() {
    let mut a = AuthAccount::from_token("tok");
    assert_eq!(a.access_token, "tok");
    assert_eq!(a.expires_at, u64::MAX);
    assert!(a.needs_user_id());
    assert!(!a.dirty);
    assert_eq!(a.parse_token_response("new", None, 100, 1000), Err(TokenError::NoRefresh));
    assert_eq!(a.access_token, "new");
    assert_eq!(a.expires_at, u64::MAX);
    assert_eq!(a.parse_token_response("new2", Some("ref"), 100, 1000), Ok(()));
    assert_eq!(a.refresh_token, "ref");
    assert_eq!(a.expires_at, 1100);
    assert!(a.dirty);
    assert!(!a.needs_refresh(1089));
    assert!(a.needs_refresh(1090));
    a.user_id = "42".to_string();
    assert_eq!(a.user_id(), "42");
    assert!(!a.needs_user_id());
}

fn account(user: &str, dirty: bool) -> AuthAccount {
    let mut a = AuthAccount::from_token(&format!("tok-{}", user));
    a.user_id = user.to_string();
    a.dirty = dirty;
    a
}

#[test]
fn storage_accounts() {
    let direct = AuthStorage::from_token("abc");
    assert_eq!(direct.current().unwrap().access_token, "abc");
    assert!(!direct.save_needed());

    let mut s = AuthStorage::new_saved();
    assert!(s.current().is_none());
    assert!(!s.save_needed());
    s.add_account(account("1", false));
    assert_eq!(s.current().unwrap().user_id(), "1");
    assert!(!s.save_needed());
    s.add_account(account("2", false));
    assert_eq!(s.current().unwrap().user_id(), "2");
    // Replacing an account marks it to be saved.
    s.add_account(account("1", false));
    assert_eq!(s.current().unwrap().user_id(), "1");
    assert!(s.current().unwrap().dirty);
    assert!(s.save_needed());

    let mut never = AuthStorage::new();
    never.add_account(account("9", true));
    assert!(!never.save_needed());
}

#[test]
fn exchange_tokens() {
    assert_eq!(exchange_token("qrc:/html/login_successful.html#access_token=abc&x=1", "token"), Ok("abc".to_string()));
    assert_eq!(exchange_token("https://example.com/cb?code=QUO&x=1", "code"), Ok("QUO".to_string()));
    assert_eq!(exchange_token("https://signin.ea.com/p/web", "code"), Err(LoginError::TwoFactor));
    assert_eq!(exchange_token("https://example.com/cb", "code"), Err(LoginError::NoQuery));
    assert_eq!(exchange_token("https://example.com/cb?x=1", "code"), Err(LoginError::NoToken));
    assert_eq!(exchange_token("no url", "code"), Err(LoginError::InvalidRedirect));
}
