use base64::Engine;
use pixlab::token::{
    auth_status, check_refresh_token, needs_refresh, needs_refresh_at, or_epoch,
    parse_jwt_profile, token_exchange_status_error, token_from_exchange,
    token_from_refresh, token_refresh_status_error, CodexTokenStorage, TokenResponse,
    exchanged_token, refreshed_token, now_rfc3339, current_unix, unix_now_rfc3339,
};

fn base64_url_encode(bytes: &[u8]) -> String {
    base64::engine::general_purpose::URL_SAFE_NO_PAD.encode(bytes)
}

fn parse_rfc3339_unix(text: &str) -> Option<i64> {
    time::OffsetDateTime::parse(text, &time::format_description::well_known::Rfc3339)
        .ok()
        .map(|t| t.unix_timestamp())
}

fn jwt(payload: &str) -> String {
    format!("eyJhbGciOiJub25lIn0.{}.sig", base64_url_encode(payload.as_bytes()))
}

fn stored(access: &str, refresh: &str, expired: &str) -> CodexTokenStorage {
    CodexTokenStorage {
        id_token: "old-id".to_string(),
        access_token: access.to_string(),
        refresh_token: refresh.to_string(),
        account_id: "acc-old".to_string(),
        last_refresh: "2024-01-01T00:00:00Z".to_string(),
        email: "old@x.io".to_string(),
        token_type: "codex".to_string(),
        expired: expired.to_string(),
    }
}

#[test]
fn jwt_profile_is_read_from_the_payload() {
    let token = jwt(r#"{"email":"a@b.c","https://api.openai.com/auth":{"chatgpt_account_id":"acc-1"}}"#);
    let p = parse_jwt_profile(&token);
    assert_eq!(p.email, "a@b.c");
    assert_eq!(p.account_id, "acc-1");
    let only_payload = format!("x.{}", base64_url_encode(br#"{"email":"e"}"#));
    let p = parse_jwt_profile(&only_payload);
    assert_eq!(p.email, "e");
    assert_eq!(p.account_id, "");
}

#[test]
fn unreadable_jwt_gives_an_empty_profile() {
    for token in ["", "nodots", "a..b", "a.!!!.b", "a.bm90IGpzb24.b"] {
        let p = parse_jwt_profile(token);
        assert_eq!(p.email, "", "{token}");
        assert_eq!(p.account_id, "", "{token}");
    }
}

#[test]
fn expiry_times_are_read_as_rfc3339() {
    let t = stored("acc", "ref", "2024-01-01T00:00:00+01:00");
    assert!(!needs_refresh_at(&t, 1704063600 - 61));
    assert!(needs_refresh_at(&t, 1704063600 - 60));
    let t = stored("acc", "ref", "1970-01-01T00:01:00.5Z");
    assert!(!needs_refresh_at(&t, -1));
    assert!(needs_refresh_at(&t, 0));
    assert!(needs_refresh_at(&stored("acc", "ref", "2024-01-01 00:00:00"), i64::MIN));
}

#[test]
fn refresh_is_needed_near_expiry() {
    let t = stored("acc", "ref", "1970-01-01T00:10:00Z");
    assert!(!needs_refresh_at(&t, 539));
    assert!(needs_refresh_at(&t, 540));
    assert!(needs_refresh_at(&t, 10_000));
    assert!(needs_refresh_at(&stored("  ", "ref", "2999-01-01T00:00:00Z"), 0));
    assert!(needs_refresh_at(&stored("acc", "ref", "soon"), 0));
    assert!(!needs_refresh(&stored("acc", "ref", "2999-01-01T00:00:00Z")));
    assert!(needs_refresh(&stored("acc", "ref", "2000-01-01T00:00:00Z")));
}

#[test]
fn exchange_stores_the_answer_and_the_profile() {
    let resp = TokenResponse {
        access_token: "at".to_string(),
        refresh_token: None,
        id_token: jwt(r#"{"email":"n@x.io"}"#),
        expires_in: 3600,
    };
    let t = token_from_exchange(resp, "L".to_string(), "E".to_string());
    assert_eq!(t.access_token, "at");
    assert_eq!(t.refresh_token, "");
    assert_eq!(t.email, "n@x.io");
    assert_eq!(t.account_id, "");
    assert_eq!(t.token_type, "codex");
    assert_eq!(t.last_refresh, "L");
    assert_eq!(t.expired, "E");
}

#[test]
fn exchange_stamps_the_current_time() {
    let resp = TokenResponse {
        access_token: "at".to_string(),
        refresh_token: Some("rt".to_string()),
        id_token: "x".to_string(),
        expires_in: 3600,
    };
    let t = exchanged_token(resp);
    assert_eq!(t.refresh_token, "rt");
    let last = parse_rfc3339_unix(&t.last_refresh).expect("time");
    let exp = parse_rfc3339_unix(&t.expired).expect("time");
    assert!((3599..=3601).contains(&(exp - last)));
    assert!(parse_rfc3339_unix(&now_rfc3339()).is_some());
}

#[test]
fn refresh_keeps_what_the_answer_lacks() {
    let prev = stored("old", "keep-me", "x");
    let resp = TokenResponse {
        access_token: "new".to_string(),
        refresh_token: Some("   ".to_string()),
        id_token: "not-a-jwt".to_string(),
        expires_in: 10,
    };
    let t = token_from_refresh(&prev, resp, "L".to_string(), "E".to_string());
    assert_eq!(t.access_token, "new");
    assert_eq!(t.refresh_token, "keep-me");
    assert_eq!(t.email, "old@x.io");
    assert_eq!(t.account_id, "acc-old");
    assert_eq!(t.id_token, "not-a-jwt");

    let resp = TokenResponse {
        access_token: "new".to_string(),
        refresh_token: Some("fresh".to_string()),
        id_token: jwt(r#"{"email":"new@x.io","https://api.openai.com/auth":{"chatgpt_account_id":"acc-new"}}"#),
        expires_in: 10,
    };
    let t = token_from_refresh(&prev, resp, "L".to_string(), "E".to_string());
    assert_eq!(t.refresh_token, "fresh");
    assert_eq!(t.email, "new@x.io");
    assert_eq!(t.account_id, "acc-new");
}

#[test]
fn refresh_needs_a_refresh_token() {
    assert_eq!(
        check_refresh_token(&stored("a", " \t", "x")),
        Err("Codex refresh token is missing.".to_string())
    );
    assert_eq!(check_refresh_token(&stored("a", "r", "x")), Ok(()));
}

#[test]
fn status_error_messages() {
    assert_eq!(token_exchange_status_error(400, "bad"), "Token exchange failed with status 400: bad");
    assert_eq!(token_refresh_status_error(401, ""), "Token refresh failed with status 401: ");
}

#[test]
fn auth_status_of_stored_tokens() {
    let s = auth_status(None);
    assert!(!s.authenticated && s.email.is_none());
    let s = auth_status(Some(&stored("acc", "r", "x")));
    assert!(s.authenticated);
    assert_eq!(s.email.as_deref(), Some("old@x.io"));
    let mut t = stored(" ", "r", "x");
    t.email = "  ".to_string();
    let s = auth_status(Some(&t));
    assert!(!s.authenticated && s.email.is_none());
}

#[test]
fn epoch_fallback() {
    assert_eq!(or_epoch(None), "1970-01-01T00:00:00Z");
    assert_eq!(or_epoch(Some("t".to_string())), "t");
}

#[test]
fn clock_texts_follow_the_system_clock() {
    let system = std::time::SystemTime::now()
        .duration_since(std::time::UNIX_EPOCH)
        .expect("after the epoch")
        .as_secs() as i64;
    let now = current_unix();
    assert!((now - system).abs() <= 2);
    let later = parse_rfc3339_unix(&unix_now_rfc3339(3600)).expect("time");
    assert!((later - now - 3600).abs() <= 2);
    let earlier = parse_rfc3339_unix(&unix_now_rfc3339(-86400)).expect("time");
    assert!((earlier - now + 86400).abs() <= 2);
    let stamp = parse_rfc3339_unix(&now_rfc3339()).expect("time");
    assert!((stamp - now).abs() <= 2);
    assert_eq!(unix_now_rfc3339(i64::MAX), "1970-01-01T00:00:00Z");
}

#[test]
fn refresh_stamps_the_expiry_expires_in_seconds_after_now() {
    let prev = stored("old", "keep-me", "x");
    let resp = TokenResponse {
        access_token: "new".to_string(),
        refresh_token: None,
        id_token: "x".to_string(),
        expires_in: 7200,
    };
    let t = refreshed_token(&prev, resp);
    assert_eq!(t.refresh_token, "keep-me");
    let last = parse_rfc3339_unix(&t.last_refresh).expect("time");
    let exp = parse_rfc3339_unix(&t.expired).expect("time");
    assert!((7199..=7201).contains(&(exp - last)));
    assert!((last - current_unix()).abs() <= 2);
}
