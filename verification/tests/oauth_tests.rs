use pixlab::encoding::PkceCodes;
use pixlab::login::{
    decide_after_callback, progress_after_save, CallbackDecision, LoginProgress, LoginRegistry,
};
use pixlab::oauth::{
    build_auth_url, callback_error_html, callback_port_in_use_error, callback_success_html,
    callback_wait_step, handle_oauth_callback, CallbackWaitAction, CallbackWaitEvent,
    OAuthCallback,
};

#[test]
fn auth_url_lists_the_parameters_in_order() {
    let pkce = PkceCodes { code_verifier: "v".to_string(), code_challenge: "ch-_".to_string() };
    assert_eq!(
        build_auth_url("st 1", &pkce),
        "https://auth.openai.com/oauth/authorize?client_id=app_EMoamEEZ73f0CkXaXp7hrann&response_type=code&redirect_uri=http%3A%2F%2Flocalhost%3A1455%2Fauth%2Fcallback&scope=openid%20email%20profile%20offline_access&state=st%201&code_challenge=ch-_&code_challenge_method=S256&prompt=login&id_token_add_organizations=true&codex_cli_simplified_flow=true"
    );
}

#[test]
fn callback_pages() {
    assert!(callback_success_html().contains("<h1>Authentication successful</h1>"));
    assert!(callback_success_html().starts_with("<html><head><meta charset=\"utf-8\"><title>Authentication successful</title>"));
    let page = callback_error_html("denied");
    assert!(page.ends_with("<h1>Authentication failed</h1><p>denied</p></body></html>"));
}

#[test]
fn callback_with_code_and_state_succeeds() {
    let reply = handle_oauth_callback("/auth/callback?code=a+b%21&state=xyz&code=second");
    assert_eq!(reply.status, 200);
    assert_eq!(reply.html, callback_success_html());
    let cb = reply.outcome.expect("callback");
    assert_eq!(cb.code, "a b!");
    assert_eq!(cb.state, "xyz");
    assert_eq!(cb.error, "");
}

#[test]
fn callback_with_error_or_missing_fields_fails() {
    let reply = handle_oauth_callback("/auth/callback?error=access_denied&state=xyz");
    assert_eq!(reply.status, 400);
    assert_eq!(reply.html, callback_error_html("access_denied"));
    assert_eq!(reply.outcome.expect("callback").error, "access_denied");

    let reply = handle_oauth_callback("/auth/callback?code=abc");
    assert_eq!(reply.status, 400);
    assert_eq!(reply.html, callback_error_html("Missing code or state."));
    assert_eq!(reply.outcome.expect("callback").code, "abc");
}

#[test]
fn callback_with_an_unparsable_url_is_an_error() {
    let reply = handle_oauth_callback("[::1");
    assert_eq!(reply.status, 400);
    let err = reply.outcome.err().expect("error");
    assert!(err.starts_with("Invalid callback URL: "), "{err}");
    assert_eq!(reply.html, callback_error_html(&err));
}

#[test]
fn port_in_use_message() {
    assert_eq!(
        callback_port_in_use_error("busy"),
        "Port 1455 is already in use. Close Codex Manager or any app holding localhost:1455, then try again. Original error: busy"
    );
}

fn callback(code: &str, state: &str, error: &str) -> Result<OAuthCallback, String> {
    Ok(OAuthCallback { code: code.to_string(), state: state.to_string(), error: error.to_string() })
}

fn finished(d: CallbackDecision) -> LoginProgress {
    match d {
        CallbackDecision::Finish(p) => p,
        CallbackDecision::Exchange(_) => panic!("expected a finished login"),
    }
}

#[test]
fn callback_decisions() {
    match decide_after_callback(callback("c0de", "s1", ""), "s1") {
        CallbackDecision::Exchange(code) => assert_eq!(code, "c0de"),
        CallbackDecision::Finish(_) => panic!("expected an exchange"),
    }
    let p = finished(decide_after_callback(callback("c", "s2", ""), "s1"));
    assert!(p.done && !p.success);
    assert_eq!(p.error.as_deref(), Some("Codex authentication failed: state mismatch."));
    let p = finished(decide_after_callback(callback("c", "s1", "access_denied"), "s1"));
    assert_eq!(p.error.as_deref(), Some("Codex authentication failed: access_denied"));
    let p = finished(decide_after_callback(Err("Codex login cancelled.".to_string()), "s1"));
    assert_eq!(p.error.as_deref(), Some("Codex login cancelled."));
    assert_eq!(p.email, None);
}

#[test]
fn progress_after_saving_tokens() {
    let p = progress_after_save(Some("me@x.io".to_string()), Ok(()));
    assert!(p.done && p.success);
    assert_eq!(p.email.as_deref(), Some("me@x.io"));
    assert_eq!(p.error, None);
    let p = progress_after_save(Some("me@x.io".to_string()), Err("disk full".to_string()));
    assert!(p.done && !p.success);
    assert_eq!(p.email, None);
    assert_eq!(p.error.as_deref(), Some("disk full"));
}

#[test]
fn registry_status_reads_what_was_recorded() {
    let mut reg: LoginRegistry<u32> = LoginRegistry::new();
    let unknown = reg.status("nope");
    assert!(!unknown.done && !unknown.success && unknown.error.is_none());

    reg.begin("s1".to_string(), 7);
    let p = reg.status("s1");
    assert!(!p.done);

    reg.complete("s1", progress_after_save(Some("a@b".to_string()), Ok(())));
    let p = reg.status("s1");
    assert!(p.done && p.success);
    assert_eq!(p.email.as_deref(), Some("a@b"));
    assert_eq!(reg.cancel(), None);
}

#[test]
fn registry_cancel_marks_the_active_login() {
    let mut reg: LoginRegistry<&str> = LoginRegistry::new();
    reg.begin("first".to_string(), "flag-1");
    assert_eq!(reg.take_active(), Some("flag-1"));
    reg.begin("second".to_string(), "flag-2");
    assert_eq!(reg.cancel(), Some("flag-2"));
    let p = reg.status("second");
    assert!(p.done && !p.success);
    assert_eq!(p.error.as_deref(), Some("Codex login cancelled."));
    assert!(!reg.status("first").done);
    assert_eq!(reg.cancel(), None);
}

#[test]
fn completing_another_login_keeps_the_active_one() {
    let mut reg: LoginRegistry<u8> = LoginRegistry::new();
    reg.begin("old".to_string(), 1);
    assert_eq!(reg.take_active(), Some(1));
    reg.begin("new".to_string(), 2);
    reg.complete("old", LoginProgress::failed("Codex login cancelled.".to_string()));
    assert_eq!(reg.cancel(), Some(2));
    reg.begin("third".to_string(), 3);
    reg.complete("third", LoginProgress::failed("x".to_string()));
    assert_eq!(reg.cancel(), None);
    assert_eq!(reg.status("third").error.as_deref(), Some("x"));
}

#[test]
fn recording_a_state_again_replaces_its_progress() {
    let mut reg: LoginRegistry<u8> = LoginRegistry::new();
    reg.begin("s".to_string(), 1);
    reg.report("s", LoginProgress::failed("first".to_string()));
    reg.report("s", LoginProgress::failed("second".to_string()));
    reg.report("other", LoginProgress::failed("third".to_string()));
    assert_eq!(reg.status("s").error.as_deref(), Some("second"));
    assert_eq!(reg.status("other").error.as_deref(), Some("third"));
    reg.complete("s", progress_after_save(None, Ok(())));
    let p = reg.status("s");
    assert!(p.done && p.success && p.error.is_none());
    assert_eq!(reg.take_active(), None);
}

#[test]
fn callback_wait_steps() {
    assert!(matches!(
        callback_wait_step(CallbackWaitEvent::Cancelled),
        CallbackWaitAction::Stop(m) if m == "Codex login cancelled."
    ));
    assert!(matches!(callback_wait_step(CallbackWaitEvent::Received), CallbackWaitAction::Serve));
    assert!(matches!(
        callback_wait_step(CallbackWaitEvent::TimedOut),
        CallbackWaitAction::KeepWaiting
    ));
    assert!(matches!(
        callback_wait_step(CallbackWaitEvent::WaitFailed("boom".to_string())),
        CallbackWaitAction::Stop(m) if m == "Failed while waiting for Codex callback: boom"
    ));
}
