//! The OAuth login with PKCE: the authorization URL, the local callback page,
//! the decisions taken on the callback, and the registry of logins in progress.
use vstd::prelude::*;
use crate::encoding::{PkceCodes, percent_encode, url_encode};
use crate::text::{
    join, views, join_strings, push_str_chars, push_decimal, decimal, string_of, str_eq,
};

verus! {

broadcast use vstd::std_specs::vec::group_vec_axioms;

/// The authorization endpoint.
pub const CODEX_AUTH_URL: &'static str = "https://auth.openai.com/oauth/authorize";

/// The OAuth client of the Codex CLI.
pub const CODEX_CLIENT_ID: &'static str = "app_EMoamEEZ73f0CkXaXp7hrann";

/// Where the browser is sent back after the login.
pub const CODEX_REDIRECT_URI: &'static str = "http://localhost:1455/auth/callback";

/// The local port that receives the login callback.
pub const CODEX_CALLBACK_PORT: u16 = 1455;

/// The parameters of the authorization request, in order.
pub open spec fn auth_params(state: Seq<char>, challenge: Seq<char>) -> Seq<(Seq<char>, Seq<char>)> {
    seq![
        ("client_id"@, CODEX_CLIENT_ID@),
        ("response_type"@, "code"@),
        ("redirect_uri"@, CODEX_REDIRECT_URI@),
        ("scope"@, "openid email profile offline_access"@),
        ("state"@, state),
        ("code_challenge"@, challenge),
        ("code_challenge_method"@, "S256"@),
        ("prompt"@, "login"@),
        ("id_token_add_organizations"@, "true"@),
        ("codex_cli_simplified_flow"@, "true"@),
    ]
}

/// `key=value` with the value percent-encoded.
pub open spec fn query_pair(p: (Seq<char>, Seq<char>)) -> Seq<char> {
    p.0 + "="@ + percent_encode(vstd::utf8::encode_utf8(p.1))
}

/// The authorization URL for a login with the given state and PKCE challenge.
pub open spec fn auth_url(state: Seq<char>, challenge: Seq<char>) -> Seq<char> {
    CODEX_AUTH_URL@ + "?"@ + join(auth_params(state, challenge).map_values(|p| query_pair(p)), "&"@)
}

fn query_pair_exec(key: &str, value: &str) -> (r: String)
    ensures
        r@ == query_pair((key@, value@)),
{
    let mut out: Vec<char> = Vec::new();
    push_str_chars(&mut out, key);
    push_str_chars(&mut out, "=");
    let enc = url_encode(value);
    push_str_chars(&mut out, enc.as_str());
    string_of(&out)
}

/// The URL that starts a login in the browser.
pub fn build_auth_url(state: &str, pkce: &PkceCodes) -> (r: String)
    ensures
        r@ == auth_url(state@, pkce.code_challenge@),
{
    let ghost ps = auth_params(state@, pkce.code_challenge@).map_values(|p| query_pair(p));
    let mut pairs: Vec<String> = Vec::new();
    pairs.push(query_pair_exec("client_id", CODEX_CLIENT_ID));
    pairs.push(query_pair_exec("response_type", "code"));
    pairs.push(query_pair_exec("redirect_uri", CODEX_REDIRECT_URI));
    pairs.push(query_pair_exec("scope", "openid email profile offline_access"));
    pairs.push(query_pair_exec("state", state));
    pairs.push(query_pair_exec("code_challenge", pkce.code_challenge.as_str()));
    pairs.push(query_pair_exec("code_challenge_method", "S256"));
    pairs.push(query_pair_exec("prompt", "login"));
    pairs.push(query_pair_exec("id_token_add_organizations", "true"));
    pairs.push(query_pair_exec("codex_cli_simplified_flow", "true"));
    assert(views(pairs@) =~= ps);
    let joined = join_strings(&pairs, "&");
    let mut out: Vec<char> = Vec::new();
    push_str_chars(&mut out, CODEX_AUTH_URL);
    push_str_chars(&mut out, "?");
    crate::text::push_all(&mut out, &joined);
    string_of(&out)
}

/// The page shown in the browser after a successful login.
pub open spec fn success_page() -> Seq<char> {
    "<html><head><meta charset=\"utf-8\"><title>Authentication successful</title><script>setTimeout(function(){window.close();},1200);</script></head><body style=\"font-family:sans-serif;padding:24px;background:#111;color:#eee\"><h1>Authentication successful</h1><p>You can return to PixLab Desktop.</p></body></html>"@
}

/// The page shown in the browser after a failed login, with the message.
pub open spec fn error_page(message: Seq<char>) -> Seq<char> {
    "<html><head><meta charset=\"utf-8\"><title>Authentication failed</title></head><body style=\"font-family:sans-serif;padding:24px;background:#111;color:#eee\"><h1>Authentication failed</h1><p>"@
        + message + "</p></body></html>"@
}

/// The page for a successful login.
pub fn callback_success_html() -> (r: String)
    ensures
        r@ == success_page(),
{
    "<html><head><meta charset=\"utf-8\"><title>Authentication successful</title><script>setTimeout(function(){window.close();},1200);</script></head><body style=\"font-family:sans-serif;padding:24px;background:#111;color:#eee\"><h1>Authentication successful</h1><p>You can return to PixLab Desktop.</p></body></html>".to_owned()
}

/// The page for a failed login, showing `message`.
pub fn callback_error_html(message: &str) -> (r: String)
    ensures
        r@ == error_page(message@),
{
    let mut out: Vec<char> = Vec::new();
    push_str_chars(
        &mut out,
        "<html><head><meta charset=\"utf-8\"><title>Authentication failed</title></head><body style=\"font-family:sans-serif;padding:24px;background:#111;color:#eee\"><h1>Authentication failed</h1><p>",
    );
    push_str_chars(&mut out, message);
    push_str_chars(&mut out, "</p></body></html>");
    string_of(&out)
}

/// What the login callback brought: the authorization code, the state, and the
/// error the provider reported (each empty when absent).
pub struct OAuthCallback {
    pub code: String,
    pub state: String,
    pub error: String,
}

/// The model of an [`OAuthCallback`].
pub struct CallbackView {
    pub code: Seq<char>,
    pub state: Seq<char>,
    pub error: Seq<char>,
}

impl View for OAuthCallback {
    type V = CallbackView;

    open spec fn view(&self) -> CallbackView {
        CallbackView { code: self.code@, state: self.state@, error: self.error@ }
    }
}

/// The answer to the browser's callback request, and what the login learns
/// from it.
pub struct CallbackReply {
    pub html: String,
    pub status: u16,
    pub outcome: Result<OAuthCallback, String>,
}

/// The query pairs of a URL, decoded, as `reqwest::Url::parse` followed by
/// `query_pairs` gives them, or the text of the parse error.
pub uninterp spec fn spec_url_query_pairs(url: Seq<char>) -> Result<
    Seq<(Seq<char>, Seq<char>)>,
    Seq<char>,
>;

/// The query pairs of a parse by their views.
pub open spec fn pairs_outcome(r: Result<Vec<(String, String)>, String>) -> Result<
    Seq<(Seq<char>, Seq<char>)>,
    Seq<char>,
> {
    match r {
        Ok(v) => Ok(v@.map_values(|p: (String, String)| (p.0@, p.1@))),
        Err(e) => Err(e@),
    }
}

/// Parses `url` with `reqwest::Url::parse` and lists its decoded query pairs
/// (`Url::query_pairs`), or gives the parse error's text. Claims the outcome
/// is [`spec_url_query_pairs`] of the URL.
#[verifier::external_body]
pub(crate) fn url_query_pairs(url: &str) -> (r: Result<Vec<(String, String)>, String>)
    ensures
        pairs_outcome(r) == spec_url_query_pairs(url@),
{
    match reqwest::Url::parse(url) {
        Ok(parsed) => Ok(
            parsed.query_pairs().map(|(k, v)| (k.into_owned(), v.into_owned())).collect(),
        ),
        Err(error) => Err(error.to_string()),
    }
}

/// The value of the first pair with the key, empty when there is none.
pub open spec fn first_value(pairs: Seq<(Seq<char>, Seq<char>)>, key: Seq<char>) -> Seq<char>
    decreases pairs.len(),
{
    if pairs.len() == 0 {
        seq![]
    } else if pairs[0].0 == key {
        pairs[0].1
    } else {
        first_value(pairs.drop_first(), key)
    }
}

fn first_value_exec(pairs: &Vec<(String, String)>, key: &str) -> (r: String)
    ensures
        r@ == first_value(pairs@.map_values(|p: (String, String)| (p.0@, p.1@)), key@),
{
    let ghost ps = pairs@.map_values(|p: (String, String)| (p.0@, p.1@));
    let mut i: usize = 0;
    assert(ps.skip(0) =~= ps);
    while i < pairs.len()
        invariant
            ps == pairs@.map_values(|p: (String, String)| (p.0@, p.1@)),
            i <= pairs@.len(),
            first_value(ps, key@) == first_value(ps.skip(i as int), key@),
        decreases pairs@.len() - i,
    {
        assert(ps.skip(i as int)[0] == (pairs@[i as int].0@, pairs@[i as int].1@));
        assert(ps.skip(i as int).drop_first() =~= ps.skip(i + 1));
        if str_eq(pairs[i].0.as_str(), key) {
            return pairs[i].1.clone();
        }
        i = i + 1;
    }
    assert(ps.skip(i as int) =~= Seq::<(Seq<char>, Seq<char>)>::empty());
    String::new()
}

/// The full URL of a callback request whose target is `target`.
pub open spec fn callback_full_url(target: Seq<char>) -> Seq<char> {
    "http://localhost:"@ + decimal(CODEX_CALLBACK_PORT as nat) + target
}

/// The reply to a callback request, by its parts: page, status and outcome.
pub open spec fn callback_reply_spec(target: Seq<char>) -> (Seq<char>, u16, Result<
    CallbackView,
    Seq<char>,
>) {
    match spec_url_query_pairs(callback_full_url(target)) {
        Err(e) => {
            let msg = "Invalid callback URL: "@ + e;
            (error_page(msg), 400, Err(msg))
        },
        Ok(pairs) => {
            let code = first_value(pairs, "code"@);
            let state = first_value(pairs, "state"@);
            let error = first_value(pairs, "error"@);
            let cb = CallbackView { code, state, error };
            if error.len() > 0 {
                (error_page(error), 400, Ok(cb))
            } else if code.len() == 0 || state.len() == 0 {
                (error_page("Missing code or state."@), 400, Ok(cb))
            } else {
                (success_page(), 200, Ok(cb))
            }
        },
    }
}

/// A reply by its parts.
pub open spec fn reply_parts(r: CallbackReply) -> (Seq<char>, u16, Result<CallbackView, Seq<char>>) {
    (
        r.html@,
        r.status,
        match r.outcome {
            Ok(cb) => Ok(cb@),
            Err(e) => Err(e@),
        },
    )
}

/// Handles the browser's request to the local callback server, whose request
/// target (path and query) is `target`: the page to show, its HTTP status,
/// and the code, state and error that the query carries.
pub fn handle_oauth_callback(target: &str) -> (r: CallbackReply)
    ensures
        reply_parts(r) == callback_reply_spec(target@),
{
    let mut full: Vec<char> = Vec::new();
    push_str_chars(&mut full, "http://localhost:");
    push_decimal(&mut full, CODEX_CALLBACK_PORT as u128);
    push_str_chars(&mut full, target);
    let full_url = string_of(&full);
    match url_query_pairs(full_url.as_str()) {
        Err(e) => {
            let mut m: Vec<char> = Vec::new();
            push_str_chars(&mut m, "Invalid callback URL: ");
            push_str_chars(&mut m, e.as_str());
            let msg = string_of(&m);
            let html = callback_error_html(msg.as_str());
            CallbackReply { html, status: 400, outcome: Err(msg) }
        },
        Ok(pairs) => {
            let code = first_value_exec(&pairs, "code");
            let state = first_value_exec(&pairs, "state");
            let error = first_value_exec(&pairs, "error");
            let (html, status) = if !error.as_str().is_empty() {
                (callback_error_html(error.as_str()), 400)
            } else if code.as_str().is_empty() || state.as_str().is_empty() {
                (callback_error_html("Missing code or state."), 400)
            } else {
                (callback_success_html(), 200)
            };
            CallbackReply { html, status, outcome: Ok(OAuthCallback { code, state, error }) }
        },
    }
}

/// The message when the callback port cannot be taken.
pub fn callback_port_in_use_error(error: &str) -> (r: String)
    ensures
        r@ == "Port "@ + decimal(CODEX_CALLBACK_PORT as nat)
            + " is already in use. Close Codex Manager or any app holding localhost:"@ + decimal(
            CODEX_CALLBACK_PORT as nat,
        ) + ", then try again. Original error: "@ + error@,
{
    let mut out: Vec<char> = Vec::new();
    push_str_chars(&mut out, "Port ");
    push_decimal(&mut out, CODEX_CALLBACK_PORT as u128);
    push_str_chars(&mut out, " is already in use. Close Codex Manager or any app holding localhost:");
    push_decimal(&mut out, CODEX_CALLBACK_PORT as u128);
    push_str_chars(&mut out, ", then try again. Original error: ");
    push_str_chars(&mut out, error);
    string_of(&out)
}

/// `prefix` followed by `detail`.
pub fn message_with(prefix: &str, detail: &str) -> (r: String)
    ensures
        r@ == prefix@ + detail@,
{
    let mut out: Vec<char> = Vec::new();
    push_str_chars(&mut out, prefix);
    push_str_chars(&mut out, detail);
    string_of(&out)
}

/// The message when waiting for the callback failed.
pub fn callback_wait_error(error: &str) -> (r: String)
    ensures
        r@ == "Failed while waiting for Codex callback: "@ + error@,
{
    message_with("Failed while waiting for Codex callback: ", error)
}

/// The message when the callback could not be received from the server thread.
pub fn callback_receive_error(error: &str) -> (r: String)
    ensures
        r@ == "Failed to receive OAuth callback: "@ + error@,
{
    message_with("Failed to receive OAuth callback: ", error)
}

/// The message of a cancelled login.
pub open spec fn cancelled_text() -> Seq<char> {
    "Codex login cancelled."@
}

/// The message of a cancelled login.
pub fn login_cancelled_message() -> (r: String)
    ensures
        r@ == cancelled_text(),
{
    "Codex login cancelled.".to_owned()
}

/// What one turn of waiting for the callback found: the login was
/// cancelled, a request came, a second passed with none, or waiting failed.
pub enum CallbackWaitEvent {
    Cancelled,
    Received,
    TimedOut,
    WaitFailed(String),
}

/// What the callback server does next: answer the request that came, wait
/// another turn, or stop with an error for the login.
pub enum CallbackWaitAction {
    Serve,
    KeepWaiting,
    Stop(String),
}

/// The next step of the callback server after one turn of waiting: a cancel
/// stops the login as cancelled, a request is served, a quiet second means
/// waiting on, and a failed wait stops with its message.
pub fn callback_wait_step(event: CallbackWaitEvent) -> (r: CallbackWaitAction)
    ensures
        match event {
            CallbackWaitEvent::Cancelled => r matches CallbackWaitAction::Stop(m) && m@
                == cancelled_text(),
            CallbackWaitEvent::Received => r is Serve,
            CallbackWaitEvent::TimedOut => r is KeepWaiting,
            CallbackWaitEvent::WaitFailed(e) => r matches CallbackWaitAction::Stop(m) && m@
                == "Failed while waiting for Codex callback: "@ + e@,
        },
{
    match event {
        CallbackWaitEvent::Cancelled => CallbackWaitAction::Stop(login_cancelled_message()),
        CallbackWaitEvent::Received => CallbackWaitAction::Serve,
        CallbackWaitEvent::TimedOut => CallbackWaitAction::KeepWaiting,
        CallbackWaitEvent::WaitFailed(e) => CallbackWaitAction::Stop(
            callback_wait_error(e.as_str()),
        ),
    }
}

/// The callback page reports success (status 200) exactly when the query
/// reads and carries a code and a state and no error; the outcome of a query
/// that reads holds its first `code`, `state` and `error` values.
pub proof fn law_callback_success_needs_code_and_state(target: Seq<char>)
    ensures
        ({
            let r = callback_reply_spec(target);
            match spec_url_query_pairs(callback_full_url(target)) {
                Ok(pairs) => {
                    &&& (r.1 == 200) <==> (first_value(pairs, "error"@).len() == 0 && first_value(
                        pairs,
                        "code"@,
                    ).len() > 0 && first_value(pairs, "state"@).len() > 0)
                    &&& r.1 != 200 ==> r.1 == 400
                    &&& r.2 == Ok::<CallbackView, Seq<char>>(
                        CallbackView {
                            code: first_value(pairs, "code"@),
                            state: first_value(pairs, "state"@),
                            error: first_value(pairs, "error"@),
                        },
                    )
                },
                Err(e) => r.1 == 400 && r.2 == Err::<CallbackView, Seq<char>>(
                    "Invalid callback URL: "@ + e,
                ),
            }
        }),
{
}

} // verus!
