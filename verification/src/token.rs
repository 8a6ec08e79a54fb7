//! The stored Codex tokens: what a token exchange or refresh stores, the
//! profile read from the ID token, and when the tokens need refreshing.
use vstd::prelude::*;
use crate::json::{JsonView, get, get_str, json_from_slice, spec_serde_json_from_slice};
use crate::encoding::base64_url_decode;
use crate::text::{
    chars_of, string_of, slice_chars, find_char, split_once, is_blank, str_is_blank, decimal,
    push_str_chars, push_decimal,
};
use crate::events::opt_view;

verus! {

broadcast use vstd::std_specs::vec::group_vec_axioms;

/// The Codex tokens as they are stored on disk.
pub struct CodexTokenStorage {
    pub id_token: String,
    pub access_token: String,
    pub refresh_token: String,
    pub account_id: String,
    pub last_refresh: String,
    pub email: String,
    pub token_type: String,
    pub expired: String,
}

/// The model of a [`CodexTokenStorage`].
pub struct TokenView {
    pub id_token: Seq<char>,
    pub access_token: Seq<char>,
    pub refresh_token: Seq<char>,
    pub account_id: Seq<char>,
    pub last_refresh: Seq<char>,
    pub email: Seq<char>,
    pub token_type: Seq<char>,
    pub expired: Seq<char>,
}

impl View for CodexTokenStorage {
    type V = TokenView;

    open spec fn view(&self) -> TokenView {
        TokenView {
            id_token: self.id_token@,
            access_token: self.access_token@,
            refresh_token: self.refresh_token@,
            account_id: self.account_id@,
            last_refresh: self.last_refresh@,
            email: self.email@,
            token_type: self.token_type@,
            expired: self.expired@,
        }
    }
}

/// The token endpoint's answer to an exchange or a refresh.
pub struct TokenResponse {
    pub access_token: String,
    pub refresh_token: Option<String>,
    pub id_token: String,
    pub expires_in: i64,
}

/// The model of a [`TokenResponse`].
pub struct ResponseView {
    pub access_token: Seq<char>,
    pub refresh_token: Option<Seq<char>>,
    pub id_token: Seq<char>,
    pub expires_in: i64,
}

impl View for TokenResponse {
    type V = ResponseView;

    open spec fn view(&self) -> ResponseView {
        ResponseView {
            access_token: self.access_token@,
            refresh_token: opt_view(self.refresh_token),
            id_token: self.id_token@,
            expires_in: self.expires_in,
        }
    }
}

/// The account details carried in an ID token.
pub struct JwtProfile {
    pub email: String,
    pub account_id: String,
}

/// The payload segment of a JWT: the text after its first `.` and before the
/// next one (`token.split('.').nth(1)`), empty when there is no `.`.
pub open spec fn jwt_segment(token: Seq<char>) -> Seq<char> {
    match split_once(token, '.') {
        None => seq![],
        Some((_, rest)) => match split_once(rest, '.') {
            Some((seg, _)) => seg,
            None => rest,
        },
    }
}

/// The e-mail and account id in a decoded JWT payload; both empty when the
/// payload is not JSON.
pub open spec fn profile_from_json(parsed: Result<JsonView, Seq<char>>) -> (Seq<char>, Seq<char>) {
    match parsed {
        Ok(v) => (
            match get_str(v, "email"@) {
                Some(e) => e,
                None => seq![],
            },
            match get(v, "https://api.openai.com/auth"@) {
                Some(a) => match get_str(a, "chatgpt_account_id"@) {
                    Some(id) => id,
                    None => seq![],
                },
                None => seq![],
            },
        ),
        Err(_) => (seq![], seq![]),
    }
}

/// The profile of an ID token: the e-mail and account id read from the JSON
/// of its base64url-decoded payload segment; both empty when there is no
/// payload or it does not decode.
pub open spec fn jwt_profile(token: Seq<char>) -> (Seq<char>, Seq<char>) {
    let seg = jwt_segment(token);
    if seg.len() == 0 {
        (seq![], seq![])
    } else {
        match crate::encoding::base64_decode(true, false, seg) {
            None => (seq![], seq![]),
            Some(b) => profile_from_json(spec_serde_json_from_slice(b)),
        }
    }
}

fn jwt_segment_exec(token: &str) -> (r: String)
    ensures
        r@ == jwt_segment(token@),
{
    let cs = chars_of(token);
    let n = cs.len();
    match find_char(&cs, '.') {
        None => String::new(),
        Some(i) => {
            let rest = slice_chars(&cs, i + 1, n);
            assert(rest@ =~= cs@.skip(i + 1));
            match find_char(&rest, '.') {
                Some(j) => {
                    let seg = slice_chars(&rest, 0, j);
                    assert(seg@ =~= rest@.take(j as int));
                    string_of(&seg)
                },
                None => string_of(&rest),
            }
        },
    }
}

fn empty_profile() -> (r: JwtProfile)
    ensures
        r.email@ == Seq::<char>::empty(),
        r.account_id@ == Seq::<char>::empty(),
{
    JwtProfile { email: String::new(), account_id: String::new() }
}

/// Reads the e-mail and ChatGPT account id out of an ID token, without
/// checking its signature; a token that cannot be read gives empty fields.
pub fn parse_jwt_profile(id_token: &str) -> (r: JwtProfile)
    ensures
        (r.email@, r.account_id@) == jwt_profile(id_token@),
{
    let payload = jwt_segment_exec(id_token);
    if payload.as_str().is_empty() {
        return empty_profile();
    }
    let decoded = match base64_url_decode(payload.as_str()) {
        Some(d) => d,
        None => {
            let r = empty_profile();
            assert(crate::encoding::base64_decode(true, false, payload@) is None);
            return r;
        },
    };
    proof {
        crate::encoding::lemma_base64_decode_encoded(true, false, decoded@);
    }
    let value = match json_from_slice(&decoded) {
        Ok(v) => v,
        Err(_) => {
            let r = empty_profile();
            assert((r.email@, r.account_id@) == profile_from_json(
                spec_serde_json_from_slice(decoded@),
            ));
            return r;
        },
    };
    let email = match value.get_str("email") {
        Some(e) => e.clone(),
        None => String::new(),
    };
    let account_id = match value.get("https://api.openai.com/auth") {
        Some(auth) => match auth.get_str("chatgpt_account_id") {
            Some(id) => id.clone(),
            None => String::new(),
        },
        None => String::new(),
    };
    assert((email@, account_id@) == profile_from_json(spec_serde_json_from_slice(decoded@)));
    JwtProfile { email, account_id }
}

/// The tokens stored after exchanging a login code, with the given refresh
/// and expiry times.
pub open spec fn exchanged(
    resp: ResponseView,
    email: Seq<char>,
    account_id: Seq<char>,
    last_refresh: Seq<char>,
    expired: Seq<char>,
) -> TokenView {
    TokenView {
        id_token: resp.id_token,
        access_token: resp.access_token,
        refresh_token: match resp.refresh_token {
            Some(t) => t,
            None => seq![],
        },
        account_id,
        last_refresh,
        email,
        token_type: "codex"@,
        expired,
    }
}

/// The tokens to store after a code exchange answered with `resp`, refreshed
/// at `last_refresh` and expiring at `expired`; the e-mail and account id come
/// from the ID token.
pub fn token_from_exchange(resp: TokenResponse, last_refresh: String, expired: String) -> (r:
    CodexTokenStorage)
    ensures
        r@ == exchanged(
            resp@,
            jwt_profile(resp@.id_token).0,
            jwt_profile(resp@.id_token).1,
            last_refresh@,
            expired@,
        ),
{
    let profile = parse_jwt_profile(resp.id_token.as_str());
    let refresh_token = match resp.refresh_token {
        Some(t) => t,
        None => String::new(),
    };
    let r = CodexTokenStorage {
        id_token: resp.id_token,
        access_token: resp.access_token,
        refresh_token,
        account_id: profile.account_id,
        last_refresh,
        email: profile.email,
        token_type: "codex".to_owned(),
        expired,
    };
    assert(r@ == exchanged(resp@, r.email@, r.account_id@, last_refresh@, expired@));
    r
}

/// The tokens stored after a refresh answered with `resp`: a new refresh
/// token only when one came and is not blank, and the profile's e-mail and
/// account id only when not empty; otherwise the previous ones.
pub open spec fn refreshed(
    prev: TokenView,
    resp: ResponseView,
    email: Seq<char>,
    account_id: Seq<char>,
    last_refresh: Seq<char>,
    expired: Seq<char>,
) -> TokenView {
    TokenView {
        id_token: resp.id_token,
        access_token: resp.access_token,
        refresh_token: match resp.refresh_token {
            Some(t) => if !is_blank(t) {
                t
            } else {
                prev.refresh_token
            },
            None => prev.refresh_token,
        },
        account_id: if account_id.len() == 0 {
            prev.account_id
        } else {
            account_id
        },
        last_refresh,
        email: if email.len() == 0 {
            prev.email
        } else {
            email
        },
        token_type: "codex"@,
        expired,
    }
}

/// Whether a refresh can be attempted: it needs a refresh token that is not
/// blank.
pub fn check_refresh_token(token: &CodexTokenStorage) -> (r: Result<(), String>)
    ensures
        r is Ok <==> !is_blank(token@.refresh_token),
        r matches Err(e) ==> e@ == "Codex refresh token is missing."@,
{
    if str_is_blank(token.refresh_token.as_str()) {
        Err("Codex refresh token is missing.".to_owned())
    } else {
        Ok(())
    }
}

/// The tokens to store after refreshing `prev` with the answer `resp`.
pub fn token_from_refresh(
    prev: &CodexTokenStorage,
    resp: TokenResponse,
    last_refresh: String,
    expired: String,
) -> (r: CodexTokenStorage)
    ensures
        r@ == refreshed(
            prev@,
            resp@,
            jwt_profile(resp@.id_token).0,
            jwt_profile(resp@.id_token).1,
            last_refresh@,
            expired@,
        ),
{
    let profile = parse_jwt_profile(resp.id_token.as_str());
    let ghost pe = profile.email@;
    let ghost pa = profile.account_id@;
    let refresh_token = match resp.refresh_token {
        Some(t) => if !str_is_blank(t.as_str()) {
            t
        } else {
            prev.refresh_token.clone()
        },
        None => prev.refresh_token.clone(),
    };
    let account_id = if profile.account_id.as_str().is_empty() {
        prev.account_id.clone()
    } else {
        profile.account_id
    };
    let email = if profile.email.as_str().is_empty() {
        prev.email.clone()
    } else {
        profile.email
    };
    let r = CodexTokenStorage {
        id_token: resp.id_token,
        access_token: resp.access_token,
        refresh_token,
        account_id,
        last_refresh,
        email,
        token_type: "codex".to_owned(),
        expired,
    };
    assert(r@ == refreshed(prev@, resp@, pe, pa, last_refresh@, expired@));
    r
}

/// The Unix time of an RFC 3339 timestamp, as `time::OffsetDateTime::parse`
/// with the `Rfc3339` format reads it (`None` when it does not parse).
pub uninterp spec fn spec_rfc3339_unix_timestamp(text: Seq<char>) -> Option<i64>;

/// `OffsetDateTime::parse(text, &Rfc3339)` of the `time` crate, then
/// `unix_timestamp()`. Claims the result is [`spec_rfc3339_unix_timestamp`] of
/// the text.
#[verifier::external_body]
pub(crate) fn parse_rfc3339_unix(text: &str) -> (r: Option<i64>)
    ensures
        r == spec_rfc3339_unix_timestamp(text@),
{
    match time::OffsetDateTime::parse(text, &time::format_description::well_known::Rfc3339) {
        Ok(t) => Some(t.unix_timestamp()),
        Err(_) => None,
    }
}

/// A Unix time in nanoseconds that an `OffsetDateTime` can hold: without the
/// `time` crate's `large-dates` feature its years run from -9999 to 9999, that
/// is from about -3.78e20 to 2.54e20 nanoseconds, inside these bounds.
pub open spec fn clock_range(nanos: i128) -> bool {
    -400_000_000_000_000_000_000 <= nanos <= 300_000_000_000_000_000_000
}

/// `OffsetDateTime::now_utc().unix_timestamp_nanos()`: the clock. Claims only
/// that the value is one an `OffsetDateTime` can hold ([`clock_range`]).
#[verifier::external_body]
pub(crate) fn clock_unix_nanos() -> (r: i128)
    ensures
        clock_range(r),
{
    time::OffsetDateTime::now_utc().unix_timestamp_nanos()
}

/// The RFC 3339 text of the UTC time `nanos` nanoseconds after the Unix epoch,
/// as `OffsetDateTime::from_unix_timestamp_nanos` followed by
/// `format(&Rfc3339)` gives it (`None` when either fails).
pub uninterp spec fn spec_rfc3339_of_unix_nanos(nanos: i128) -> Option<Seq<char>>;

/// `OffsetDateTime::from_unix_timestamp_nanos(nanos)` formatted with
/// `Rfc3339`. Claims the result is [`spec_rfc3339_of_unix_nanos`] of `nanos`.
#[verifier::external_body]
pub(crate) fn rfc3339_of_unix_nanos(nanos: i128) -> (r: Option<String>)
    ensures
        opt_view(r) == spec_rfc3339_of_unix_nanos(nanos),
{
    match time::OffsetDateTime::from_unix_timestamp_nanos(nanos) {
        Ok(t) => t.format(&time::format_description::well_known::Rfc3339).ok(),
        Err(_) => None,
    }
}

/// The text stored when the clock cannot be formatted.
pub open spec fn epoch_text() -> Seq<char> {
    "1970-01-01T00:00:00Z"@
}

/// A formatted time, or the Unix epoch when there is none.
pub fn or_epoch(t: Option<String>) -> (r: String)
    ensures
        r@ == match t {
            Some(s) => s@,
            None => epoch_text(),
        },
{
    match t {
        Some(s) => s,
        None => "1970-01-01T00:00:00Z".to_owned(),
    }
}

/// The RFC 3339 text of a Unix time in nanoseconds, or the epoch text when
/// it cannot be formatted.
pub open spec fn rfc3339_or_epoch(nanos: i128) -> Seq<char> {
    match spec_rfc3339_of_unix_nanos(nanos) {
        Some(t) => t,
        None => epoch_text(),
    }
}

/// The current time as RFC 3339 text (the epoch text when it cannot be
/// formatted).
pub fn now_rfc3339() -> (r: String)
    ensures
        exists|now: i128| clock_range(now) && r@ == rfc3339_or_epoch(now),
{
    let now = clock_unix_nanos();
    or_epoch(rfc3339_of_unix_nanos(now))
}

/// The time `seconds_from_now` seconds from now as RFC 3339 text (the epoch
/// text when that time cannot be held or formatted).
pub fn unix_now_rfc3339(seconds_from_now: i64) -> (r: String)
    ensures
        exists|now: i128|
            clock_range(now) && r@ == rfc3339_or_epoch(
                (now + seconds_from_now * 1_000_000_000) as i128,
            ),
{
    let now = clock_unix_nanos();
    let at: i128 = now + (seconds_from_now as i128) * 1_000_000_000;
    or_epoch(rfc3339_of_unix_nanos(at))
}

/// The current Unix time in whole seconds (rounded down).
pub fn current_unix() -> (r: i64)
    ensures
        exists|now: i128| clock_range(now) && r == now / 1_000_000_000,
{
    let now = clock_unix_nanos();
    let shifted: u128 = (now + 400_000_000_000_000_000_000) as u128;
    let q: u128 = shifted / 1_000_000_000;
    proof {
        lemma_floor_shift(now as int);
    }
    (q as i64) - 400_000_000_000
}

proof fn lemma_floor_shift(x: int)
    by (nonlinear_arith)
    requires
        -400_000_000_000_000_000_000 <= x <= 300_000_000_000_000_000_000,
    ensures
        (x + 400_000_000_000_000_000_000) / 1_000_000_000 == x / 1_000_000_000 + 400_000_000_000,
        0 <= (x + 400_000_000_000_000_000_000) / 1_000_000_000 <= 700_000_000_000,
{
}

/// The tokens to store after a code exchange answered with `resp`, stamped
/// with the current time and the expiry `expires_in` seconds from now.
pub fn exchanged_token(resp: TokenResponse) -> (r: CodexTokenStorage)
    ensures
        exists|at: i128, base: i128|
            clock_range(at) && clock_range(base) && r@ == #[trigger] exchanged(
                resp@,
                jwt_profile(resp@.id_token).0,
                jwt_profile(resp@.id_token).1,
                rfc3339_or_epoch(at),
                rfc3339_or_epoch((base + resp.expires_in * 1_000_000_000) as i128),
            ),
{
    let last_refresh = now_rfc3339();
    let expired = unix_now_rfc3339(resp.expires_in);
    let ghost at = choose|now: i128| clock_range(now) && last_refresh@ == rfc3339_or_epoch(now);
    let ghost base = choose|now: i128|
        clock_range(now) && expired@ == rfc3339_or_epoch(
            (now + resp.expires_in * 1_000_000_000) as i128,
        );
    let ghost expires_in = resp.expires_in;
    let r = token_from_exchange(resp, last_refresh, expired);
    assert(r@ == exchanged(
        resp@,
        jwt_profile(resp@.id_token).0,
        jwt_profile(resp@.id_token).1,
        rfc3339_or_epoch(at),
        rfc3339_or_epoch((base + expires_in * 1_000_000_000) as i128),
    ));
    r
}

/// The tokens to store after refreshing `prev` with the answer `resp`,
/// stamped with the current time and the new expiry.
pub fn refreshed_token(prev: &CodexTokenStorage, resp: TokenResponse) -> (r: CodexTokenStorage)
    ensures
        exists|at: i128, base: i128|
            clock_range(at) && clock_range(base) && r@ == #[trigger] refreshed(
                prev@,
                resp@,
                jwt_profile(resp@.id_token).0,
                jwt_profile(resp@.id_token).1,
                rfc3339_or_epoch(at),
                rfc3339_or_epoch((base + resp.expires_in * 1_000_000_000) as i128),
            ),
{
    let last_refresh = now_rfc3339();
    let expired = unix_now_rfc3339(resp.expires_in);
    let ghost at = choose|now: i128| clock_range(now) && last_refresh@ == rfc3339_or_epoch(now);
    let ghost base = choose|now: i128|
        clock_range(now) && expired@ == rfc3339_or_epoch(
            (now + resp.expires_in * 1_000_000_000) as i128,
        );
    let ghost expires_in = resp.expires_in;
    let r = token_from_refresh(prev, resp, last_refresh, expired);
    assert(r@ == refreshed(
        prev@,
        resp@,
        jwt_profile(resp@.id_token).0,
        jwt_profile(resp@.id_token).1,
        rfc3339_or_epoch(at),
        rfc3339_or_epoch((base + expires_in * 1_000_000_000) as i128),
    ));
    r
}

/// Whether the tokens need a refresh at Unix time `now`: when the access
/// token is blank, the expiry does not parse, or it is at most 60 seconds away.
pub open spec fn needs_refresh_at_spec(token: TokenView, now: i64) -> bool {
    if is_blank(token.access_token) {
        true
    } else {
        match spec_rfc3339_unix_timestamp(token.expired) {
            Some(expiry) => expiry <= now + 60,
            None => true,
        }
    }
}

/// Whether `token` needs a refresh at Unix time `now`.
pub fn needs_refresh_at(token: &CodexTokenStorage, now: i64) -> (r: bool)
    ensures
        r == needs_refresh_at_spec(token@, now),
{
    if str_is_blank(token.access_token.as_str()) {
        return true;
    }
    match parse_rfc3339_unix(token.expired.as_str()) {
        Some(expiry) => (expiry as i128) <= (now as i128) + 60,
        None => true,
    }
}

/// Whether `token` needs a refresh now.
pub fn needs_refresh(token: &CodexTokenStorage) -> (r: bool)
    ensures
        exists|nanos: i128|
            clock_range(nanos) && r == needs_refresh_at_spec(
                token@,
                (nanos / 1_000_000_000) as i64,
            ),
{
    let now = current_unix();
    let ghost nanos = choose|nanos: i128| clock_range(nanos) && now == nanos / 1_000_000_000;
    assert(now == (nanos / 1_000_000_000) as i64);
    needs_refresh_at(token, now)
}

/// Tokens with an access token and a readable expiry need a refresh exactly
/// when they expire within a minute; tokens without an access token, or whose
/// expiry cannot be read, always need one.
pub proof fn law_refresh_window(token: TokenView, now: i64)
    ensures
        is_blank(token.access_token) ==> needs_refresh_at_spec(token, now),
        !is_blank(token.access_token) && spec_rfc3339_unix_timestamp(token.expired) is None
            ==> needs_refresh_at_spec(token, now),
        !is_blank(token.access_token) && spec_rfc3339_unix_timestamp(token.expired) is Some ==> (
        needs_refresh_at_spec(token, now) <==> spec_rfc3339_unix_timestamp(token.expired)->Some_0
            - now <= 60),
{
}

/// The tokens stored after a code exchange are the answer's tokens (an
/// absent refresh token stored as empty) of type `codex`, with the given
/// profile and time stamps.
pub proof fn law_exchange_stores_the_answer(
    resp: ResponseView,
    email: Seq<char>,
    account_id: Seq<char>,
    last: Seq<char>,
    exp: Seq<char>,
)
    ensures
        ({
            let t = exchanged(resp, email, account_id, last, exp);
            &&& t.id_token == resp.id_token
            &&& t.access_token == resp.access_token
            &&& t.refresh_token == if resp.refresh_token is Some {
                resp.refresh_token->Some_0
            } else {
                Seq::<char>::empty()
            }
            &&& t.email == email && t.account_id == account_id
            &&& t.last_refresh == last && t.expired == exp
            &&& t.token_type == "codex"@
        }),
{
}

/// Tokens that need a refresh at one time still need it later.
pub proof fn law_refresh_need_persists(token: TokenView, now: i64, later: i64)
    requires
        now <= later,
        needs_refresh_at_spec(token, now),
    ensures
        needs_refresh_at_spec(token, later),
{
}

/// A refresh never leaves the stored refresh token blank: either a new,
/// non-blank one came, or the previous one (which a refresh requires not to be
/// blank) is kept.
pub proof fn law_refresh_keeps_a_refresh_token(
    prev: TokenView,
    resp: ResponseView,
    email: Seq<char>,
    account_id: Seq<char>,
    last: Seq<char>,
    exp: Seq<char>,
)
    requires
        !is_blank(prev.refresh_token),
    ensures
        !is_blank(refreshed(prev, resp, email, account_id, last, exp).refresh_token),
{
}

/// The message for a failed status of the token endpoint.
fn status_error(lead: &str, status: u16, body: &str) -> (r: String)
    ensures
        r@ == lead@ + decimal(status as nat) + ": "@ + body@,
{
    let mut out: Vec<char> = Vec::new();
    push_str_chars(&mut out, lead);
    push_decimal(&mut out, status as u128);
    push_str_chars(&mut out, ": ");
    push_str_chars(&mut out, body);
    string_of(&out)
}

/// The message when the code exchange answered with a failed status.
pub fn token_exchange_status_error(status: u16, body: &str) -> (r: String)
    ensures
        r@ == "Token exchange failed with status "@ + decimal(status as nat) + ": "@ + body@,
{
    status_error("Token exchange failed with status ", status, body)
}

/// The message when the refresh answered with a failed status.
pub fn token_refresh_status_error(status: u16, body: &str) -> (r: String)
    ensures
        r@ == "Token refresh failed with status "@ + decimal(status as nat) + ": "@ + body@,
{
    status_error("Token refresh failed with status ", status, body)
}

/// Whether the app is logged in, and as whom.
pub struct CodexStatus {
    pub authenticated: bool,
    pub email: Option<String>,
}

/// The account e-mail of stored tokens, unless blank.
pub fn token_email(token: &CodexTokenStorage) -> (r: Option<String>)
    ensures
        opt_view(r) == if is_blank(token@.email) {
            None
        } else {
            Some(token@.email)
        },
{
    if str_is_blank(token.email.as_str()) {
        None
    } else {
        Some(token.email.clone())
    }
}

/// The login status for the stored tokens (after any refresh): logged in when
/// there is a non-blank access token.
pub fn auth_status(token: Option<&CodexTokenStorage>) -> (r: CodexStatus)
    ensures
        match token {
            None => !r.authenticated && r.email is None,
            Some(t) => r.authenticated == !is_blank(t@.access_token) && opt_view(r.email) == if is_blank(
                t@.email,
            ) {
                None
            } else {
                Some(t@.email)
            },
        },
{
    match token {
        None => CodexStatus { authenticated: false, email: None },
        Some(t) => CodexStatus {
            authenticated: !str_is_blank(t.access_token.as_str()),
            email: token_email(t),
        },
    }
}

/// The token endpoint.
pub const CODEX_TOKEN_URL: &'static str = "https://auth.openai.com/oauth/token";

/// Form fields as views.
pub open spec fn form_views(v: Seq<(String, String)>) -> Seq<(Seq<char>, Seq<char>)> {
    v.map_values(|p: (String, String)| (p.0@, p.1@))
}

fn field(name: &str, value: &str) -> (r: (String, String))
    ensures
        r.0@ == name@,
        r.1@ == value@,
{
    (name.to_owned(), value.to_owned())
}

/// The form that exchanges a login code for tokens.
pub open spec fn exchange_form_spec(code: Seq<char>, verifier: Seq<char>) -> Seq<(Seq<char>, Seq<char>)> {
    seq![
        ("grant_type"@, "authorization_code"@),
        ("client_id"@, crate::oauth::CODEX_CLIENT_ID@),
        ("code"@, code),
        ("redirect_uri"@, crate::oauth::CODEX_REDIRECT_URI@),
        ("code_verifier"@, verifier),
    ]
}

/// The form that exchanges the login code, with the PKCE verifier.
pub fn exchange_form(code: &str, code_verifier: &str) -> (r: Vec<(String, String)>)
    ensures
        form_views(r@) == exchange_form_spec(code@, code_verifier@),
{
    let mut v: Vec<(String, String)> = Vec::new();
    v.push(field("grant_type", "authorization_code"));
    v.push(field("client_id", crate::oauth::CODEX_CLIENT_ID));
    v.push(field("code", code));
    v.push(field("redirect_uri", crate::oauth::CODEX_REDIRECT_URI));
    v.push(field("code_verifier", code_verifier));
    assert(form_views(v@) =~= exchange_form_spec(code@, code_verifier@));
    v
}

/// The form that refreshes tokens.
pub open spec fn refresh_form_spec(refresh_token: Seq<char>) -> Seq<(Seq<char>, Seq<char>)> {
    seq![
        ("client_id"@, crate::oauth::CODEX_CLIENT_ID@),
        ("grant_type"@, "refresh_token"@),
        ("refresh_token"@, refresh_token),
        ("scope"@, "openid profile email"@),
    ]
}

/// The form that refreshes the tokens with `refresh_token`.
pub fn refresh_form(refresh_token: &str) -> (r: Vec<(String, String)>)
    ensures
        form_views(r@) == refresh_form_spec(refresh_token@),
{
    let mut v: Vec<(String, String)> = Vec::new();
    v.push(field("client_id", crate::oauth::CODEX_CLIENT_ID));
    v.push(field("grant_type", "refresh_token"));
    v.push(field("refresh_token", refresh_token));
    v.push(field("scope", "openid profile email"));
    assert(form_views(v@) =~= refresh_form_spec(refresh_token@));
    v
}

/// The value a form gives a field: that of its first field named `key`.
pub open spec fn form_value(form: Seq<(Seq<char>, Seq<char>)>, key: Seq<char>) -> Option<Seq<char>>
    decreases form.len(),
{
    if form.len() == 0 {
        None
    } else if form[0].0 == key {
        Some(form[0].1)
    } else {
        form_value(form.drop_first(), key)
    }
}

proof fn lemma_form_value_at(form: Seq<(Seq<char>, Seq<char>)>, key: Seq<char>, i: int)
    requires
        0 <= i < form.len(),
        form[i].0 == key,
        forall|j: int| 0 <= j < i ==> (#[trigger] form[j]).0 != key,
    ensures
        form_value(form, key) == Some(form[i].1),
    decreases i,
{
    if i > 0 {
        assert(form[0].0 != key);
        assert forall|j: int| 0 <= j < i - 1 implies (#[trigger] form.drop_first()[j]).0 != key by {
            assert(form.drop_first()[j] == form[j + 1]);
        }
        lemma_form_value_at(form.drop_first(), key, i - 1);
    }
}

/// A form with no field named `key` gives it no value.
pub proof fn lemma_form_value_absent(form: Seq<(Seq<char>, Seq<char>)>, key: Seq<char>)
    requires
        forall|j: int| 0 <= j < form.len() ==> (#[trigger] form[j]).0 != key,
    ensures
        form_value(form, key) is None,
    decreases form.len(),
{
    if form.len() > 0 {
        assert forall|j: int| 0 <= j < form.drop_first().len() implies (#[trigger] form.drop_first()[
            j
        ]).0 != key by {
            assert(form.drop_first()[j] == form[j + 1]);
        }
        lemma_form_value_absent(form.drop_first(), key);
    }
}

/// The value of the field at `i` of a form whose field names all differ.
pub proof fn lemma_form_value_distinct(form: Seq<(Seq<char>, Seq<char>)>, i: int)
    requires
        0 <= i < form.len(),
        forall|a: int, b: int| 0 <= a < b < form.len() ==> (#[trigger] form[a]).0 != (#[trigger] form[b]).0,
    ensures
        form_value(form, form[i].0) == Some(form[i].1),
{
    assert forall|j: int| 0 <= j < i implies (#[trigger] form[j]).0 != form[i].0 by {
        assert(form[j].0 != form[i].0);
    }
    lemma_form_value_at(form, form[i].0, i);
}

/// The authorization request asks for a code (`response_type=code`) for the
/// same client and redirect address that the code exchange then uses, with
/// the login's state and its PKCE challenge by the `S256` method.
pub proof fn law_auth_request_matches_exchange(
    state: Seq<char>,
    challenge: Seq<char>,
    code: Seq<char>,
    verifier: Seq<char>,
)
    ensures
        form_value(crate::oauth::auth_params(state, challenge), "state"@) == Some(state),
        form_value(crate::oauth::auth_params(state, challenge), "code_challenge"@) == Some(
            challenge,
        ),
        form_value(crate::oauth::auth_params(state, challenge), "code_challenge_method"@) == Some(
            "S256"@,
        ),
        form_value(crate::oauth::auth_params(state, challenge), "response_type"@) == Some(
            "code"@,
        ),
        form_value(crate::oauth::auth_params(state, challenge), "client_id"@) == form_value(
            exchange_form_spec(code, verifier),
            "client_id"@,
        ),
        form_value(crate::oauth::auth_params(state, challenge), "redirect_uri"@) == form_value(
            exchange_form_spec(code, verifier),
            "redirect_uri"@,
        ),
{
    reveal_strlit("client_id");
    reveal_strlit("response_type");
    reveal_strlit("redirect_uri");
    reveal_strlit("scope");
    reveal_strlit("state");
    reveal_strlit("code_challenge");
    reveal_strlit("code_challenge_method");
    reveal_strlit("prompt");
    reveal_strlit("id_token_add_organizations");
    reveal_strlit("codex_cli_simplified_flow");
    let f = crate::oauth::auth_params(state, challenge);
    assert forall|a: int, b: int| 0 <= a < b < f.len() implies (#[trigger] f[a]).0 != (#[trigger] f[
        b
    ]).0 by {
        assert(f[a].0.len() != f[b].0.len() || f[a].0[1] != f[b].0[1]);
    }
    lemma_form_value_distinct(f, 0);
    lemma_form_value_distinct(f, 1);
    lemma_form_value_distinct(f, 2);
    lemma_form_value_distinct(f, 4);
    lemma_form_value_distinct(f, 5);
    lemma_form_value_distinct(f, 6);
    law_exchange_form_fields(code, verifier);
}

/// The login exchange is an `authorization_code` grant for the app's client
/// and redirect address that carries the authorization code under `code` and
/// the PKCE verifier under `code_verifier`.
pub proof fn law_exchange_form_fields(code: Seq<char>, verifier: Seq<char>)
    ensures
        form_value(exchange_form_spec(code, verifier), "code"@) == Some(code),
        form_value(exchange_form_spec(code, verifier), "code_verifier"@) == Some(verifier),
        form_value(exchange_form_spec(code, verifier), "grant_type"@) == Some(
            "authorization_code"@,
        ),
        form_value(exchange_form_spec(code, verifier), "client_id"@) == Some(
            crate::oauth::CODEX_CLIENT_ID@,
        ),
        form_value(exchange_form_spec(code, verifier), "redirect_uri"@) == Some(
            crate::oauth::CODEX_REDIRECT_URI@,
        ),
        exchange_form_spec(code, verifier).len() == 5,
{
    reveal_strlit("grant_type");
    reveal_strlit("client_id");
    reveal_strlit("code");
    reveal_strlit("redirect_uri");
    reveal_strlit("code_verifier");
    let f = exchange_form_spec(code, verifier);
    assert forall|i: int, j: int| 0 <= i < j < 5 implies (#[trigger] f[i]).0 != (#[trigger] f[j]).0 by {
        assert(f[i].0.len() != f[j].0.len());
    }
    lemma_form_value_at(f, "grant_type"@, 0);
    lemma_form_value_at(f, "client_id"@, 1);
    lemma_form_value_at(f, "code"@, 2);
    lemma_form_value_at(f, "redirect_uri"@, 3);
    lemma_form_value_at(f, "code_verifier"@, 4);
}

/// A refresh is a `refresh_token` grant, not the `authorization_code` grant
/// of the login exchange, for the app's client, carrying the given refresh
/// token and asking for the `openid profile email` scope.
pub proof fn law_refresh_form_fields(refresh_token: Seq<char>, code: Seq<char>, verifier: Seq<char>)
    ensures
        form_value(refresh_form_spec(refresh_token), "grant_type"@) == Some("refresh_token"@),
        form_value(refresh_form_spec(refresh_token), "refresh_token"@) == Some(refresh_token),
        form_value(refresh_form_spec(refresh_token), "client_id"@) == Some(
            crate::oauth::CODEX_CLIENT_ID@,
        ),
        form_value(refresh_form_spec(refresh_token), "scope"@) == Some("openid profile email"@),
        form_value(refresh_form_spec(refresh_token), "grant_type"@) != form_value(
            exchange_form_spec(code, verifier),
            "grant_type"@,
        ),
        refresh_form_spec(refresh_token).len() == 4,
{
    reveal_strlit("client_id");
    reveal_strlit("grant_type");
    reveal_strlit("refresh_token");
    reveal_strlit("scope");
    reveal_strlit("authorization_code");
    law_exchange_form_fields(code, verifier);
    let f = refresh_form_spec(refresh_token);
    assert forall|i: int, j: int| 0 <= i < j < 4 implies (#[trigger] f[i]).0 != (#[trigger] f[j]).0 by {
        assert(f[i].0.len() != f[j].0.len());
    }
    lemma_form_value_at(f, "client_id"@, 0);
    lemma_form_value_at(f, "grant_type"@, 1);
    lemma_form_value_at(f, "refresh_token"@, 2);
    lemma_form_value_at(f, "scope"@, 3);
    assert("refresh_token"@ != "authorization_code"@) by {
        assert("refresh_token"@.len() != "authorization_code"@.len());
    }
}

/// The stored tokens a generation needs: an error when there are none.
pub fn logged_in_token(stored: Option<CodexTokenStorage>) -> (r: Result<CodexTokenStorage, String>)
    ensures
        match stored {
            Some(t) => r matches Ok(u) && u@ == t@,
            None => r matches Err(e) && e@ == "Codex is not logged in."@,
        },
{
    match stored {
        Some(t) => Ok(t),
        None => Err("Codex is not logged in.".to_owned()),
    }
}

} // verus!
