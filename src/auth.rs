//! The decisions of the OAuth credential lifecycle: the authorize URL, what a
//! redirect delivers, the token-endpoint forms, and what each reply means.
//! The network, the browser and the redirect listener are driven by the caller.
use vstd::prelude::*;

use crate::text::{
    decimal,
    join_strs,
    joined,
    push_decimal,
    split_on,
    split_string,
    str_views,
    string_views,
};

verus! {

/// The API application's client credentials.
pub struct AppSecrets {
    pub client_id: u32,
    pub client_secret: String,
}

/// A user's tokens; `expires_at` is a unix timestamp in seconds.
pub struct AuthTokens {
    pub access_token: String,
    pub expires_at: i64,
    pub refresh_token: String,
}

/// A user's tokens.
pub type Token = AuthTokens;

/// What a successful authorization redirect carries.
pub struct AuthInfo {
    pub code: String,
    pub scopes: Vec<String>,
}

/// The outcome of one authorization attempt: the granted code and scopes, or
/// the reason given for refusal.
pub type AuthResult = Result<AuthInfo, String>;

/// A reply of the remote API: its HTTP status and body.
pub struct Response {
    pub status: u16,
    pub body: String,
}

/// Why no valid credentials could be had.
#[derive(Debug, PartialEq, Eq)]
pub enum AuthError {
    /// The user or provider refused the authorization, with the reason given.
    AuthorizationDenied(String),
    /// The authorization code could not be exchanged for tokens.
    ExchangeFailed,
    /// The refresh token could not be exchanged for new tokens.
    RefreshFailed,
}

/// What came back from a POST to the token endpoint: a transport failure, or a
/// status with the tokens read from the body (`None` when the body is malformed).
pub enum TokenReply {
    TransportError,
    Received { status: u16, tokens: Option<AuthTokens> },
}

/// The next thing to do once the authorization redirect has arrived.
pub enum AuthStep {
    /// POST this form to the token endpoint.
    Exchange(Vec<(String, String)>),
    /// Give up with this error (after letting the listener answer the browser).
    Denied(AuthError),
}

/// Whether stored tokens may be used as they are.
pub enum TokenStep {
    /// The tokens have not expired.
    Current,
    /// The tokens have expired: POST this form to the token endpoint.
    Refresh(Vec<(String, String)>),
}

pub open spec fn form_views(v: Seq<(String, String)>) -> Seq<(Seq<char>, Seq<char>)> {
    v.map_values(|p: (String, String)| (p.0@, p.1@))
}

/// The provider's authorize URL for a client and its requested scopes.
pub open spec fn auth_url_text(client_id: nat, scopes: Seq<Seq<char>>) -> Seq<char> {
    "https://www.strava.com/oauth/authorize?client_id="@ + decimal(client_id)
        + "&redirect_uri=http://localhost:8000&response_type=code&approval_prompt=auto&scope="@
        + joined(scopes, ',')
}

/// The form that trades an authorization code for tokens.
pub open spec fn exchange_form(code: Seq<char>, client_id: nat, client_secret: Seq<char>) -> Seq<
    (Seq<char>, Seq<char>),
> {
    seq![
        ("client_id"@, decimal(client_id)),
        ("client_secret"@, client_secret),
        ("code"@, code),
        ("grant_type"@, "authorization_code"@),
    ]
}

/// The form that trades a refresh token for new tokens.
pub open spec fn refresh_form(refresh_token: Seq<char>, client_id: nat, client_secret: Seq<char>) -> Seq<
    (Seq<char>, Seq<char>),
> {
    seq![
        ("client_id"@, decimal(client_id)),
        ("client_secret"@, client_secret),
        ("grant_type"@, "refresh_token"@),
        ("refresh_token"@, refresh_token),
    ]
}

/// A status in the 2xx range.
pub open spec fn is_success(status: u16) -> bool {
    200 <= status <= 299
}

/// The tokens that a reply delivers, if it is a success carrying well-formed tokens.
pub open spec fn delivered_tokens(reply: TokenReply) -> Option<AuthTokens> {
    match reply {
        TokenReply::Received { status, tokens } => if is_success(status) {
            tokens
        } else {
            None
        },
        TokenReply::TransportError => None,
    }
}

/// Builds the authorize URL that sends the user to the provider's consent page.
pub fn auth_url(client_id: u32, scopes: &[&str]) -> (r: String)
    ensures
        r@ == auth_url_text(client_id as nat, str_views(scopes@)),
{
    let mut url = String::from_str("https://www.strava.com/oauth/authorize?client_id=");
    push_decimal(&mut url, client_id as u128);
    url.append("&redirect_uri=http://localhost:8000&response_type=code&approval_prompt=auto&scope=");
    proof {
        reveal_strlit(",");
    }
    let scope_list = join_strs(scopes, ",");
    url.append(scope_list.as_str());
    proof {
        assert(url@ =~= auth_url_text(client_id as nat, str_views(scopes@)));
    }
    url
}

impl AuthInfo {
    /// The code as given and the scopes as a comma-separated list.
    pub fn new(code: &str, scopes: &str) -> (r: Self)
        ensures
            r.code@ == code@,
            string_views(r.scopes@) == split_on(scopes@, ','),
    {
        AuthInfo { code: String::from_str(code), scopes: split_string(scopes, ',') }
    }
}

/// What one redirect to the local listener delivers: a success when both `code`
/// and `scope` are present, otherwise a failure when `error` is, otherwise
/// nothing (no route matches).
pub fn redirect_result(code: Option<&str>, scope: Option<&str>, error: Option<&str>) -> (r: Option<
    AuthResult,
>)
    ensures
        code is Some && scope is Some ==> (r matches Some(Ok(info)) && info.code@ == code->0@
            && string_views(info.scopes@) == split_on(scope->0@, ',')),
        !(code is Some && scope is Some) && error is Some ==> (r matches Some(Err(reason)) && reason@
            == error->0@),
        !(code is Some && scope is Some) && error is None ==> r is None,
{
    match (code, scope) {
        (Some(c), Some(s)) => Some(Ok(AuthInfo::new(c, s))),
        _ => match error {
            Some(e) => Some(Err(String::from_str(e))),
            None => None,
        },
    }
}

fn form_pair(key: &str, value: &str) -> (r: (String, String))
    ensures
        r.0@ == key@,
        r.1@ == value@,
{
    (String::from_str(key), String::from_str(value))
}

fn decimal_string(n: u32) -> (r: String)
    ensures
        r@ == decimal(n as nat),
{
    let mut s = String::new();
    push_decimal(&mut s, n as u128);
    proof {
        assert(s@ =~= decimal(n as nat));
    }
    s
}

/// The form that trades an authorization code for tokens.
pub fn exchange_token_form(code: &str, client_id: u32, client_secret: &str) -> (r: Vec<(String, String)>)
    ensures
        form_views(r@) == exchange_form(code@, client_id as nat, client_secret@),
{
    let id = decimal_string(client_id);
    let mut form: Vec<(String, String)> = Vec::new();
    form.push((String::from_str("client_id"), id));
    form.push(form_pair("client_secret", client_secret));
    form.push(form_pair("code", code));
    form.push(form_pair("grant_type", "authorization_code"));
    proof {
        assert(form_views(form@) =~= exchange_form(code@, client_id as nat, client_secret@));
    }
    form
}

/// The form that trades a refresh token for new tokens.
pub fn refresh_token_form(refresh_token: &str, client_id: u32, client_secret: &str) -> (r: Vec<
    (String, String),
>)
    ensures
        form_views(r@) == refresh_form(refresh_token@, client_id as nat, client_secret@),
{
    let id = decimal_string(client_id);
    let mut form: Vec<(String, String)> = Vec::new();
    form.push((String::from_str("client_id"), id));
    form.push(form_pair("client_secret", client_secret));
    form.push(form_pair("grant_type", "refresh_token"));
    form.push(form_pair("refresh_token", refresh_token));
    proof {
        assert(form_views(form@) =~= refresh_form(refresh_token@, client_id as nat, client_secret@));
    }
    form
}

/// Whether a status is in the 2xx range.
pub fn status_is_success(status: u16) -> (r: bool)
    ensures
        r == is_success(status),
{
    200 <= status && status <= 299
}

/// What follows the authorization redirect: on success, exchanging its code
/// with the application's credentials; on refusal, the refusal and its reason.
pub fn after_authorization(result: AuthResult, secrets: &AppSecrets) -> (r: AuthStep)
    ensures
        match result {
            Ok(info) => r matches AuthStep::Exchange(form) && form_views(form@) == exchange_form(
                info.code@,
                secrets.client_id as nat,
                secrets.client_secret@,
            ),
            Err(reason) => r matches AuthStep::Denied(AuthError::AuthorizationDenied(why)) && why@
                == reason@,
        },
{
    match result {
        Ok(info) => AuthStep::Exchange(
            exchange_token_form(info.code.as_str(), secrets.client_id, secrets.client_secret.as_str()),
        ),
        Err(reason) => AuthStep::Denied(AuthError::AuthorizationDenied(reason)),
    }
}

/// The tokens that the code exchange produced, or `ExchangeFailed` on a
/// transport error, a status outside 2xx or a malformed body.
pub fn complete_exchange(reply: TokenReply) -> (r: Result<AuthTokens, AuthError>)
    ensures
        match delivered_tokens(reply) {
            Some(t) => r == Ok::<AuthTokens, AuthError>(t),
            None => r matches Err(AuthError::ExchangeFailed),
        },
{
    match reply {
        TokenReply::Received { status, tokens: Some(t) } => if status_is_success(status) {
            Ok(t)
        } else {
            Err(AuthError::ExchangeFailed)
        },
        _ => Err(AuthError::ExchangeFailed),
    }
}

/// Whether the tokens have expired at unix time `now`.
pub fn is_expired(tokens: &AuthTokens, now: i64) -> (r: bool)
    ensures
        r == (tokens.expires_at < now),
{
    tokens.expires_at < now
}

/// Decides, at unix time `now`, whether stored tokens can be handed out as they
/// are or must first be refreshed, and with which form.
pub fn get_token(tokens: &AuthTokens, secrets: &AppSecrets, now: i64) -> (r: TokenStep)
    ensures
        tokens.expires_at < now <==> r is Refresh,
        r matches TokenStep::Refresh(form) ==> form_views(form@) == refresh_form(
            tokens.refresh_token@,
            secrets.client_id as nat,
            secrets.client_secret@,
        ),
{
    if is_expired(tokens, now) {
        TokenStep::Refresh(
            refresh_token_form(
                tokens.refresh_token.as_str(),
                secrets.client_id,
                secrets.client_secret.as_str(),
            ),
        )
    } else {
        TokenStep::Current
    }
}

/// The tokens that a refresh produced, or `RefreshFailed` on a transport
/// error, a status outside 2xx or a malformed body. The caller's own tokens are
/// only read, so a failure leaves them as they were.
pub fn complete_refresh(reply: TokenReply) -> (r: Result<AuthTokens, AuthError>)
    ensures
        match delivered_tokens(reply) {
            Some(t) => r == Ok::<AuthTokens, AuthError>(t),
            None => r matches Err(AuthError::RefreshFailed),
        },
{
    match reply {
        TokenReply::Received { status, tokens: Some(t) } => if status_is_success(status) {
            Ok(t)
        } else {
            Err(AuthError::RefreshFailed)
        },
        _ => Err(AuthError::RefreshFailed),
    }
}

} // verus!
