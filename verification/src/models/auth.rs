//! Credentials: which requests obtain a token, when a cached token may still
//! be used, and what the answers of the token endpoint mean.

use vstd::prelude::*;
use vstd::utf8::encode_utf8;
use crate::models::search::RedditError;
use crate::settings::api_keys::ApiKeys;
use crate::text::{
    chars_of, find_from, first_occurrence, lemma_first_occurrence, occurs_at, same_text,
    slice_text,
};

verus! {

/// What a credential holds in a settings file that nobody has filled in.
pub open spec fn placeholder() -> Seq<char> {
    "CHANGE_ME"@
}

/// The address of the token endpoint.
pub open spec fn token_endpoint() -> Seq<char> {
    "https://www.reddit.com/api/v1/access_token"@
}

/// The standard base64 form, with padding, of the UTF-8 bytes of a text, as
/// the base64 crate computes it.
pub uninterp spec fn base64_of_text(text: Seq<char>) -> Seq<char>;

/// Calls `Engine::encode` of the base64 crate on its `STANDARD` engine. The
/// result depends on the bytes of the text alone; nothing more is claimed.
#[verifier::external_body]
fn base64_standard(text: &str) -> (r: String)
    ensures
        r@ == base64_of_text(text@),
{
    base64::Engine::encode(&base64::engine::general_purpose::STANDARD, text)
}

/// A byte that percent-encoding leaves as it is: a letter, a digit, `-`, `.`,
/// `_` or `~`.
pub open spec fn unreserved(b: u8) -> bool {
    ||| 0x30 <= b <= 0x39
    ||| 0x41 <= b <= 0x5a
    ||| 0x61 <= b <= 0x7a
    ||| b == 0x2d
    ||| b == 0x2e
    ||| b == 0x5f
    ||| b == 0x7e
}

/// The upper-case hexadecimal digit of a value below sixteen.
pub open spec fn hex_digit(d: int) -> char {
    if d < 10 {
        (0x30 + d) as char
    } else {
        (0x41 + d - 10) as char
    }
}

/// The percent-encoding of a run of bytes: every byte that is not unreserved
/// becomes `%` and its two hexadecimal digits.
pub open spec fn percent_encoded_bytes(bytes: Seq<u8>) -> Seq<char>
    decreases bytes.len(),
{
    if bytes.len() == 0 {
        Seq::empty()
    } else {
        let b = bytes.last();
        percent_encoded_bytes(bytes.drop_last()) + if unreserved(b) {
            seq![b as char]
        } else {
            seq!['%', hex_digit(b as int / 16), hex_digit(b as int % 16)]
        }
    }
}

/// The percent-encoding of the UTF-8 bytes of a text.
pub open spec fn percent_encoded(text: Seq<char>) -> Seq<char> {
    percent_encoded_bytes(encode_utf8(text))
}

/// Calls `urlencoding::encode`, which percent-encodes every byte of the text
/// except letters, digits, `-`, `_`, `.` and `~`, with upper-case hexadecimal
/// digits.
#[verifier::external_body]
fn url_encode(text: &str) -> (r: String)
    ensures
        r@ == percent_encoded(text@),
{
    urlencoding::encode(text).into_owned()
}

/// A request to the token endpoint, ready to be sent as a form post.
#[derive(Debug)]
pub struct TokenRequest {
    pub url: String,
    pub authorization: String,
    pub user_agent: String,
    pub form: Vec<(String, String)>,
}

/// The answer of the token endpoint, as far as it could be read.
#[derive(Debug)]
pub struct TokenReply {
    pub status: u16,
    pub access_token: Option<String>,
    pub expires_in: Option<i64>,
    pub refresh_token: Option<String>,
    pub error: Option<String>,
    pub body: String,
}

/// The fields of a form as contracts see them.
pub open spec fn form_fields(v: Seq<(String, String)>) -> Seq<(Seq<char>, Seq<char>)> {
    Seq::new(v.len(), |i: int| (v[i].0@, v[i].1@))
}

/// The value of the `Authorization` header for a client: `Basic`, a space, and
/// the base64 form of identifier, colon and secret.
pub open spec fn basic_authorization(client_id: Seq<char>, client_secret: Seq<char>) -> Seq<char> {
    "Basic "@ + base64_of_text(client_id + ":"@ + client_secret)
}

/// The request is a form post to the token endpoint in the name of the client,
/// with these form fields.
pub open spec fn is_token_request(
    r: TokenRequest,
    client_id: Seq<char>,
    client_secret: Seq<char>,
    agent: Seq<char>,
    form: Seq<(Seq<char>, Seq<char>)>,
) -> bool {
    &&& r.url@ == token_endpoint()
    &&& r.authorization@ == basic_authorization(client_id, client_secret)
    &&& r.user_agent@ == agent
    &&& form_fields(r.form@) == form
}

/// A status that reports success: 200 to 299.
pub open spec fn is_success(status: u16) -> bool {
    200 <= status < 300
}

/// Whether a credential still holds the placeholder.
pub fn is_unconfigured(value: &str) -> (r: bool)
    ensures
        r == (value@ == placeholder()),
{
    same_text(value, "CHANGE_ME")
}

/// Whether a credential is missing: empty, or still the placeholder.
pub fn is_missing(value: &str) -> (r: bool)
    ensures
        r == (value@.len() == 0 || value@ == placeholder()),
{
    let empty = same_text(value, "");
    proof {
        reveal_strlit("");
        if value@.len() == 0 {
            assert(value@ =~= ""@);
        }
    }
    empty || is_unconfigured(value)
}

/// The value of the `Authorization` header for a client.
pub fn authorization_header(client_id: &str, client_secret: &str) -> (r: String)
    ensures
        r@ == basic_authorization(client_id@, client_secret@),
{
    let credentials = client_id.to_owned().concat(":").concat(client_secret);
    let encoded = base64_standard(credentials.as_str());
    "Basic ".to_owned().concat(encoded.as_str())
}

/// Builds a request to the token endpoint.
fn token_request(client_id: &str, client_secret: &str, agent: &str, form: Vec<(String, String)>)
    -> (r: TokenRequest)
    ensures
        is_token_request(r, client_id@, client_secret@, agent@, form_fields(form@)),
{
    TokenRequest {
        url: "https://www.reddit.com/api/v1/access_token".to_owned(),
        authorization: authorization_header(client_id, client_secret),
        user_agent: agent.to_owned(),
        form,
    }
}

/// One form field.
fn field(name: &str, value: &str) -> (r: (String, String))
    ensures
        r.0@ == name@,
        r.1@ == value@,
{
    (name.to_owned(), value.to_owned())
}

/// The request of the client-credentials grant. Fails with `CredentialError`
/// exactly when the identifier or the secret still holds the placeholder.
pub fn service_token_request(client_id: &str, client_secret: &str) -> (r: Result<
    TokenRequest,
    RedditError,
>)
    ensures
        match r {
            Ok(req) => client_id@ != placeholder() && client_secret@ != placeholder()
                && is_token_request(
                req,
                client_id@,
                client_secret@,
                "RudditApp/0.1 by Ruddit"@,
                seq![("grant_type"@, "client_credentials"@)],
            ),
            Err(e) => (client_id@ == placeholder() || client_secret@ == placeholder())
                && e is CredentialError,
        },
{
    if is_unconfigured(client_id) || is_unconfigured(client_secret) {
        return Err(
            RedditError::CredentialError("Client ID and Secret must be configured first.".to_owned()),
        );
    }
    let form = vec![field("grant_type", "client_credentials")];
    assert(form_fields(form@) =~= seq![("grant_type"@, "client_credentials"@)]);
    Ok(token_request(client_id, client_secret, "RudditApp/0.1 by Ruddit", form))
}

/// The request of the password grant. Fails with `CredentialError` exactly
/// when one of the four inputs is empty or still holds the placeholder.
pub fn user_token_request(client_id: &str, client_secret: &str, username: &str, password: &str)
    -> (r: Result<TokenRequest, RedditError>)
    ensures
        match r {
            Ok(req) => !missing(client_id@) && !missing(client_secret@) && !missing(username@)
                && !missing(password@) && is_token_request(
                req,
                client_id@,
                client_secret@,
                "RudditApp/0.1 by Ruddit"@,
                seq![
                    ("grant_type"@, "password"@),
                    ("username"@, username@),
                    ("password"@, password@),
                ],
            ),
            Err(e) => (missing(client_id@) || missing(client_secret@) || missing(username@)
                || missing(password@)) && e is CredentialError,
        },
{
    if is_missing(client_id) || is_missing(client_secret) || is_missing(username) || is_missing(
        password,
    ) {
        return Err(
            RedditError::CredentialError(
                "Client ID, secret, username and password must be configured first.".to_owned(),
            ),
        );
    }
    let form = vec![
        field("grant_type", "password"),
        field("username", username),
        field("password", password),
    ];
    assert(form_fields(form@) =~= seq![
        ("grant_type"@, "password"@),
        ("username"@, username@),
        ("password"@, password@),
    ]);
    Ok(token_request(client_id, client_secret, "RudditApp/0.1 by Ruddit", form))
}

/// The credential is empty or still holds the placeholder.
pub open spec fn missing(value: Seq<char>) -> bool {
    value.len() == 0 || value == placeholder()
}

/// The request that exchanges the code of the interactive grant for tokens.
pub fn exchange_request(client_id: &str, client_secret: &str, code: &str, redirect_uri: &str) -> (r:
    TokenRequest)
    ensures
        is_token_request(
            r,
            client_id@,
            client_secret@,
            "Atalaia/0.1.0"@,
            seq![
                ("grant_type"@, "authorization_code"@),
                ("code"@, code@),
                ("redirect_uri"@, redirect_uri@),
            ],
        ),
{
    let form = vec![
        field("grant_type", "authorization_code"),
        field("code", code),
        field("redirect_uri", redirect_uri),
    ];
    assert(form_fields(form@) =~= seq![
        ("grant_type"@, "authorization_code"@),
        ("code"@, code@),
        ("redirect_uri"@, redirect_uri@),
    ]);
    token_request(client_id, client_secret, "Atalaia/0.1.0", form)
}

/// The request that obtains a new access token from the refresh credential.
pub fn refresh_request(client_id: &str, client_secret: &str, refresh_token: &str) -> (r:
    TokenRequest)
    ensures
        is_token_request(
            r,
            client_id@,
            client_secret@,
            "Atalaia/0.1.0"@,
            seq![("grant_type"@, "refresh_token"@), ("refresh_token"@, refresh_token@)],
        ),
{
    let form = vec![field("grant_type", "refresh_token"), field("refresh_token", refresh_token)];
    assert(form_fields(form@) =~= seq![
        ("grant_type"@, "refresh_token"@),
        ("refresh_token"@, refresh_token@),
    ]);
    token_request(client_id, client_secret, "Atalaia/0.1.0", form)
}

/// Whether a cached token may still be used at the instant `now`: it must not
/// be empty, and its expiry must lie more than sixty seconds ahead.
pub open spec fn token_fresh(token: Seq<char>, expires_at: int, now: int) -> bool {
    token.len() > 0 && expires_at - now > 60
}

/// The margin of sixty seconds is exact: a token that expires sixty seconds
/// after `now` or sooner is never fresh, and a token that is not empty and
/// expires later than that always is.
pub proof fn lemma_margin(token: Seq<char>, expires_at: int, now: int)
    ensures
        expires_at <= now + 60 ==> !token_fresh(token, expires_at, now),
        token.len() > 0 && expires_at > now + 60 ==> token_fresh(token, expires_at, now),
        token.len() == 0 ==> !token_fresh(token, expires_at, now),
{
}

/// The cached token where it may still be used at `now`; `None` where a new
/// token has to be requested.
pub fn cached_token(keys: &ApiKeys, now: i64) -> (r: Option<String>)
    ensures
        match r {
            Some(t) => t@ == keys.reddit_access_token@ && token_fresh(
                keys.reddit_access_token@,
                keys.reddit_token_expires_at as int,
                now as int,
            ),
            None => !token_fresh(
                keys.reddit_access_token@,
                keys.reddit_token_expires_at as int,
                now as int,
            ),
        },
{
    let ahead: i128 = keys.reddit_token_expires_at as i128 - now as i128;
    if !keys.reddit_access_token.as_str().is_empty() && ahead > 60 {
        Some(keys.reddit_access_token.clone())
    } else {
        None
    }
}

/// What has to happen before a request can carry a token.
#[derive(Debug)]
pub enum TokenStep {
    /// The cached token is fresh; no request is made.
    UseCached(String),
    /// A new token has to be obtained with this request.
    Exchange(TokenRequest),
}

/// Decides between the cached token and a new exchange. The cached token is
/// used exactly when it is fresh at `now`. Otherwise the client-credentials
/// request is handed out, or `CredentialError` where the identifier or the
/// secret still holds the placeholder.
pub fn token_step(keys: &ApiKeys, now: i64) -> (r: Result<TokenStep, RedditError>)
    ensures
        ({
            let fresh = token_fresh(
                keys.reddit_access_token@,
                keys.reddit_token_expires_at as int,
                now as int,
            );
            let unconfigured = keys.reddit_api_id@ == placeholder() || keys.reddit_api_secret@
                == placeholder();
            match r {
                Ok(TokenStep::UseCached(t)) => fresh && t@ == keys.reddit_access_token@,
                Ok(TokenStep::Exchange(req)) => !fresh && !unconfigured && is_token_request(
                    req,
                    keys.reddit_api_id@,
                    keys.reddit_api_secret@,
                    "RudditApp/0.1 by Ruddit"@,
                    seq![("grant_type"@, "client_credentials"@)],
                ),
                Err(e) => !fresh && unconfigured && e is CredentialError,
            }
        }),
{
    match cached_token(keys, now) {
        Some(token) => Ok(TokenStep::UseCached(token)),
        None => match service_token_request(
            keys.reddit_api_id.as_str(),
            keys.reddit_api_secret.as_str(),
        ) {
            Ok(req) => Ok(TokenStep::Exchange(req)),
            Err(e) => Err(e),
        },
    }
}

/// The instant `ahead` seconds after `now`, kept within 64 bits.
pub open spec fn expiry(now: int, ahead: int) -> int {
    if now + ahead > i64::MAX {
        i64::MAX as int
    } else if now + ahead < i64::MIN {
        i64::MIN as int
    } else {
        now + ahead
    }
}

/// The settings differ at most in the cached token, its expiry and the
/// refresh credential.
pub open spec fn same_but_tokens(a: ApiKeys, b: ApiKeys) -> bool {
    &&& a.reddit_api_id == b.reddit_api_id
    &&& a.reddit_api_secret == b.reddit_api_secret
    &&& a.gemini_api_key == b.gemini_api_key
    &&& a.gemini_model == b.gemini_model
    &&& a.ai_provider == b.ai_provider
    &&& a.openai_api_key == b.openai_api_key
    &&& a.openai_model == b.openai_model
    &&& a.subreddit == b.subreddit
    &&& a.relevance == b.relevance
    &&& a.lead_keywords == b.lead_keywords
    &&& a.branded_keywords == b.branded_keywords
    &&& a.sentiment == b.sentiment
    &&& a.intent_high == b.intent_high
    &&& a.intent_medium == b.intent_medium
    &&& a.match_keyword == b.match_keyword
    &&& a.reddit_username == b.reddit_username
    &&& a.reddit_password == b.reddit_password
}

/// Puts a token that was obtained at `now` with a lifetime of `expires_in`
/// seconds into the settings, with the instant at which it expires.
pub fn remember_token(keys: &mut ApiKeys, token: &str, expires_in: i64, now: i64)
    ensures
        final(keys).reddit_access_token@ == token@,
        final(keys).reddit_token_expires_at == expiry(now as int, expires_in as int),
        final(keys).reddit_refresh_token == old(keys).reddit_refresh_token,
        same_but_tokens(*final(keys), *old(keys)),
{
    let sum: i128 = now as i128 + expires_in as i128;
    let at: i64 = if sum > i64::MAX as i128 {
        i64::MAX
    } else if sum < i64::MIN as i128 {
        i64::MIN
    } else {
        sum as i64
    };
    keys.reddit_access_token = token.to_owned();
    keys.reddit_token_expires_at = at;
}

/// Puts the tokens of the interactive grant into the settings: the access
/// token always, the refresh credential where the answer holds one.
pub fn keep_tokens(keys: &mut ApiKeys, access_token: &str, refresh_token: Option<&str>)
    ensures
        final(keys).reddit_access_token@ == access_token@,
        final(keys).reddit_refresh_token@ == match refresh_token {
            Some(t) => t@,
            None => old(keys).reddit_refresh_token@,
        },
        final(keys).reddit_token_expires_at == old(keys).reddit_token_expires_at,
        same_but_tokens(*final(keys), *old(keys)),
{
    keys.reddit_access_token = access_token.to_owned();
    match refresh_token {
        Some(t) => {
            keys.reddit_refresh_token = t.to_owned();
        },
        None => {},
    }
}

/// Reads the answer to the client-credentials grant: the token and its
/// lifetime in seconds, zero where the answer declares none. Fails with
/// `TokenExtraction` exactly when the answer holds no token.
pub fn service_token_from_reply(reply: &TokenReply) -> (r: Result<(String, i64), RedditError>)
    ensures
        match r {
            Ok((token, lifetime)) => reply.access_token.is_some() && token@
                == reply.access_token->0@ && lifetime == match reply.expires_in {
                Some(n) => n,
                None => 0,
            },
            Err(e) => reply.access_token.is_none() && e is TokenExtraction,
        },
{
    match &reply.access_token {
        Some(token) => {
            let lifetime = match reply.expires_in {
                Some(n) => n,
                None => 0,
            };
            Ok((token.clone(), lifetime))
        },
        None => Err(RedditError::TokenExtraction),
    }
}

/// The remote party names the client as unauthorised.
pub open spec fn client_unauthorized(reply: TokenReply) -> bool {
    match reply.error {
        Some(e) => e@ == "unauthorized_client"@,
        None => false,
    }
}

/// Reads the answer to the password grant. An answer that names the client as
/// unauthorised gives `AuthRejected`; any other answer outside the 2xx range
/// gives `HttpError` with its status and body; a successful answer without a
/// token gives `TokenExtraction`.
pub fn user_token_from_reply(reply: &TokenReply) -> (r: Result<String, RedditError>)
    ensures
        match r {
            Ok(token) => !client_unauthorized(*reply) && is_success(reply.status)
                && reply.access_token.is_some() && token@ == reply.access_token->0@,
            Err(e) => if client_unauthorized(*reply) {
                e is AuthRejected
            } else if !is_success(reply.status) {
                e.is_http_error(reply.status, reply.body@)
            } else {
                reply.access_token.is_none() && e is TokenExtraction
            },
        },
{
    let rejected = match &reply.error {
        Some(e) => same_text(e.as_str(), "unauthorized_client"),
        None => false,
    };
    if rejected {
        return Err(RedditError::AuthRejected(reply.body.clone()));
    }
    if reply.status < 200 || reply.status >= 300 {
        return Err(RedditError::HttpError(reply.status, reply.body.clone()));
    }
    match &reply.access_token {
        Some(token) => Ok(token.clone()),
        None => Err(RedditError::TokenExtraction),
    }
}

/// A token that a request may carry: one that was obtained and is not empty.
pub fn usable_token(reply: Result<String, RedditError>) -> (r: Option<String>)
    ensures
        match reply {
            Ok(t) => if t@.len() > 0 {
                r.is_some() && r->0@ == t@
            } else {
                r.is_none()
            },
            Err(_) => r.is_none(),
        },
{
    match reply {
        Ok(t) => if t.as_str().is_empty() {
            None
        } else {
            Some(t)
        },
        Err(_) => None,
    }
}

/// The address to which the browser is sent for the interactive grant.
pub open spec fn authorize_address(
    client_id: Seq<char>,
    state: Seq<char>,
    redirect_uri: Seq<char>,
    scope: Seq<char>,
) -> Seq<char> {
    "https://www.reddit.com/api/v1/authorize?client_id="@ + client_id
        + "&response_type=code&state="@ + state + "&redirect_uri="@ + percent_encoded(redirect_uri)
        + "&duration=permanent&scope="@ + percent_encoded(scope)
}

/// The address to which the browser is sent for the interactive grant, with
/// the redirect address and the scope percent-encoded.
pub fn authorize_url(client_id: &str, state: &str, redirect_uri: &str, scope: &str) -> (r: String)
    ensures
        r@ == authorize_address(client_id@, state@, redirect_uri@, scope@),
{
    let redirect = url_encode(redirect_uri);
    let scopes = url_encode(scope);
    "https://www.reddit.com/api/v1/authorize?client_id=".to_owned().concat(client_id).concat(
        "&response_type=code&state=",
    ).concat(state).concat("&redirect_uri=").concat(redirect.as_str()).concat(
        "&duration=permanent&scope=",
    ).concat(scopes.as_str())
}

/// Where the code ends that starts at `from`: at the next `&` or space, or at
/// the end of the request.
pub open spec fn code_end(request: Seq<char>, from: int) -> int
    decreases request.len() - from,
{
    if from < 0 || from >= request.len() {
        request.len() as int
    } else if request[from] == '&' || request[from] == ' ' {
        from
    } else {
        code_end(request, from + 1)
    }
}

/// The authorisation code that the callback request carries: what stands
/// behind the first `code=`, up to the next `&` or space.
pub open spec fn callback_code(request: Seq<char>) -> Option<Seq<char>> {
    match first_occurrence("code="@, request, 0) {
        None => None,
        Some(p) => Some(request.subrange(p + 5, code_end(request, p + 5))),
    }
}

/// Reads the authorisation code out of the callback request of the browser.
pub fn code_from_callback(request: &str) -> (r: Option<String>)
    ensures
        match r {
            Some(code) => callback_code(request@) == Some(code@),
            None => callback_code(request@).is_none(),
        },
{
    let chars = chars_of(request);
    let marker = chars_of("code=");
    proof {
        reveal_strlit("code=");
        lemma_first_occurrence("code="@, request@, 0);
    }
    match find_from(&chars, &marker, 0) {
        None => None,
        Some(p) => {
            proof {
                assert(occurs_at("code="@, request@, p as int));
                assert("code="@.len() == 5);
                assert(chars@.len() == request@.len());
                assert(p + 5 <= chars.len());
            }
            let start = p + 5;
            let mut end = start;
            while end < chars.len() && chars[end] != '&' && chars[end] != ' '
                invariant
                    start <= end <= chars.len(),
                    chars@ == request@,
                    code_end(request@, start as int) == code_end(request@, end as int),
                decreases chars.len() - end,
            {
                end += 1;
            }
            Some(slice_text(request, start, end))
        },
    }
}

} // verus!
