//! The API client: its authentication, the bearer token cache, and the URLs
//! of its requests. The requests themselves are sent by the caller.
use crate::decimal::{parse_u64, parse_u64_spec, IntErrorKind};
use std::sync::Arc;
use vstd::prelude::*;

verus! {

/// `reqwest::Client`, held by the API client to send its requests.
#[verifier::external_type_specification]
#[verifier::external_body]
pub struct ExClient(reqwest::Client);

/// `tokio::sync::RwLock`, which guards the token cache.
#[verifier::external_type_specification]
#[verifier::external_body]
#[verifier::reject_recursive_types(T)]
pub struct ExRwLock<T: ?Sized>(tokio::sync::RwLock<T>);

/// Calls `tokio::sync::RwLock::new`, which makes a new, unlocked lock that holds
/// `value`. The lock's contents change through shared references (that is what
/// a lock is for), so nothing is claimed of them here.
#[verifier::external_body]
fn new_token_lock(value: Option<TokenCache>) -> tokio::sync::RwLock<Option<TokenCache>> {
    tokio::sync::RwLock::new(value)
}

/// The header that carries a request's credentials.
pub const AUTHORIZATION_HEADER: &'static str = "Authorization";

/// Nanoseconds in one second.
pub const NANOS_PER_SEC: u128 = 1_000_000_000;

/// A cached token is used only while it stays valid for more than this many
/// nanoseconds (one minute).
pub const TOKEN_MARGIN_NANOS: u128 = 60_000_000_000;

/// How the client authenticates its requests.
pub enum AuthMethod {
    /// A fixed API key, sent as a bearer token.
    ApiKey(String),
    /// An Azure service principal, which obtains bearer tokens from Azure AD.
    AzureServicePrincipal {
        tenant_id: String,
        client_id: String,
        client_secret: String,
        scope: String,
    },
}

/// The view of an [`AuthMethod`].
pub enum Auth {
    ApiKey(Seq<char>),
    AzureServicePrincipal {
        tenant_id: Seq<char>,
        client_id: Seq<char>,
        client_secret: Seq<char>,
        scope: Seq<char>,
    },
}

impl View for AuthMethod {
    type V = Auth;

    open spec fn view(&self) -> Auth {
        match self {
            AuthMethod::ApiKey(k) => Auth::ApiKey(k@),
            AuthMethod::AzureServicePrincipal { tenant_id, client_id, client_secret, scope } =>
                Auth::AzureServicePrincipal {
                tenant_id: tenant_id@,
                client_id: client_id@,
                client_secret: client_secret@,
                scope: scope@,
            },
        }
    }
}

/// A bearer token obtained earlier, and the time at which it expires, in
/// nanoseconds on the client's clock.
pub struct TokenCache {
    pub token: String,
    pub expires_at: u128,
}

/// The answer of the Azure AD token endpoint.
pub struct AzureTokenResponse {
    pub token_type: String,
    pub expires_in: u64,
    pub ext_expires_in: u64,
    pub expires_on: u64,
    pub not_before: u64,
    pub resource: String,
    pub access_token: String,
}

/// A request for a token: a form posted to `url`.
pub struct TokenRequest {
    pub url: String,
    pub form: Vec<(String, String)>,
}

/// What the client does to produce an `Authorization` header.
pub enum AuthStep {
    /// The header is ready.
    Header(String),
    /// A token must be requested first.
    RequestToken(TokenRequest),
}

/// The view of an [`AuthStep`].
pub enum Step {
    Header(Seq<char>),
    RequestToken { url: Seq<char>, form: Seq<(Seq<char>, Seq<char>)> },
}

impl View for AuthStep {
    type V = Step;

    open spec fn view(&self) -> Step {
        match self {
            AuthStep::Header(h) => Step::Header(h@),
            AuthStep::RequestToken(req) => Step::RequestToken {
                url: req.url@,
                form: req.form@.map_values(|p: (String, String)| (p.0@, p.1@)),
            },
        }
    }
}

/// The `Authorization` header value for the bearer token `token`.
pub open spec fn bearer(token: Seq<char>) -> Seq<char> {
    "Bearer "@ + token
}

/// The Azure AD token endpoint of the tenant `tenant_id`.
pub open spec fn token_url(tenant_id: Seq<char>) -> Seq<char> {
    "https://login.microsoftonline.com/"@ + tenant_id + "/oauth2/token"@
}

/// The form that requests a token with the client credentials.
pub open spec fn token_form(client_id: Seq<char>, client_secret: Seq<char>, scope: Seq<char>) -> Seq<
    (Seq<char>, Seq<char>),
> {
    seq![
        ("grant_type"@, "client_credentials"@),
        ("client_id"@, client_id),
        ("client_secret"@, client_secret),
        ("scope"@, scope),
    ]
}

/// Whether the cached token `cache` may still be used at time `now`: it stays
/// valid for more than the margin.
pub open spec fn cache_fresh(cache: Option<TokenCache>, now: int) -> bool {
    match cache {
        Some(c) => c.expires_at > now + TOKEN_MARGIN_NANOS,
        None => false,
    }
}

/// What the client does at time `now`, with the token cache holding `cache`.
pub open spec fn auth_step_spec(auth: Auth, cache: Option<TokenCache>, now: int) -> Step {
    match auth {
        Auth::ApiKey(key) => Step::Header(bearer(key)),
        Auth::AzureServicePrincipal { tenant_id, client_id, client_secret, scope } => {
            if cache_fresh(cache, now) {
                Step::Header(bearer(cache->0.token@))
            } else {
                Step::RequestToken {
                    url: token_url(tenant_id),
                    form: token_form(client_id, client_secret, scope),
                }
            }
        },
    }
}

/// The `Authorization` header value for the bearer token `token`.
pub fn bearer_header(token: &str) -> (r: String)
    ensures
        r@ == bearer(token@),
        r@.len() == 7 + token@.len(),
        r@.subrange(0, 7) == seq!['B', 'e', 'a', 'r', 'e', 'r', ' '],
        r@.subrange(7, r@.len() as int) == token@,
{
    let mut r = String::from_str("Bearer ");
    r.append(token);
    proof {
        lemma_bearer_whole_token(token@);
    }
    r
}

/// The bearer header of a token is `Bearer ` followed by the whole token, character
/// for character: seven characters more than the token, the token after them.
pub proof fn lemma_bearer_whole_token(token: Seq<char>)
    ensures
        bearer(token).len() == 7 + token.len(),
        bearer(token).subrange(0, 7) == seq!['B', 'e', 'a', 'r', 'e', 'r', ' '],
        bearer(token).subrange(7, bearer(token).len() as int) == token,
{
    reveal_strlit("Bearer ");
    assert(bearer(token).subrange(0, 7) =~= seq!['B', 'e', 'a', 'r', 'e', 'r', ' ']);
    assert(bearer(token).subrange(7, bearer(token).len() as int) =~= token);
}

/// Every header that the client gives carries its whole token after `Bearer `:
/// the API key, or the cached token of a service principal.
pub proof fn lemma_header_carries_whole_token(auth: Auth, cache: Option<TokenCache>, now: int)
    ensures
        auth_step_spec(auth, cache, now) matches Step::Header(h) ==> {
            let token = match auth {
                Auth::ApiKey(key) => key,
                Auth::AzureServicePrincipal { .. } => cache->0.token@,
            };
            &&& h.len() == 7 + token.len()
            &&& h.subrange(0, 7) == seq!['B', 'e', 'a', 'r', 'e', 'r', ' ']
            &&& h.subrange(7, h.len() as int) == token
        },
{
    match auth {
        Auth::ApiKey(key) => lemma_bearer_whole_token(key),
        Auth::AzureServicePrincipal { .. } => {
            if cache is Some {
                lemma_bearer_whole_token(cache->0.token@);
            }
        },
    }
}

/// The token cache of a new client: empty.
pub fn initial_token_cache() -> (r: Option<TokenCache>)
    ensures
        r is None,
{
    None
}

/// A client of an HTTP API at `base_url`, which authenticates its requests
/// with `auth` and caches the bearer tokens that it obtains.
pub struct ApiClient {
    client: reqwest::Client,
    base_url: String,
    auth: AuthMethod,
    token_cache: Arc<tokio::sync::RwLock<Option<TokenCache>>>,
}

impl ApiClient {
    /// The address of the API.
    pub closed spec fn base_url_view(&self) -> Seq<char> {
        self.base_url@
    }

    /// How the client authenticates.
    pub closed spec fn auth_view(&self) -> Auth {
        self.auth@
    }

    /// The HTTP client that sends the requests.
    pub closed spec fn http_client_view(&self) -> reqwest::Client {
        self.client
    }

    /// The lock that guards the token cache.
    pub closed spec fn token_cache_view(&self) -> Arc<tokio::sync::RwLock<Option<TokenCache>>> {
        self.token_cache
    }

    /// A client that sends its requests with `client` and `api_key` as its bearer
    /// token. Its token lock is made holding [`initial_token_cache`], which is empty;
    /// the lock is opaque here, so no clause states what it holds.
    pub fn with_api_key(client: reqwest::Client, base_url: &str, api_key: &str) -> (r: Self)
        ensures
            r.http_client_view() == client,
            r.base_url_view() == base_url@,
            r.auth_view() == Auth::ApiKey(api_key@),
    {
        ApiClient {
            client,
            base_url: base_url.to_owned(),
            auth: AuthMethod::ApiKey(api_key.to_owned()),
            token_cache: Arc::new(new_token_lock(initial_token_cache())),
        }
    }

    /// A client that sends its requests with `client` and obtains its bearer
    /// tokens from Azure AD as the service principal `client_id` of the tenant
    /// `tenant_id`. Its token lock is made holding [`initial_token_cache`], which is
    /// empty, so its first request asks for a token; the lock is opaque here, so no
    /// clause states what it holds.
    pub fn with_azure_sp(
        client: reqwest::Client,
        base_url: &str,
        tenant_id: &str,
        client_id: &str,
        client_secret: &str,
        scope: &str,
    ) -> (r: Self)
        ensures
            r.http_client_view() == client,
            r.base_url_view() == base_url@,
            r.auth_view() == (Auth::AzureServicePrincipal {
                tenant_id: tenant_id@,
                client_id: client_id@,
                client_secret: client_secret@,
                scope: scope@,
            }),
    {
        ApiClient {
            client,
            base_url: base_url.to_owned(),
            auth: AuthMethod::AzureServicePrincipal {
                tenant_id: tenant_id.to_owned(),
                client_id: client_id.to_owned(),
                client_secret: client_secret.to_owned(),
                scope: scope.to_owned(),
            },
            token_cache: Arc::new(new_token_lock(initial_token_cache())),
        }
    }

    /// The address of the API.
    pub fn base_url(&self) -> (r: &str)
        ensures
            r@ == self.base_url_view(),
    {
        self.base_url.as_str()
    }

    /// How the client authenticates.
    pub fn auth(&self) -> (r: &AuthMethod)
        ensures
            r@ == self.auth_view(),
    {
        &self.auth
    }

    /// The HTTP client that sends the requests.
    pub fn http_client(&self) -> (r: &reqwest::Client)
        ensures
            *r == self.http_client_view(),
    {
        &self.client
    }

    /// The cache of the last bearer token obtained.
    pub fn token_cache(&self) -> (r: &Arc<tokio::sync::RwLock<Option<TokenCache>>>)
        ensures
            *r == self.token_cache_view(),
    {
        &self.token_cache
    }

    /// The URL of the API endpoint at `path`.
    pub fn request_url(&self, path: &str) -> (r: String)
        ensures
            r@ == self.base_url_view() + path@,
    {
        let mut url = self.base_url.clone();
        url.append(path);
        url
    }

    /// What the client does to authenticate a request at time `now` (in
    /// nanoseconds on the client's clock), with the token cache holding `cache`:
    /// an API key gives its header at once; a service principal uses the cached
    /// token while it stays valid for more than a minute, and otherwise asks for
    /// a new token.
    pub fn auth_step(&self, cache: &Option<TokenCache>, now: u128) -> (r: AuthStep)
        ensures
            r@ == auth_step_spec(self.auth_view(), *cache, now as int),
    {
        match &self.auth {
            AuthMethod::ApiKey(key) => AuthStep::Header(bearer_header(key.as_str())),
            AuthMethod::AzureServicePrincipal { tenant_id, client_id, client_secret, scope } => {
                if let Some(cached) = cache {
                    if cached.expires_at > now && cached.expires_at - now > TOKEN_MARGIN_NANOS {
                        return AuthStep::Header(bearer_header(cached.token.as_str()));
                    }
                }
                let mut url = String::from_str("https://login.microsoftonline.com/");
                url.append(tenant_id.as_str());
                url.append("/oauth2/token");
                let mut form: Vec<(String, String)> = Vec::new();
                form.push((String::from_str("grant_type"), String::from_str("client_credentials")));
                form.push((String::from_str("client_id"), client_id.clone()));
                form.push((String::from_str("client_secret"), client_secret.clone()));
                form.push((String::from_str("scope"), scope.clone()));
                let r = AuthStep::RequestToken(TokenRequest { url, form });
                assert(r@ == auth_step_spec(self.auth_view(), *cache, now as int)) by {
                    assert(r->RequestToken_0.form@.map_values(|p: (String, String)| (p.0@, p.1@))
                        =~= token_form(client_id@, client_secret@, scope@));
                }
                r
            },
        }
    }

    /// The token cache and the header after the token endpoint answered `resp`
    /// at time `now`: the token expires `resp.expires_in` seconds after `now`.
    pub fn token_received(resp: &AzureTokenResponse, now: u128) -> (r: (TokenCache, String))
        requires
            now + resp.expires_in * NANOS_PER_SEC <= u128::MAX,
        ensures
            r.0.token@ == resp.access_token@,
            r.0.expires_at == now + resp.expires_in * NANOS_PER_SEC,
            r.1@ == bearer(resp.access_token@),
            r.1@.len() == 7 + resp.access_token@.len(),
            r.1@.subrange(0, 7) == seq!['B', 'e', 'a', 'r', 'e', 'r', ' '],
            r.1@.subrange(7, r.1@.len() as int) == resp.access_token@,
    {
        let expires_at = now + resp.expires_in as u128 * NANOS_PER_SEC;
        let token = resp.access_token.clone();
        let header = bearer_header(token.as_str());
        (TokenCache { token, expires_at }, header)
    }
}

/// A client with an API key never asks for a token: its header carries the key.
pub proof fn lemma_api_key_header(key: Seq<char>, cache: Option<TokenCache>, now: int)
    ensures
        auth_step_spec(Auth::ApiKey(key), cache, now) == Step::Header(bearer(key)),
{
}

/// Every `Authorization` header that the client produces starts with `Bearer `.
pub proof fn lemma_header_is_bearer(auth: Auth, cache: Option<TokenCache>, now: int)
    ensures
        auth_step_spec(auth, cache, now) matches Step::Header(h) ==> "Bearer "@.is_prefix_of(h),
{
    if let Step::Header(h) = auth_step_spec(auth, cache, now) {
        let token = match auth {
            Auth::ApiKey(key) => key,
            Auth::AzureServicePrincipal { .. } => cache->0.token@,
        };
        assert(h == bearer(token));
        assert(h.subrange(0, "Bearer "@.len() as int) =~= "Bearer "@);
    }
}

/// A token received at time `received_at` and stored in the cache (as
/// `token_received` stores it) is used, without a new request, by every request
/// made while it stays valid for more than the margin.
pub proof fn lemma_fresh_token_reused(
    auth: Auth,
    resp: AzureTokenResponse,
    cache: TokenCache,
    received_at: int,
    now: int,
)
    requires
        auth is AzureServicePrincipal,
        cache.token@ == resp.access_token@,
        cache.expires_at == received_at + resp.expires_in * NANOS_PER_SEC,
        now + TOKEN_MARGIN_NANOS < received_at + resp.expires_in * NANOS_PER_SEC,
    ensures
        auth_step_spec(auth, Some(cache), now) == Step::Header(bearer(resp.access_token@)),
{
}

/// A service principal whose cached token expires within the margin, or that has
/// no cached token, asks its tenant's token endpoint for a new token with its
/// client credentials.
pub proof fn lemma_stale_token_refreshed(
    tenant_id: Seq<char>,
    client_id: Seq<char>,
    client_secret: Seq<char>,
    scope: Seq<char>,
    cache: Option<TokenCache>,
    now: int,
)
    requires
        cache matches Some(c) ==> c.expires_at <= now + TOKEN_MARGIN_NANOS,
    ensures
        auth_step_spec(
            Auth::AzureServicePrincipal { tenant_id, client_id, client_secret, scope },
            cache,
            now,
        ) == (Step::RequestToken {
            url: token_url(tenant_id),
            form: token_form(client_id, client_secret, scope),
        }),
        token_url(tenant_id) == "https://login.microsoftonline.com/"@ + tenant_id
            + "/oauth2/token"@,
        token_form(client_id, client_secret, scope) == seq![
            ("grant_type"@, "client_credentials"@),
            ("client_id"@, client_id),
            ("client_secret"@, client_secret),
            ("scope"@, scope),
        ],
{
}

/// The cached token is used exactly when it stays valid for more than one minute
/// (60 000 000 000 nanoseconds) after `now`.
pub proof fn lemma_cache_fresh_margin(cache: TokenCache, now: int)
    ensures
        cache_fresh(Some(cache), now) <==> cache.expires_at > now + 60_000_000_000,
        !cache_fresh(None, now),
{
}

/// A service principal whose token cache is empty, as a new client's is
/// ([`initial_token_cache`]), asks its tenant's token endpoint for a token.
pub proof fn lemma_empty_cache_requests_token(
    tenant_id: Seq<char>,
    client_id: Seq<char>,
    client_secret: Seq<char>,
    scope: Seq<char>,
    cache: Option<TokenCache>,
    now: int,
)
    requires
        cache is None,
    ensures
        auth_step_spec(
            Auth::AzureServicePrincipal { tenant_id, client_id, client_secret, scope },
            cache,
            now,
        ) == (Step::RequestToken {
            url: token_url(tenant_id),
            form: token_form(client_id, client_secret, scope),
        }),
{
}

/// The client secret of a service principal goes only into the form of the token
/// request, which is posted to its tenant's token endpoint: whatever the secret,
/// the client gives the same header (the cached token, as a bearer token), asks
/// for a token at the same moments and at the same URL, and the forms differ only
/// in the secret's field. The header after a token arrives is made of the
/// received access token alone (see `token_received`).
pub proof fn lemma_secret_only_in_token_request(
    tenant_id: Seq<char>,
    client_id: Seq<char>,
    secret_a: Seq<char>,
    secret_b: Seq<char>,
    scope: Seq<char>,
    cache: Option<TokenCache>,
    now: int,
)
    ensures
        ({
            let a = auth_step_spec(
                Auth::AzureServicePrincipal { tenant_id, client_id, client_secret: secret_a, scope },
                cache,
                now,
            );
            let b = auth_step_spec(
                Auth::AzureServicePrincipal { tenant_id, client_id, client_secret: secret_b, scope },
                cache,
                now,
            );
            &&& a is Header <==> b is Header
            &&& a matches Step::Header(h) ==> h == bearer(cache->0.token@) && b == a
            &&& a matches Step::RequestToken { url, form } ==> {
                &&& url == token_url(tenant_id)
                &&& b == (Step::RequestToken { url, form: form.update(2, ("client_secret"@, secret_b)) })
                &&& form == token_form(client_id, secret_a, scope)
            }
        }),
{
    let fa = token_form(client_id, secret_a, scope);
    assert(fa.update(2, ("client_secret"@, secret_b)) =~= token_form(client_id, secret_b, scope));
}

/// A number that the token endpoint sends either as a JSON string or as a
/// JSON number.
pub enum StringOrU64 {
    Text(String),
    Number(u64),
}

/// The value of a number sent as a string or as a number; a string is read as
/// `str::parse::<u64>` reads it.
pub fn u64_from_str(v: &StringOrU64) -> (r: Result<u64, IntErrorKind>)
    ensures
        r == match v {
            StringOrU64::Text(s) => parse_u64_spec(s@),
            StringOrU64::Number(n) => Ok(*n),
        },
{
    match v {
        StringOrU64::Text(s) => parse_u64(s.as_str()),
        StringOrU64::Number(n) => Ok(*n),
    }
}

} // verus!
