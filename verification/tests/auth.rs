use doc_fn::http::{
    bearer_header, initial_token_cache, ApiClient, AuthMethod, AuthStep, AzureTokenResponse, TokenCache,
    NANOS_PER_SEC, TOKEN_MARGIN_NANOS,
};

fn azure() -> ApiClient {
    ApiClient::with_azure_sp(
        reqwest::Client::new(),
        "https://graph.microsoft.com/v1.0",
        "tenant-123",
        "client-abc",
        "SECRET-REDACTED",
        "https://graph.microsoft.com/.default",
    )
}

fn header(step: AuthStep) -> String {
    match step {
        AuthStep::Header(h) => h,
        AuthStep::RequestToken(req) => panic!("asked for a token at {}", req.url),
    }
}

fn token_response(token: &str, expires_in: u64) -> AzureTokenResponse {
    AzureTokenResponse {
        token_type: "Bearer".to_string(),
        expires_in,
        ext_expires_in: expires_in,
        expires_on: 1721003600,
        not_before: 1721000000,
        resource: "https://graph.microsoft.com".to_string(),
        access_token: token.to_string(),
    }
}

#[test]
fn api_key_header() {
    let client = ApiClient::with_api_key(reqwest::Client::new(), "https://adb-1.azuredatabricks.net", "dapi123");
    assert_eq!(header(client.auth_step(&None, 0)), "Bearer dapi123");
    let stale = Some(TokenCache { token: "old".to_string(), expires_at: 0 });
    assert_eq!(header(client.auth_step(&stale, 5)), "Bearer dapi123");
    assert_eq!(client.base_url(), "https://adb-1.azuredatabricks.net");
    match client.auth() {
        AuthMethod::ApiKey(k) => assert_eq!(k, "dapi123"),
        _ => panic!("not an API key"),
    }
}

#[test]
fn bearer_header_prefix() {
    assert_eq!(bearer_header("abc"), "Bearer abc");
    assert!(bearer_header("").starts_with("Bearer "));
}

#[test]
fn initial_cache_is_empty() {
    assert!(initial_token_cache().is_none());
    assert!(matches!(azure().auth_step(&initial_token_cache(), 0), AuthStep::RequestToken(_)));
}

#[test]
fn new_clients_start_with_an_empty_cache() {
    assert!(azure().token_cache().try_read().unwrap().is_none());
    let client = ApiClient::with_api_key(reqwest::Client::new(), "https://x", "k");
    assert!(client.token_cache().try_read().unwrap().is_none());
    assert!(matches!(azure().auth_step(&*azure().token_cache().try_read().unwrap(), 0), AuthStep::RequestToken(_)));
}

#[test]
fn azure_without_cache_requests_a_token() {
    let client = azure();
    match client.auth_step(&None, 0) {
        AuthStep::RequestToken(req) => {
            assert_eq!(req.url, "https://login.microsoftonline.com/tenant-123/oauth2/token");
            let form: Vec<(&str, &str)> =
                req.form.iter().map(|(k, v)| (k.as_str(), v.as_str())).collect();
            assert_eq!(
                form,
                vec![
                    ("grant_type", "client_credentials"),
                    ("client_id", "client-abc"),
                    ("client_secret", "SECRET-REDACTED"),
                    ("scope", "https://graph.microsoft.com/.default"),
                ]
            );
        }
        AuthStep::Header(h) => panic!("unexpected header {h}"),
    }
}

#[test]
fn azure_token_is_cached_and_reused() {
    let client = azure();
    let now: u128 = 5 * NANOS_PER_SEC;
    let (cache, h) = ApiClient::token_received(&token_response("eyJ0", 3599), now);
    assert_eq!(h, "Bearer eyJ0");
    assert!(h.starts_with("Bearer "));
    assert_eq!(cache.expires_at, now + 3599 * NANOS_PER_SEC);
    let cache = Some(cache);
    assert_eq!(header(client.auth_step(&cache, now)), "Bearer eyJ0");
    let later = now + 3599 * NANOS_PER_SEC - TOKEN_MARGIN_NANOS - 1;
    assert_eq!(header(client.auth_step(&cache, later)), "Bearer eyJ0");
}

#[test]
fn azure_token_near_expiry_is_renewed() {
    let client = azure();
    let cache = Some(TokenCache { token: "eyJ0".to_string(), expires_at: 100 * NANOS_PER_SEC });
    let at_margin = 100 * NANOS_PER_SEC - TOKEN_MARGIN_NANOS;
    assert!(matches!(client.auth_step(&cache, at_margin), AuthStep::RequestToken(_)));
    assert!(matches!(client.auth_step(&cache, at_margin - 1), AuthStep::Header(_)));
    assert!(matches!(client.auth_step(&cache, 200 * NANOS_PER_SEC), AuthStep::RequestToken(_)));
}

#[test]
fn token_with_no_lifetime_is_not_reused() {
    let client = azure();
    let (cache, _) = ApiClient::token_received(&token_response("short", 60), 0);
    assert!(matches!(client.auth_step(&Some(cache), 0), AuthStep::RequestToken(_)));
}

#[test]
fn request_urls() {
    let client = ApiClient::with_api_key(reqwest::Client::new(), "https://adb-1.azuredatabricks.net", "k");
    assert_eq!(
        client.request_url("/api/2.0/sql/warehouses"),
        "https://adb-1.azuredatabricks.net/api/2.0/sql/warehouses"
    );
    assert_eq!(azure().request_url("/me"), "https://graph.microsoft.com/v1.0/me");
}

#[test]
fn secret_only_in_the_token_form() {
    let client = azure();
    let cache = Some(TokenCache { token: "eyJ0".to_string(), expires_at: 1000 * NANOS_PER_SEC });
    let h = header(client.auth_step(&cache, 0));
    assert!(!h.contains("SECRET-REDACTED"));
    assert_eq!(h, "Bearer eyJ0");
    match client.auth_step(&None, 0) {
        AuthStep::RequestToken(req) => {
            assert!(!req.url.contains("SECRET-REDACTED"));
            let holding: Vec<&str> = req
                .form
                .iter()
                .filter(|(_, v)| v == "SECRET-REDACTED")
                .map(|(k, _)| k.as_str())
                .collect();
            assert_eq!(holding, vec!["client_secret"]);
        }
        AuthStep::Header(h) => panic!("unexpected header {h}"),
    }
    assert!(client.request_url("/me").find("SECRET-REDACTED").is_none());
}
