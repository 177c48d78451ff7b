//! Client construction, configuration, and URL resolution.
use httpkit::client_with_base_url;
use httpkit::new_client;
use httpkit::ClientConfig;
use httpkit::Duration;
use httpkit::HttpClient;
use httpkit::VERSION;

#[test]
fn test_version() {
    assert!(!VERSION.is_empty());
}

#[test]
fn test_client_config_creation() {
    let config = ClientConfig::new()
        .with_base_url("https://api.example.com")
        .with_timeout(Duration::from_secs(60));

    assert_eq!(config.base_url, Some("https://api.example.com".to_string()));
    assert_eq!(config.timeout, Some(Duration::from_secs(60)));
}

#[test]
fn client_test_client_creation() {
    let client = HttpClient::new();
    assert_eq!(client.middleware_count(), 0);
}

#[test]
fn lib_test_client_creation() {
    let client = new_client();
    assert_eq!(client.middleware_count(), 0);
}

#[test]
fn test_url_building() {
    let client = HttpClient::with_base_url("https://api.example.com");

    assert_eq!(
        client.build_url("/users").unwrap(),
        "https://api.example.com/users"
    );

    assert_eq!(
        client.build_url("users").unwrap(),
        "https://api.example.com/users"
    );

    assert_eq!(
        client.build_url("https://other.com/test").unwrap(),
        "https://other.com/test"
    );
}

#[test]
fn test_client_with_base_url() {
    let client = client_with_base_url("https://api.example.com");
    assert_eq!(
        client.config().base_url,
        Some("https://api.example.com".to_string())
    );
}

#[test]
fn url_building_trailing_and_leading_slashes() {
    let client = HttpClient::with_base_url("https://api.example.com/");
    assert_eq!(
        client.build_url("/users").unwrap(),
        "https://api.example.com/users"
    );
    assert_eq!(
        client.build_url("users").unwrap(),
        "https://api.example.com/users"
    );
}

#[test]
fn url_building_without_base() {
    let client = HttpClient::new();
    assert_eq!(client.build_url("/users").unwrap(), "/users");
}

#[test]
fn resolve_joins_with_exactly_one_separator() {
    let base = "https://api.example.com".to_string();
    assert_eq!(
        httpkit::client::resolve(Some(&base), "/users"),
        "https://api.example.com/users"
    );
    let base_slash = "https://api.example.com/".to_string();
    assert_eq!(
        httpkit::client::resolve(Some(&base_slash), "/users"),
        "https://api.example.com/users"
    );
    assert_eq!(
        httpkit::client::resolve(Some(&base), "users"),
        "https://api.example.com/users"
    );
    let other = "https://x.com".to_string();
    assert_eq!(
        httpkit::client::resolve(Some(&other), "https://other.com/y"),
        "https://other.com/y"
    );
}

#[test]
fn header_map_lookups_are_case_insensitive() {
    let headers = httpkit::utils::HeaderBuilder::new()
        .header("Content-Type", "application/json")
        .unwrap()
        .build();
    assert_eq!(
        headers.get("CONTENT-TYPE"),
        Some("application/json".to_string())
    );
    assert!(headers.contains("content-type"));
    assert!(!headers.contains("accept"));
}

#[test]
fn config_with_default_header_rejects_bad_name() {
    let config = ClientConfig::new().with_default_header("bad name", "v");
    match config {
        Err(httpkit::HttpError::HeaderError(m)) => assert_eq!(m, "invalid header name"),
        _ => panic!("expected a header error"),
    }
}

#[test]
fn config_with_default_header_rejects_bad_value() {
    let config = ClientConfig::new().with_default_header("x-good", "bad\u{1}value");
    match config {
        Err(httpkit::HttpError::HeaderError(m)) => assert_eq!(m, "invalid header value"),
        _ => panic!("expected a header error"),
    }
}

#[test]
fn config_json_headers_set_both() {
    let config = ClientConfig::new().with_json_headers().unwrap();
    assert_eq!(
        config.default_headers.get("content-type"),
        Some("application/json".to_string())
    );
    assert_eq!(
        config.default_headers.get("accept"),
        Some("application/json".to_string())
    );
}

#[test]
fn config_redirects_and_connect_timeout() {
    let config = ClientConfig::new()
        .with_redirects(false, 3)
        .with_connect_timeout(Duration::from_millis(2500));
    assert!(!config.follow_redirects);
    assert_eq!(config.max_redirects, 3);
    assert_eq!(config.connect_timeout, Some(Duration::from_millis(2500)));
}
