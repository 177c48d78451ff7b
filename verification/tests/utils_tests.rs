//! Builders and string-assembly helpers.
use httpkit::utils::format_duration;
use httpkit::utils::form_encode;
use httpkit::utils::headers;
use httpkit::utils::query;
use httpkit::utils::to_query_params;
use httpkit::utils::url;
use httpkit::utils::url_encode;
use httpkit::utils::validate_url;
use httpkit::utils::HeaderBuilder;
use httpkit::utils::ParamValue;
use httpkit::utils::QueryBuilder;
use httpkit::utils::UrlBuilder;
use httpkit::Duration;
use httpkit::HttpClient;
use httpkit::Method;
use httpkit::StringMap;

#[test]
fn test_header_builder() {
    let headers = HeaderBuilder::new()
        .header("Content-Type", "application/json")
        .unwrap()
        .header("User-Agent", "test-client")
        .unwrap()
        .build();

    assert_eq!(headers.len(), 2);
    assert_eq!(
        headers.get("content-type").unwrap(),
        "application/json"
    );
    assert_eq!(headers.get("user-agent").unwrap(), "test-client");
}

#[test]
fn test_header_builder_json() {
    let headers = HeaderBuilder::new().json_headers().unwrap().build();

    assert_eq!(headers.len(), 2);
    assert_eq!(
        headers.get("content-type").unwrap(),
        "application/json"
    );
    assert_eq!(headers.get("accept").unwrap(), "application/json");
}

#[test]
fn test_header_builder_auth() {
    let headers = HeaderBuilder::new().bearer_auth("token123").unwrap().build();

    assert_eq!(headers.len(), 1);
    assert_eq!(headers.get("authorization").unwrap(), "Bearer token123");
}

#[test]
fn header_builder_takes_a_map_and_more() {
    let mut extra = StringMap::new();
    extra.insert("x-one", "1");
    extra.insert("x-two", "2");
    let built = HeaderBuilder::new()
        .headers(&extra)
        .unwrap()
        .basic_auth("Zm9v")
        .unwrap()
        .api_key("X-Key", "v")
        .unwrap()
        .user_agent("agent/1.0")
        .unwrap()
        .build();
    assert_eq!(built.len(), 5);
    assert_eq!(built.get("authorization").unwrap(), "Basic Zm9v");
    assert_eq!(built.get("x-key").unwrap(), "v");
    assert_eq!(built.get("user-agent").unwrap(), "agent/1.0");
}

#[test]
fn test_query_builder() {
    let params = QueryBuilder::new()
        .param("name", "john")
        .param("age", "30")
        .build();

    assert_eq!(params.len(), 2);
    assert_eq!(params[0], ("name".to_string(), "john".to_string()));
    assert_eq!(params[1], ("age".to_string(), "30".to_string()));
}

#[test]
fn test_query_builder_optional() {
    let params = QueryBuilder::new()
        .param("required", "value")
        .optional_param("optional", Some("present"))
        .optional_param("missing", None)
        .build();

    assert_eq!(params.len(), 2);
    assert_eq!(params[0], ("required".to_string(), "value".to_string()));
    assert_eq!(params[1], ("optional".to_string(), "present".to_string()));
}

#[test]
fn test_query_string_building() {
    let query_string = QueryBuilder::new()
        .param("name", "john doe")
        .param("city", "new york")
        .build_query_string();

    assert!(query_string.contains("name=john%20doe"));
    assert!(query_string.contains("city=new%20york"));
    assert!(query_string.starts_with('?'));
}

#[test]
fn test_url_builder() {
    let url = UrlBuilder::new("https://api.example.com")
        .path("users")
        .path("123")
        .query("format", "json")
        .query("limit", "10")
        .build();

    assert_eq!(url, "https://api.example.com/users/123?format=json&limit=10");
}

#[test]
fn test_url_builder_with_trailing_slash() {
    let url = UrlBuilder::new("https://api.example.com/")
        .path("users")
        .build();

    assert_eq!(url, "https://api.example.com/users");
}

#[test]
fn test_url_builder_with_spaces() {
    let url = UrlBuilder::new("https://api.example.com")
        .path("search results")
        .query("q", "hello world")
        .build();

    assert_eq!(url, "https://api.example.com/search%20results?q=hello%20world");
}

#[test]
fn url_builder_paths_and_queries_extend_in_order() {
    let segments = vec!["a".to_string(), "b".to_string()];
    let mut params = StringMap::new();
    params.insert("k", "v");
    let url = UrlBuilder::new("https://x.example")
        .paths(&segments)
        .queries(&params)
        .build();
    assert_eq!(url, "https://x.example/a/b?k=v");
}

#[test]
fn test_to_query_params() {
    let fields = vec![
        ("name".to_string(), ParamValue::Text("John".to_string())),
        ("age".to_string(), ParamValue::Number("30".to_string())),
        ("active".to_string(), ParamValue::Flag(true)),
    ];

    let query_params = to_query_params(&fields);
    assert_eq!(query_params.len(), 3);

    assert!(query_params.iter().any(|(k, v)| k == "name" && v == "John"));
    assert!(query_params.iter().any(|(k, v)| k == "age" && v == "30"));
    assert!(query_params.iter().any(|(k, v)| k == "active" && v == "true"));
}

#[test]
fn to_query_params_lists_skips_and_false() {
    let fields = vec![
        (
            "tags".to_string(),
            ParamValue::List(vec!["a".to_string(), "b".to_string()]),
        ),
        ("hidden".to_string(), ParamValue::Skipped),
        ("active".to_string(), ParamValue::Flag(false)),
    ];
    let pairs = to_query_params(&fields);
    assert_eq!(
        pairs,
        vec![
            ("tags".to_string(), "a".to_string()),
            ("tags".to_string(), "b".to_string()),
            ("active".to_string(), "false".to_string()),
        ]
    );
}

#[test]
fn test_url_encode() {
    let encoded = url_encode("hello world & more");
    assert_eq!(encoded, "hello%20world%20%26%20more");
}

#[test]
fn url_encode_agrees_with_the_urlencoding_crate() {
    for s in [
        "hello world & more",
        "plain-text_~.ok",
        "per%cent?=&#",
        "smörgåsbord 団子",
        "",
    ] {
        assert_eq!(url_encode(s), urlencoding::encode(s).into_owned());
    }
}

#[test]
fn form_encode_uses_plus_for_spaces() {
    assert_eq!(form_encode("two words"), "two+words");
    assert_eq!(form_encode("a*b~c"), "a*b%7Ec");
}

#[test]
fn test_format_duration() {
    let duration = Duration::from_millis(1500);
    let formatted = format_duration(duration);
    assert_eq!(formatted, "1.5s");

    let duration = Duration::from_millis(500);
    let formatted = format_duration(duration);
    assert_eq!(formatted, "500ms");
}

#[test]
fn format_duration_handles_zero_and_exact_seconds() {
    assert_eq!(format_duration(Duration::from_millis(0)), "0ms");
    assert_eq!(format_duration(Duration::from_secs(2)), "2.0s");
    assert_eq!(format_duration(Duration::from_millis(999)), "999ms");
}

#[test]
fn test_validate_url() {
    assert!(validate_url("https://api.example.com").is_ok());
    assert!(validate_url("http://localhost:8080/api").is_ok());
    assert!(validate_url("invalid-url").is_err());
    assert!(validate_url("").is_err());
}

#[test]
fn test_helper_functions() {
    let _headers = headers();
    let _query = query();
    let _url = url("https://example.com");

    assert!(true);
}

#[test]
fn prepare_request_with_query_appends_form_encoded_pairs() {
    let client = HttpClient::with_base_url("https://api.example.com");
    let params = vec![("a".to_string(), "b c".to_string())];
    let request = client
        .prepare_request_with_query(Method::Get, "/find", &params)
        .unwrap();
    assert_eq!(request.url, "https://api.example.com/find?a=b+c");
}

#[test]
fn post_form_encodes_body_and_sets_content_type() {
    let client = HttpClient::with_base_url("https://api.example.com");
    let form = vec![
        ("a".to_string(), "1".to_string()),
        ("b".to_string(), "two words".to_string()),
    ];
    let request = client.post_form("/submit", &form).unwrap();
    assert_eq!(request.body.unwrap(), b"a=1&b=two+words".to_vec());
    assert_eq!(
        request.headers.get("content-type"),
        Some("application/x-www-form-urlencoded".to_string())
    );
}

#[test]
fn prepare_request_with_headers_validates_and_inserts() {
    let client = HttpClient::with_base_url("https://api.example.com");
    let mut extra = StringMap::new();
    extra.insert("X-Extra", "yes");
    let request = client
        .prepare_request_with_headers(Method::Get, "/r", &extra)
        .unwrap();
    assert_eq!(request.headers.get("x-extra"), Some("yes".to_string()));

    let mut bad = StringMap::new();
    bad.insert("bad name", "v");
    match client.prepare_request_with_headers(Method::Get, "/r", &bad) {
        Err(httpkit::HttpError::HeaderError(m)) => {
            assert_eq!(m, "Invalid header name: bad name");
        }
        _ => panic!("expected a header error"),
    }
}
