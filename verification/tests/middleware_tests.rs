//! Interceptors and the pipeline: registration order, abort on first
//! failure, authentication headers, and response classification.
use httpkit::client::process_json_response;
use httpkit::client::success_body;
use httpkit::AuthMiddleware;
use httpkit::AuthType;
use httpkit::HeaderMap;
use httpkit::HeaderMiddleware;
use httpkit::HttpClient;
use httpkit::HttpError;
use httpkit::LoggingMiddleware;
use httpkit::Method;
use httpkit::Middleware;
use httpkit::ResponseDescriptor;
use httpkit::RetryMiddleware;

#[test]
fn test_auth_middleware_creation() {
    let middleware = AuthMiddleware::bearer("test-token");
    assert_eq!(middleware.token, "test-token");
    assert!(matches!(middleware.auth_type, AuthType::Bearer));
}

#[test]
fn test_header_middleware_creation() {
    let middleware = HeaderMiddleware::new()
        .with_header("X-Custom", "value")
        .with_header("X-Another", "another-value");

    assert_eq!(middleware.headers.len(), 2);
    assert_eq!(middleware.headers.get("X-Custom"), Some("value".to_string()));
}

#[test]
fn auth_bearer_sets_authorization_header() {
    let client = HttpClient::with_base_url("https://api.example.com")
        .with_middleware(Middleware::Auth(AuthMiddleware::bearer("tok")));
    let request = client.prepare_request(Method::Get, "/r", None).unwrap();
    assert_eq!(
        request.headers.get("Authorization"),
        Some("Bearer tok".to_string())
    );
}

#[test]
fn auth_basic_sets_authorization_header() {
    let client = HttpClient::with_base_url("https://api.example.com")
        .with_middleware(Middleware::Auth(AuthMiddleware::basic("b64")));
    let request = client.prepare_request(Method::Get, "/r", None).unwrap();
    assert_eq!(
        request.headers.get("Authorization"),
        Some("Basic b64".to_string())
    );
}

#[test]
fn auth_api_key_sets_named_header() {
    let client = HttpClient::with_base_url("https://api.example.com")
        .with_middleware(Middleware::Auth(AuthMiddleware::api_key("X-Key", "v")));
    let request = client.prepare_request(Method::Get, "/r", None).unwrap();
    assert_eq!(request.headers.get("X-Key"), Some("v".to_string()));
}

#[test]
fn pipeline_pre_send_runs_in_registration_order() {
    // Three interceptors write the same header; last write wins, so the
    // surviving value shows who ran last.
    let client = HttpClient::with_base_url("https://api.example.com")
        .with_middleware(Middleware::Headers(
            HeaderMiddleware::new().with_header("x-tag", "first"),
        ))
        .with_middleware(Middleware::Headers(
            HeaderMiddleware::new().with_header("x-tag", "second"),
        ))
        .with_middleware(Middleware::Headers(
            HeaderMiddleware::new().with_header("x-tag", "third"),
        ));
    let request = client.prepare_request(Method::Get, "/r", None).unwrap();
    assert_eq!(request.headers.get("x-tag"), Some("third".to_string()));
}

#[test]
fn pipeline_aborts_on_first_failure_and_transport_is_never_invoked() {
    // a succeeds, b rejects its credential, c never runs.
    let client = HttpClient::with_base_url("https://api.example.com")
        .with_middleware(Middleware::Headers(
            HeaderMiddleware::new().with_header("x-a", "1"),
        ))
        .with_middleware(Middleware::Auth(AuthMiddleware::bearer("bad\ntoken")))
        .with_middleware(Middleware::Headers(
            HeaderMiddleware::new().with_header("x-c", "2"),
        ));
    let mut transport_calls = 0;
    match client.prepare_request(Method::Get, "/r", None) {
        Ok(_) => {
            // Only a successfully prepared request may reach the transport.
            transport_calls += 1;
        }
        Err(HttpError::MiddlewareError(m)) => {
            assert_eq!(m, "AuthMiddleware: Invalid bearer token");
        }
        Err(_) => panic!("expected a middleware error"),
    }
    assert_eq!(transport_calls, 0);
}

#[test]
fn header_middleware_rejects_bad_entry_with_its_name() {
    let client = HttpClient::with_base_url("https://api.example.com").with_middleware(
        Middleware::Headers(HeaderMiddleware::new().with_header("bad name", "v")),
    );
    match client.prepare_request(Method::Get, "/r", None) {
        Err(HttpError::MiddlewareError(m)) => {
            assert_eq!(m, "HeaderMiddleware: Invalid header name: bad name");
        }
        _ => panic!("expected a middleware error"),
    }
}

#[test]
fn default_headers_can_be_overridden_by_interceptors() {
    let config = httpkit::ClientConfig::new()
        .with_base_url("https://api.example.com")
        .with_default_header("x-tag", "default")
        .unwrap();
    let client = HttpClient::with_config(config)
        .unwrap()
        .with_middleware(Middleware::Headers(
            HeaderMiddleware::new().with_header("x-tag", "overridden"),
        ));
    let request = client.prepare_request(Method::Get, "/r", None).unwrap();
    assert_eq!(request.headers.get("x-tag"), Some("overridden".to_string()));
}

#[test]
fn logging_and_retry_do_not_touch_the_request() {
    let client = HttpClient::with_base_url("https://api.example.com")
        .with_middleware(Middleware::Logging(LoggingMiddleware::new()))
        .with_middleware(Middleware::Retry(RetryMiddleware::new(3).with_delay(50)));
    let request = client.prepare_request(Method::Get, "/r", None).unwrap();
    assert_eq!(request.headers.len(), 0);
    assert_eq!(request.url, "https://api.example.com/r");
}

#[test]
fn middleware_names_are_stable() {
    assert_eq!(
        Middleware::Auth(AuthMiddleware::bearer("t")).name(),
        "AuthMiddleware"
    );
    assert_eq!(
        Middleware::Headers(HeaderMiddleware::new()).name(),
        "HeaderMiddleware"
    );
    assert_eq!(
        Middleware::Logging(LoggingMiddleware::requests_only()).name(),
        "LoggingMiddleware"
    );
    assert_eq!(
        Middleware::Retry(RetryMiddleware::new(1)).name(),
        "RetryMiddleware"
    );
}

#[test]
fn post_receive_pass_leaves_response_intact() {
    let client = HttpClient::new()
        .with_middleware(Middleware::Logging(LoggingMiddleware::responses_only()))
        .with_middleware(Middleware::Auth(AuthMiddleware::bearer("t")));
    let mut response = ResponseDescriptor::new(200, HeaderMap::new(), b"body".to_vec());
    assert!(client.finish_response(&mut response).is_ok());
    assert_eq!(response.status, 200);
    assert_eq!(response.body, b"body".to_vec());
}

#[test]
fn non_success_yields_response_error_from_every_typed_helper() {
    let response = ResponseDescriptor::new(404, HeaderMap::new(), b"not found".to_vec());
    match success_body(response) {
        Err(HttpError::ResponseError { status, body }) => {
            assert_eq!(status, 404);
            assert_eq!(body, "not found");
        }
        _ => panic!("expected a response error"),
    }

    let response = ResponseDescriptor::new(404, HeaderMap::new(), b"not found".to_vec());
    match process_json_response(response) {
        Err(HttpError::ResponseError { status, body }) => {
            assert_eq!(status, 404);
            assert_eq!(body, "not found");
        }
        _ => panic!("expected a response error, not a decoded value"),
    }
}

#[test]
fn success_body_returns_bytes_on_2xx() {
    let response = ResponseDescriptor::new(204, HeaderMap::new(), b"payload".to_vec());
    assert_eq!(success_body(response).unwrap(), b"payload".to_vec());
}

#[test]
fn invalid_json_on_success_is_a_serialization_error() {
    let response = ResponseDescriptor::new(200, HeaderMap::new(), b"{not json".to_vec());
    match process_json_response(response) {
        Err(HttpError::SerializationError(m)) => {
            assert!(m.starts_with("Failed to deserialize response: "));
        }
        _ => panic!("expected a serialization error"),
    }
}

#[test]
fn json_round_trip_through_a_transport_stub() {
    // Build a JSON value by calls, post it, let the stub echo the wire
    // bytes back, and decode: the value survives unchanged.
    let mut fields = serde_json::Map::new();
    fields.insert(
        "name".to_string(),
        serde_json::Value::String("test".to_string()),
    );
    fields.insert(
        "count".to_string(),
        serde_json::Value::Number(serde_json::Number::from(42)),
    );
    fields.insert("flag".to_string(), serde_json::Value::Bool(true));
    let value = serde_json::Value::Object(fields);

    let client = HttpClient::with_base_url("https://api.example.com");
    let body = serde_json::to_vec(&value).unwrap();
    let request = client
        .prepare_request(Method::Post, "/echo", Some(body))
        .unwrap();

    // The transport stub: echo the request body as a successful response.
    let echoed = request.body.clone().unwrap();
    let mut response = ResponseDescriptor::new(200, HeaderMap::new(), echoed);
    client.finish_response(&mut response).unwrap();

    let decoded = process_json_response(response).unwrap();
    assert_eq!(decoded, value);
}

#[test]
fn logging_lines_render_method_url_and_status() {
    let logging = LoggingMiddleware::new();
    let client = HttpClient::with_base_url("https://api.example.com");
    let request = client.prepare_request(Method::Get, "/users", None).unwrap();
    assert_eq!(
        logging.request_line(&request),
        "HTTP Request: GET https://api.example.com/users"
    );
    let response = ResponseDescriptor::new(200, HeaderMap::new(), Vec::new());
    assert_eq!(
        logging.response_line(&response, "https://api.example.com/users"),
        "HTTP Response: 200 OK https://api.example.com/users"
    );
}

#[test]
fn retry_middleware_holds_its_configuration() {
    let retry = RetryMiddleware::new(5).with_delay(250);
    assert_eq!(retry.max_retries, 5);
    assert_eq!(retry.retry_delay_ms, 250);
}
