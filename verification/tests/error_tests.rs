//! The error taxonomy and its rendered messages.
use httpkit::error::status_text;
use httpkit::HttpError;

#[test]
fn test_error_display() {
    let error = HttpError::HeaderError("Invalid header".to_string());
    assert_eq!(error.message(), "Header error: Invalid header");
}

#[test]
fn test_response_error() {
    let error = HttpError::ResponseError {
        status: 404,
        body: "Not found".to_string(),
    };
    assert_eq!(error.message(), "HTTP error 404 Not Found: Not found");
}

#[test]
fn every_variant_renders_its_prefix() {
    assert_eq!(
        HttpError::RequestError("boom".to_string()).message(),
        "Request error: boom"
    );
    assert_eq!(
        HttpError::SerializationError("bad".to_string()).message(),
        "Serialization error: bad"
    );
    assert_eq!(
        HttpError::UrlError("nope".to_string()).message(),
        "URL error: nope"
    );
    assert_eq!(HttpError::TimeoutError.message(), "Timeout error");
    assert_eq!(
        HttpError::JsonError("oops".to_string()).message(),
        "JSON error: oops"
    );
    assert_eq!(
        HttpError::ConfigError("off".to_string()).message(),
        "Configuration error: off"
    );
    assert_eq!(
        HttpError::MiddlewareError("no".to_string()).message(),
        "Middleware error: no"
    );
}

#[test]
fn status_text_renders_known_and_unknown_codes() {
    assert_eq!(status_text(200), "200 OK");
    assert_eq!(status_text(500), "500 Internal Server Error");
    assert_eq!(status_text(599), "599 <unknown status code>");
}
