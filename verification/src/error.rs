//! The error taxonomy.
//!
//! Every failure a request can run into is one discriminated value here, so
//! callers can pattern-match to decide whether to retry, fall back, or
//! propagate.  `message` renders the same diagnostic text for each variant
//! that the error would classically display.
#![allow(unused_imports)]
use crate::text::dec_chars;
use crate::text::decimal_string;
use vstd::prelude::*;
use vstd::string::StringExecFns;
use vstd::string::StringSliceAdditionalSpecFns;

verus! {

/// What went wrong during configuration, execution, or decoding.
#[derive(Debug, Clone)]
pub enum HttpError {
    /// The transport failed (connection, protocol, or timeout trouble).
    RequestError(String),
    /// A body could not be serialized or deserialized.
    SerializationError(String),
    /// The server answered with a non-success status; the body is captured
    /// best-effort for diagnostics.
    ResponseError { status: u16, body: String },
    /// A header name or value is not wire-safe.
    HeaderError(String),
    /// A URL could not be parsed.
    UrlError(String),
    /// The transport gave up waiting.
    TimeoutError,
    /// A JSON value could not be handled.
    JsonError(String),
    /// The configuration is unusable.
    ConfigError(String),
    /// An interceptor rejected the request or the response.
    MiddlewareError(String),
}

/// The canonical reason phrase of a status code, when there is one.
pub open spec fn status_reason(code: u16) -> Option<Seq<char>> {
    match code {
        100u16 => Some("Continue"@),
        101u16 => Some("Switching Protocols"@),
        200u16 => Some("OK"@),
        201u16 => Some("Created"@),
        202u16 => Some("Accepted"@),
        203u16 => Some("Non Authoritative Information"@),
        204u16 => Some("No Content"@),
        205u16 => Some("Reset Content"@),
        206u16 => Some("Partial Content"@),
        300u16 => Some("Multiple Choices"@),
        301u16 => Some("Moved Permanently"@),
        302u16 => Some("Found"@),
        303u16 => Some("See Other"@),
        304u16 => Some("Not Modified"@),
        307u16 => Some("Temporary Redirect"@),
        308u16 => Some("Permanent Redirect"@),
        400u16 => Some("Bad Request"@),
        401u16 => Some("Unauthorized"@),
        402u16 => Some("Payment Required"@),
        403u16 => Some("Forbidden"@),
        404u16 => Some("Not Found"@),
        405u16 => Some("Method Not Allowed"@),
        406u16 => Some("Not Acceptable"@),
        407u16 => Some("Proxy Authentication Required"@),
        408u16 => Some("Request Timeout"@),
        409u16 => Some("Conflict"@),
        410u16 => Some("Gone"@),
        411u16 => Some("Length Required"@),
        412u16 => Some("Precondition Failed"@),
        413u16 => Some("Payload Too Large"@),
        414u16 => Some("URI Too Long"@),
        415u16 => Some("Unsupported Media Type"@),
        416u16 => Some("Range Not Satisfiable"@),
        417u16 => Some("Expectation Failed"@),
        418u16 => Some("I'm a teapot"@),
        422u16 => Some("Unprocessable Entity"@),
        426u16 => Some("Upgrade Required"@),
        428u16 => Some("Precondition Required"@),
        429u16 => Some("Too Many Requests"@),
        431u16 => Some("Request Header Fields Too Large"@),
        451u16 => Some("Unavailable For Legal Reasons"@),
        500u16 => Some("Internal Server Error"@),
        501u16 => Some("Not Implemented"@),
        502u16 => Some("Bad Gateway"@),
        503u16 => Some("Service Unavailable"@),
        504u16 => Some("Gateway Timeout"@),
        505u16 => Some("HTTP Version Not Supported"@),
        506u16 => Some("Variant Also Negotiates"@),
        507u16 => Some("Insufficient Storage"@),
        508u16 => Some("Loop Detected"@),
        510u16 => Some("Not Extended"@),
        511u16 => Some("Network Authentication Required"@),
        _ => None,
    }
}

/// A status line as classically displayed: the decimal code, a space, and
/// the reason phrase (or a placeholder where none is canonical).
pub open spec fn status_line(code: u16) -> Seq<char> {
    dec_chars(code as nat) + " "@ + (match status_reason(code) {
        Some(r) => r,
        None => "<unknown status code>"@,
    })
}

/// The diagnostic text of each error variant.
pub open spec fn error_message(e: HttpError) -> Seq<char> {
    match e {
        HttpError::RequestError(m) => "Request error: "@ + m@,
        HttpError::SerializationError(m) => "Serialization error: "@ + m@,
        HttpError::ResponseError { status, body } => "HTTP error "@ + status_line(status) + ": "@
            + body@,
        HttpError::HeaderError(m) => "Header error: "@ + m@,
        HttpError::UrlError(m) => "URL error: "@ + m@,
        HttpError::TimeoutError => "Timeout error"@,
        HttpError::JsonError(m) => "JSON error: "@ + m@,
        HttpError::ConfigError(m) => "Configuration error: "@ + m@,
        HttpError::MiddlewareError(m) => "Middleware error: "@ + m@,
    }
}

/// The canonical reason phrase, or the classical placeholder.
fn reason_str(code: u16) -> (r: &'static str)
    ensures
        r@ == (match status_reason(code) {
            Some(s) => s,
            None => "<unknown status code>"@,
        }),
{
    match code {
        100u16 => "Continue",
        101u16 => "Switching Protocols",
        200u16 => "OK",
        201u16 => "Created",
        202u16 => "Accepted",
        203u16 => "Non Authoritative Information",
        204u16 => "No Content",
        205u16 => "Reset Content",
        206u16 => "Partial Content",
        300u16 => "Multiple Choices",
        301u16 => "Moved Permanently",
        302u16 => "Found",
        303u16 => "See Other",
        304u16 => "Not Modified",
        307u16 => "Temporary Redirect",
        308u16 => "Permanent Redirect",
        400u16 => "Bad Request",
        401u16 => "Unauthorized",
        402u16 => "Payment Required",
        403u16 => "Forbidden",
        404u16 => "Not Found",
        405u16 => "Method Not Allowed",
        406u16 => "Not Acceptable",
        407u16 => "Proxy Authentication Required",
        408u16 => "Request Timeout",
        409u16 => "Conflict",
        410u16 => "Gone",
        411u16 => "Length Required",
        412u16 => "Precondition Failed",
        413u16 => "Payload Too Large",
        414u16 => "URI Too Long",
        415u16 => "Unsupported Media Type",
        416u16 => "Range Not Satisfiable",
        417u16 => "Expectation Failed",
        418u16 => "I'm a teapot",
        422u16 => "Unprocessable Entity",
        426u16 => "Upgrade Required",
        428u16 => "Precondition Required",
        429u16 => "Too Many Requests",
        431u16 => "Request Header Fields Too Large",
        451u16 => "Unavailable For Legal Reasons",
        500u16 => "Internal Server Error",
        501u16 => "Not Implemented",
        502u16 => "Bad Gateway",
        503u16 => "Service Unavailable",
        504u16 => "Gateway Timeout",
        505u16 => "HTTP Version Not Supported",
        506u16 => "Variant Also Negotiates",
        507u16 => "Insufficient Storage",
        508u16 => "Loop Detected",
        510u16 => "Not Extended",
        511u16 => "Network Authentication Required",
        _ => "<unknown status code>",
    }
}

/// Renders a status line, e.g. `404 Not Found`.
pub fn status_text(code: u16) -> (r: String)
    ensures
        r@ == status_line(code),
{
    let mut s = decimal_string(code as u64);
    s.append(" ");
    s.append(reason_str(code));
    s
}

impl HttpError {
    /// The diagnostic text of this error.
    pub fn message(&self) -> (r: String)
        ensures
            r@ == error_message(*self),
    {
        match self {
            HttpError::RequestError(m) => {
                let mut s = String::from_str("Request error: ");
                s.append(m.as_str());
                s
            },
            HttpError::SerializationError(m) => {
                let mut s = String::from_str("Serialization error: ");
                s.append(m.as_str());
                s
            },
            HttpError::ResponseError { status, body } => {
                let mut s = String::from_str("HTTP error ");
                let line = status_text(*status);
                s.append(line.as_str());
                s.append(": ");
                s.append(body.as_str());
                s
            },
            HttpError::HeaderError(m) => {
                let mut s = String::from_str("Header error: ");
                s.append(m.as_str());
                s
            },
            HttpError::UrlError(m) => {
                let mut s = String::from_str("URL error: ");
                s.append(m.as_str());
                s
            },
            HttpError::TimeoutError => String::from_str("Timeout error"),
            HttpError::JsonError(m) => {
                let mut s = String::from_str("JSON error: ");
                s.append(m.as_str());
                s
            },
            HttpError::ConfigError(m) => {
                let mut s = String::from_str("Configuration error: ");
                s.append(m.as_str());
                s
            },
            HttpError::MiddlewareError(m) => {
                let mut s = String::from_str("Middleware error: ");
                s.append(m.as_str());
                s
            },
        }
    }
}

} // verus!
