//! Interceptors.
//!
//! An interceptor observes and mutates a request before it is sent
//! (`process_request`) and a response after it is received
//! (`process_response`), and names itself for diagnostics.  The built-in
//! interceptors are closed over in [`Middleware`], a tagged dispatch the
//! pipeline iterates over.  Each hook's behavior is pinned by a
//! specification-level effect function.
#![allow(unused_imports)]
use crate::descriptor::ReqModel;
use crate::descriptor::RequestDescriptor;
use crate::descriptor::RespModel;
use crate::descriptor::ResponseDescriptor;
use crate::error::HttpError;
use crate::headers::entries_insert;
use crate::headers::header_name_ok;
use crate::headers::header_value_ok;
use crate::headers::smap_insert;
use crate::headers::valid_header_name;
use crate::headers::valid_header_value;
use crate::headers::StringMap;
use vstd::prelude::*;
use vstd::string::StringExecFns;

verus! {

/// What one request hook did: carried on, or stopped with a reason, leaving
/// the request in the given state.
#[verifier::ext_equal]
pub enum ReqOutcome {
    Done(ReqModel),
    Stopped { state: ReqModel, msg: Seq<char> },
}

/// What one response hook did.
#[verifier::ext_equal]
pub enum RespOutcome {
    Done(RespModel),
    Stopped { state: RespModel, msg: Seq<char> },
}

/// How a request authenticates: a bearer token, a pre-encoded basic
/// credential, or a raw API key under a caller-chosen header.
#[derive(Debug, Clone)]
pub enum AuthType {
    Bearer,
    Basic,
    ApiKey(String),
}

/// Injects an authentication header into every request.
#[derive(Debug, Clone)]
pub struct AuthMiddleware {
    pub token: String,
    pub auth_type: AuthType,
}

/// The header this authentication writes to.
pub open spec fn auth_header_name(t: AuthType) -> Seq<char> {
    match t {
        AuthType::Bearer => "Authorization"@,
        AuthType::Basic => "Authorization"@,
        AuthType::ApiKey(h) => h@,
    }
}

/// The value this authentication writes.
pub open spec fn auth_header_value(m: AuthMiddleware) -> Seq<char> {
    match m.auth_type {
        AuthType::Bearer => "Bearer "@ + m.token@,
        AuthType::Basic => "Basic "@ + m.token@,
        AuthType::ApiKey(_) => m.token@,
    }
}

/// True when both the header name and the value are wire-safe, so the hook
/// succeeds.
pub open spec fn auth_ok(m: AuthMiddleware) -> bool {
    valid_header_name(auth_header_name(m.auth_type)) && valid_header_value(auth_header_value(m))
}

/// The reason given when the hook rejects its own credential.
pub open spec fn auth_err_msg(m: AuthMiddleware) -> Seq<char> {
    match m.auth_type {
        AuthType::Bearer => "Invalid bearer token"@,
        AuthType::Basic => "Invalid basic auth token"@,
        AuthType::ApiKey(h) => if !valid_header_name(h@) {
            "Invalid header name: "@ + h@
        } else {
            "Invalid API key"@
        },
    }
}

/// `Authorization` is a valid header name.
pub proof fn lemma_authorization_valid()
    ensures
        valid_header_name("Authorization"@),
{
    reveal_strlit("Authorization");
    assert(valid_header_name("Authorization"@));
}

impl AuthMiddleware {
    /// Bearer-token authentication: `Authorization: Bearer <token>`.
    pub fn bearer(token: &str) -> (r: AuthMiddleware)
        ensures
            r.token@ == token@,
            r.auth_type is Bearer,
    {
        AuthMiddleware { token: token.to_owned(), auth_type: AuthType::Bearer }
    }

    /// Basic authentication with a pre-encoded credential:
    /// `Authorization: Basic <token>`.
    pub fn basic(token: &str) -> (r: AuthMiddleware)
        ensures
            r.token@ == token@,
            r.auth_type is Basic,
    {
        AuthMiddleware { token: token.to_owned(), auth_type: AuthType::Basic }
    }

    /// API-key authentication: the raw token under the given header.
    pub fn api_key(header_name: &str, token: &str) -> (r: AuthMiddleware)
        ensures
            r.token@ == token@,
            r.auth_type matches AuthType::ApiKey(h) && h@ == header_name@,
    {
        AuthMiddleware { token: token.to_owned(), auth_type: AuthType::ApiKey(header_name.to_owned()) }
    }

    /// Sets the authentication header, or rejects a credential that does
    /// not encode into one.
    pub fn process_request(&self, request: &mut RequestDescriptor) -> (r: Result<(), HttpError>)
        ensures
            auth_ok(*self) ==> r is Ok && final(request)@ == (ReqModel {
                headers: entries_insert(
                    old(request)@.headers,
                    auth_header_name(self.auth_type),
                    auth_header_value(*self),
                ),
                ..old(request)@
            }),
            !auth_ok(*self) ==> (r matches Err(HttpError::MiddlewareError(m)) && m@ == auth_err_msg(
                *self,
            )) && final(request)@ == old(request)@,
    {
        match &self.auth_type {
            AuthType::Bearer => {
                let value = String::from_str("Bearer ").concat(self.token.as_str());
                proof {
                    lemma_authorization_valid();
                }
                if header_value_ok(value.as_str()) {
                    request.set_header("Authorization", value.as_str());
                    Ok(())
                } else {
                    Err(HttpError::MiddlewareError(String::from_str("Invalid bearer token")))
                }
            },
            AuthType::Basic => {
                let value = String::from_str("Basic ").concat(self.token.as_str());
                proof {
                    lemma_authorization_valid();
                }
                if header_value_ok(value.as_str()) {
                    request.set_header("Authorization", value.as_str());
                    Ok(())
                } else {
                    Err(HttpError::MiddlewareError(String::from_str("Invalid basic auth token")))
                }
            },
            AuthType::ApiKey(header_name) => {
                if !header_name_ok(header_name.as_str()) {
                    let msg = String::from_str("Invalid header name: ").concat(
                        header_name.as_str(),
                    );
                    return Err(HttpError::MiddlewareError(msg));
                }
                if header_value_ok(self.token.as_str()) {
                    request.set_header(header_name.as_str(), self.token.as_str());
                    Ok(())
                } else {
                    Err(HttpError::MiddlewareError(String::from_str("Invalid API key")))
                }
            },
        }
    }

    /// Authentication does not touch responses.
    pub fn process_response(&self, response: &mut ResponseDescriptor) -> (r: Result<(), HttpError>)
        ensures
            r is Ok,
            final(response)@ == old(response)@,
    {
        Ok(())
    }

    /// The diagnostic name of this interceptor.
    pub fn name(&self) -> (r: &'static str)
        ensures
            r@ == "AuthMiddleware"@,
    {
        "AuthMiddleware"
    }
}

/// Inserts a fixed set of headers into every request.
#[derive(Debug)]
pub struct HeaderMiddleware {
    pub headers: StringMap,
}

/// The effect of inserting each held entry in turn: stops at the first
/// entry that is not wire-safe, leaving the earlier inserts in place.
pub open spec fn header_entries_effect(es: Seq<(Seq<char>, Seq<char>)>, d: ReqModel) -> ReqOutcome
    decreases es.len(),
{
    if es.len() == 0 {
        ReqOutcome::Done(d)
    } else if !valid_header_name(es[0].0) {
        ReqOutcome::Stopped { state: d, msg: "Invalid header name: "@ + es[0].0 }
    } else if !valid_header_value(es[0].1) {
        ReqOutcome::Stopped { state: d, msg: "Invalid header value: "@ + es[0].1 }
    } else {
        header_entries_effect(
            es.drop_first(),
            ReqModel { headers: entries_insert(d.headers, es[0].0, es[0].1), ..d },
        )
    }
}

impl HeaderMiddleware {
    /// A middleware with no entries yet.
    pub fn new() -> (r: HeaderMiddleware)
        ensures
            r.headers@ == Seq::<(Seq<char>, Seq<char>)>::empty(),
    {
        HeaderMiddleware { headers: StringMap::new() }
    }

    /// Adds one entry, overwriting an entry of the same name.
    pub fn with_header(self, name: &str, value: &str) -> (r: HeaderMiddleware)
        ensures
            r.headers@ == smap_insert(self.headers@, name@, value@),
    {
        let mut m = self;
        m.headers.insert(name, value);
        m
    }

    /// Inserts every held entry into the request, aborting on the first one
    /// that is not wire-safe.
    pub fn process_request(&self, request: &mut RequestDescriptor) -> (r: Result<(), HttpError>)
        ensures
            ({
                match header_entries_effect(self.headers@, old(request)@) {
                    ReqOutcome::Done(m) => r is Ok && final(request)@ == m,
                    ReqOutcome::Stopped { state, msg } => (r matches Err(
                        HttpError::MiddlewareError(t),
                    ) && t@ == msg) && final(request)@ == state,
                }
            }),
    {
        let ghost orig = request@;
        let ghost es = self.headers@;
        proof {
            assert(es.skip(0) =~= es);
        }
        let n = self.headers.len();
        let mut i: usize = 0;
        while i < n
            invariant
                i <= n,
                n == es.len(),
                es == self.headers@,
                orig == old(request)@,
                header_entries_effect(es, orig) == header_entries_effect(es.skip(i as int), request@),
            decreases n - i,
        {
            let (name, value) = self.headers.pair_at(i);
            let ghost before = request@;
            proof {
                assert(es.skip(i as int)[0] == es[i as int]);
                assert(es.skip(i as int).drop_first() =~= es.skip(i + 1));
            }
            if !header_name_ok(name.as_str()) {
                proof {
                    assert(header_entries_effect(es.skip(i as int), before)
                        == (ReqOutcome::Stopped {
                        state: before,
                        msg: "Invalid header name: "@ + es[i as int].0,
                    }));
                }
                let msg = String::from_str("Invalid header name: ").concat(name.as_str());
                return Err(HttpError::MiddlewareError(msg));
            }
            if !header_value_ok(value.as_str()) {
                proof {
                    assert(header_entries_effect(es.skip(i as int), before)
                        == (ReqOutcome::Stopped {
                        state: before,
                        msg: "Invalid header value: "@ + es[i as int].1,
                    }));
                }
                let msg = String::from_str("Invalid header value: ").concat(value.as_str());
                return Err(HttpError::MiddlewareError(msg));
            }
            request.set_header(name.as_str(), value.as_str());
            proof {
                let stepped = ReqModel {
                    headers: entries_insert(before.headers, es[i as int].0, es[i as int].1),
                    ..before
                };
                assert(request@ =~= stepped);
                assert(header_entries_effect(es.skip(i as int), before) == header_entries_effect(
                    es.skip(i + 1),
                    stepped,
                ));
            }
            i = i + 1;
        }
        proof {
            assert(es.skip(n as int) =~= Seq::<(Seq<char>, Seq<char>)>::empty());
        }
        Ok(())
    }

    /// Fixed headers do not touch responses.
    pub fn process_response(&self, response: &mut ResponseDescriptor) -> (r: Result<(), HttpError>)
        ensures
            r is Ok,
            final(response)@ == old(response)@,
    {
        Ok(())
    }

    /// The diagnostic name of this interceptor.
    pub fn name(&self) -> (r: &'static str)
        ensures
            r@ == "HeaderMiddleware"@,
    {
        "HeaderMiddleware"
    }
}

impl Default for HeaderMiddleware {
    /// Same as `new`.
    fn default() -> (r: HeaderMiddleware)
        ensures
            r.headers@ == Seq::<(Seq<char>, Seq<char>)>::empty(),
    {
        HeaderMiddleware::new()
    }
}

/// Observes requests, responses, or both; never mutates, never fails.
#[derive(Debug, Clone)]
pub struct LoggingMiddleware {
    pub log_requests: bool,
    pub log_responses: bool,
}

impl LoggingMiddleware {
    /// Log both phases.
    pub fn new() -> (r: LoggingMiddleware)
        ensures
            r.log_requests,
            r.log_responses,
    {
        LoggingMiddleware { log_requests: true, log_responses: true }
    }

    /// Log requests only.
    pub fn requests_only() -> (r: LoggingMiddleware)
        ensures
            r.log_requests,
            !r.log_responses,
    {
        LoggingMiddleware { log_requests: true, log_responses: false }
    }

    /// Log responses only.
    pub fn responses_only() -> (r: LoggingMiddleware)
        ensures
            !r.log_requests,
            r.log_responses,
    {
        LoggingMiddleware { log_requests: false, log_responses: true }
    }

    /// The structured line logged for an outgoing request: its method and
    /// URL.
    pub fn request_line(&self, request: &RequestDescriptor) -> (r: String)
        ensures
            r@ == "HTTP Request: "@ + crate::descriptor::method_name(request@.method) + " "@
                + request@.url,
    {
        let mut s = String::from_str("HTTP Request: ");
        s.append(request.method.as_str());
        s.append(" ");
        s.append(request.url.as_str());
        s
    }

    /// The structured line logged for a response: its status line and the
    /// URL it answers.
    pub fn response_line(&self, response: &ResponseDescriptor, url: &str) -> (r: String)
        ensures
            r@ == "HTTP Response: "@ + crate::error::status_line(response@.status) + " "@ + url@,
    {
        let mut s = String::from_str("HTTP Response: ");
        let line = crate::error::status_text(response.status);
        s.append(line.as_str());
        s.append(" ");
        s.append(url);
        s
    }

    /// Observation never mutates the request and never fails.
    pub fn process_request(&self, request: &mut RequestDescriptor) -> (r: Result<(), HttpError>)
        ensures
            r is Ok,
            final(request)@ == old(request)@,
    {
        Ok(())
    }

    /// Observation never mutates the response and never fails.
    pub fn process_response(&self, response: &mut ResponseDescriptor) -> (r: Result<(), HttpError>)
        ensures
            r is Ok,
            final(response)@ == old(response)@,
    {
        Ok(())
    }

    /// The diagnostic name of this interceptor.
    pub fn name(&self) -> (r: &'static str)
        ensures
            r@ == "LoggingMiddleware"@,
    {
        "LoggingMiddleware"
    }
}

impl Default for LoggingMiddleware {
    /// Same as `new`.
    fn default() -> (r: LoggingMiddleware)
        ensures
            r.log_requests,
            r.log_responses,
    {
        LoggingMiddleware::new()
    }
}

/// Holds retry configuration.  Retry orchestration belongs at the client's
/// execution-loop level, not inside one pipeline pass, so both hooks do
/// nothing here.
#[derive(Debug, Clone)]
pub struct RetryMiddleware {
    pub max_retries: u32,
    pub retry_delay_ms: u64,
}

impl RetryMiddleware {
    /// A retry configuration with the default one-second delay.
    pub fn new(max_retries: u32) -> (r: RetryMiddleware)
        ensures
            r.max_retries == max_retries,
            r.retry_delay_ms == 1000,
    {
        RetryMiddleware { max_retries, retry_delay_ms: 1000 }
    }

    /// The same configuration with another delay.
    pub fn with_delay(self, delay_ms: u64) -> (r: RetryMiddleware)
        ensures
            r.max_retries == self.max_retries,
            r.retry_delay_ms == delay_ms,
    {
        let mut m = self;
        m.retry_delay_ms = delay_ms;
        m
    }

    /// Holds configuration only; does not act on requests.
    pub fn process_request(&self, request: &mut RequestDescriptor) -> (r: Result<(), HttpError>)
        ensures
            r is Ok,
            final(request)@ == old(request)@,
    {
        Ok(())
    }

    /// Holds configuration only; does not act on responses.
    pub fn process_response(&self, response: &mut ResponseDescriptor) -> (r: Result<(), HttpError>)
        ensures
            r is Ok,
            final(response)@ == old(response)@,
    {
        Ok(())
    }

    /// The diagnostic name of this interceptor.
    pub fn name(&self) -> (r: &'static str)
        ensures
            r@ == "RetryMiddleware"@,
    {
        "RetryMiddleware"
    }
}

/// One interceptor of the pipeline: a closed dispatch over the built-in
/// cross-cutting behaviors.
#[derive(Debug)]
pub enum Middleware {
    Auth(AuthMiddleware),
    Headers(HeaderMiddleware),
    Logging(LoggingMiddleware),
    Retry(RetryMiddleware),
}

/// The diagnostic name of an interceptor.
pub open spec fn middleware_name(m: Middleware) -> Seq<char> {
    match m {
        Middleware::Auth(_) => "AuthMiddleware"@,
        Middleware::Headers(_) => "HeaderMiddleware"@,
        Middleware::Logging(_) => "LoggingMiddleware"@,
        Middleware::Retry(_) => "RetryMiddleware"@,
    }
}

/// What an interceptor's pre-send hook does to a request.
pub open spec fn request_effect(m: Middleware, d: ReqModel) -> ReqOutcome {
    match m {
        Middleware::Auth(a) => if auth_ok(a) {
            ReqOutcome::Done(
                ReqModel {
                    headers: entries_insert(
                        d.headers,
                        auth_header_name(a.auth_type),
                        auth_header_value(a),
                    ),
                    ..d
                },
            )
        } else {
            ReqOutcome::Stopped { state: d, msg: auth_err_msg(a) }
        },
        Middleware::Headers(h) => header_entries_effect(h.headers@, d),
        Middleware::Logging(_) => ReqOutcome::Done(d),
        Middleware::Retry(_) => ReqOutcome::Done(d),
    }
}

/// What an interceptor's post-receive hook does to a response.  Every
/// built-in interceptor leaves responses untouched.
pub open spec fn response_effect(m: Middleware, d: RespModel) -> RespOutcome {
    RespOutcome::Done(d)
}

impl Middleware {
    /// Runs this interceptor's pre-send hook.
    pub fn process_request(&self, request: &mut RequestDescriptor) -> (r: Result<(), HttpError>)
        ensures
            ({
                match request_effect(*self, old(request)@) {
                    ReqOutcome::Done(m) => r is Ok && final(request)@ == m,
                    ReqOutcome::Stopped { state, msg } => (r matches Err(
                        HttpError::MiddlewareError(t),
                    ) && t@ == msg) && final(request)@ == state,
                }
            }),
    {
        match self {
            Middleware::Auth(a) => a.process_request(request),
            Middleware::Headers(h) => h.process_request(request),
            Middleware::Logging(l) => l.process_request(request),
            Middleware::Retry(t) => t.process_request(request),
        }
    }

    /// Runs this interceptor's post-receive hook.
    pub fn process_response(&self, response: &mut ResponseDescriptor) -> (r: Result<(), HttpError>)
        ensures
            ({
                match response_effect(*self, old(response)@) {
                    RespOutcome::Done(m) => r is Ok && final(response)@ == m,
                    RespOutcome::Stopped { state, msg } => (r matches Err(
                        HttpError::MiddlewareError(t),
                    ) && t@ == msg) && final(response)@ == state,
                }
            }),
    {
        match self {
            Middleware::Auth(a) => a.process_response(response),
            Middleware::Headers(h) => h.process_response(response),
            Middleware::Logging(l) => l.process_response(response),
            Middleware::Retry(t) => t.process_response(response),
        }
    }

    /// The diagnostic name of this interceptor.
    pub fn name(&self) -> (r: &'static str)
        ensures
            r@ == middleware_name(*self),
    {
        match self {
            Middleware::Auth(a) => a.name(),
            Middleware::Headers(h) => h.name(),
            Middleware::Logging(l) => l.name(),
            Middleware::Retry(t) => t.name(),
        }
    }
}

} // verus!
