//! The client: configuration and the request-execution engine.
//!
//! A [`ClientConfig`] is built fluently and frozen when the client is
//! constructed.  The [`HttpClient`] resolves paths against the base URL,
//! builds the outgoing descriptor with the configured defaults, runs the
//! interceptor pipeline over it, and classifies what the transport brought
//! back.  The transport call itself (network I/O) sits between
//! `prepare_request` and `finish_response` and is made by unverified glue;
//! when `prepare_request` fails the transport must not be invoked.
#![allow(unused_imports)]
use crate::descriptor::Method;
use crate::descriptor::ReqModel;
use crate::descriptor::RequestDescriptor;
use crate::descriptor::ResponseDescriptor;
use crate::descriptor::status_is_success;
use crate::duration::Duration;
use crate::error::HttpError;
use crate::headers::entries_insert;
use crate::headers::header_name_ok;
use crate::headers::header_value_ok;
use crate::headers::valid_header_name;
use crate::headers::valid_header_value;
use crate::headers::HeaderMap;
use crate::headers::StringMap;
use crate::middleware::Middleware;
use crate::pipeline::pre_send_outcome;
use crate::pipeline::post_receive_outcome;
use crate::pipeline::run_post_receive;
use crate::pipeline::run_pre_send;
use crate::pipeline::PipeOutcome;
use crate::pipeline::RespPipeOutcome;
use vstd::prelude::*;
use vstd::string::StrSliceExecFns;
use vstd::string::StringExecFns;

verus! {

/// Client-wide defaults, set fluently and frozen once the client is built.
#[derive(Debug)]
pub struct ClientConfig {
    pub base_url: Option<String>,
    pub timeout: Option<Duration>,
    pub default_headers: HeaderMap,
    pub follow_redirects: bool,
    pub max_redirects: u32,
    pub connect_timeout: Option<Duration>,
    pub pool_idle_timeout: Option<Duration>,
    pub pool_max_idle_per_host: Option<usize>,
}

/// The defaults `ClientConfig::new` starts from, stated over a value.
pub open spec fn config_is_default(c: ClientConfig) -> bool {
    &&& c.base_url is None
    &&& c.timeout == Some(Duration { secs: 30, subsec_ms: 0 })
    &&& c.default_headers@ == Seq::<(Seq<char>, Seq<char>)>::empty()
    &&& c.follow_redirects == true
    &&& c.max_redirects == 10
    &&& c.connect_timeout == Some(Duration { secs: 10, subsec_ms: 0 })
    &&& c.pool_idle_timeout == Some(Duration { secs: 90, subsec_ms: 0 })
    &&& c.pool_max_idle_per_host == Some(10usize)
}

/// The base URL of a configuration, as characters.
pub open spec fn config_base(c: ClientConfig) -> Option<Seq<char>> {
    match c.base_url {
        Some(b) => Some(b@),
        None => None,
    }
}

impl ClientConfig {
    /// A configuration with the library defaults.
    pub fn new() -> (r: ClientConfig)
        ensures
            config_is_default(r),
    {
        ClientConfig {
            base_url: None,
            timeout: Some(Duration::from_secs(30)),
            default_headers: HeaderMap::new(),
            follow_redirects: true,
            max_redirects: 10,
            connect_timeout: Some(Duration::from_secs(10)),
            pool_idle_timeout: Some(Duration::from_secs(90)),
            pool_max_idle_per_host: Some(10),
        }
    }

    /// The same configuration with a base URL for every request.
    pub fn with_base_url(self, base_url: &str) -> (r: ClientConfig)
        ensures
            r.base_url matches Some(b) && b@ == base_url@,
            r.timeout == self.timeout,
            r.default_headers@ == self.default_headers@,
            r.follow_redirects == self.follow_redirects,
            r.max_redirects == self.max_redirects,
            r.connect_timeout == self.connect_timeout,
            r.pool_idle_timeout == self.pool_idle_timeout,
            r.pool_max_idle_per_host == self.pool_max_idle_per_host,
    {
        let mut c = self;
        c.base_url = Some(base_url.to_owned());
        c
    }

    /// The same configuration with another request timeout.
    pub fn with_timeout(self, timeout: Duration) -> (r: ClientConfig)
        ensures
            r.timeout == Some(timeout),
            r.base_url == self.base_url,
            r.default_headers@ == self.default_headers@,
            r.follow_redirects == self.follow_redirects,
            r.max_redirects == self.max_redirects,
            r.connect_timeout == self.connect_timeout,
            r.pool_idle_timeout == self.pool_idle_timeout,
            r.pool_max_idle_per_host == self.pool_max_idle_per_host,
    {
        let mut c = self;
        c.timeout = Some(timeout);
        c
    }

    /// The same configuration with one more default header; rejects a name
    /// or value that is not wire-safe.
    pub fn with_default_header(self, key: &str, value: &str) -> (r: Result<ClientConfig, HttpError>)
        ensures
            valid_header_name(key@) && valid_header_value(value@) ==> (r matches Ok(c)
                && c.default_headers@ == entries_insert(self.default_headers@, key@, value@)
                && c.base_url == self.base_url && c.timeout == self.timeout && c.follow_redirects
                == self.follow_redirects && c.max_redirects == self.max_redirects
                && c.connect_timeout == self.connect_timeout && c.pool_idle_timeout
                == self.pool_idle_timeout && c.pool_max_idle_per_host
                == self.pool_max_idle_per_host),
            !valid_header_name(key@) ==> (r matches Err(HttpError::HeaderError(m)) && m@
                == "invalid header name"@),
            valid_header_name(key@) && !valid_header_value(value@) ==> (r matches Err(
                HttpError::HeaderError(m),
            ) && m@ == "invalid header value"@),
    {
        if !header_name_ok(key) {
            return Err(HttpError::HeaderError(String::from_str("invalid header name")));
        }
        if !header_value_ok(value) {
            return Err(HttpError::HeaderError(String::from_str("invalid header value")));
        }
        let mut c = self;
        c.default_headers.insert(key, value);
        Ok(c)
    }

    /// Sugar for defaulting `Content-Type` and `Accept` to JSON.
    pub fn with_json_headers(self) -> (r: Result<ClientConfig, HttpError>)
        ensures
            r matches Ok(c) && c.default_headers@ == entries_insert(
                entries_insert(self.default_headers@, "Content-Type"@, "application/json"@),
                "Accept"@,
                "application/json"@,
            ) && c.base_url == self.base_url && c.timeout == self.timeout && c.follow_redirects
                == self.follow_redirects && c.max_redirects == self.max_redirects
                && c.connect_timeout == self.connect_timeout && c.pool_idle_timeout
                == self.pool_idle_timeout && c.pool_max_idle_per_host
                == self.pool_max_idle_per_host,
    {
        proof {
            lemma_json_literals_valid();
        }
        let step = self.with_default_header("Content-Type", "application/json");
        match step {
            Ok(c) => c.with_default_header("Accept", "application/json"),
            Err(e) => {
                proof {
                    assert(false);
                }
                Err(e)
            },
        }
    }

    /// The same configuration with another redirect policy.
    pub fn with_redirects(self, follow: bool, max_redirects: u32) -> (r: ClientConfig)
        ensures
            r.follow_redirects == follow,
            r.max_redirects == max_redirects,
            r.base_url == self.base_url,
            r.timeout == self.timeout,
            r.default_headers@ == self.default_headers@,
            r.connect_timeout == self.connect_timeout,
            r.pool_idle_timeout == self.pool_idle_timeout,
            r.pool_max_idle_per_host == self.pool_max_idle_per_host,
    {
        let mut c = self;
        c.follow_redirects = follow;
        c.max_redirects = max_redirects;
        c
    }

    /// The same configuration with another connect timeout.
    pub fn with_connect_timeout(self, timeout: Duration) -> (r: ClientConfig)
        ensures
            r.connect_timeout == Some(timeout),
            r.base_url == self.base_url,
            r.timeout == self.timeout,
            r.default_headers@ == self.default_headers@,
            r.follow_redirects == self.follow_redirects,
            r.max_redirects == self.max_redirects,
            r.pool_idle_timeout == self.pool_idle_timeout,
            r.pool_max_idle_per_host == self.pool_max_idle_per_host,
    {
        let mut c = self;
        c.connect_timeout = Some(timeout);
        c
    }
}

impl Default for ClientConfig {
    /// Same as `new`.
    fn default() -> (r: ClientConfig)
        ensures
            config_is_default(r),
    {
        ClientConfig::new()
    }
}

/// `Content-Type`, `Accept` and `application/json` are wire-safe.
pub proof fn lemma_json_literals_valid()
    ensures
        valid_header_name("Content-Type"@),
        valid_header_name("Accept"@),
        valid_header_value("application/json"@),
{
    reveal_strlit("Content-Type");
    reveal_strlit("Accept");
    reveal_strlit("application/json");
    assert(valid_header_name("Content-Type"@));
    assert(valid_header_name("Accept"@));
    assert(valid_header_value("application/json"@));
}

/// True when the path already carries a scheme prefix and is used verbatim.
pub open spec fn is_absolute_url(p: Seq<char>) -> bool {
    p.len() >= 4 && p[0] == 'h' && p[1] == 't' && p[2] == 't' && p[3] == 'p'
}

/// A sequence with at most one trailing slash removed.
pub open spec fn strip_trailing_slash(s: Seq<char>) -> Seq<char> {
    if s.len() > 0 && s[s.len() - 1] == '/' {
        s.drop_last()
    } else {
        s
    }
}

/// A sequence with at most one leading slash removed.
pub open spec fn strip_leading_slash(s: Seq<char>) -> Seq<char> {
    if s.len() > 0 && s[0] == '/' {
        s.drop_first()
    } else {
        s
    }
}

/// The join of a base URL and a relative path: exactly one slash stands at
/// the join point.
pub open spec fn join_url(base: Seq<char>, path: Seq<char>) -> Seq<char> {
    strip_trailing_slash(base) + "/"@ + strip_leading_slash(path)
}

/// Path resolution: an absolute path is used verbatim, otherwise it is
/// joined to the base URL, if one is set.
pub open spec fn resolve_spec(base: Option<Seq<char>>, path: Seq<char>) -> Seq<char> {
    match base {
        Some(b) => if is_absolute_url(path) {
            path
        } else {
            join_url(b, path)
        },
        None => path,
    }
}

/// URL join law: with a relative path, the resolved URL is the base (one
/// trailing slash dropped), one separating slash, and the path (one
/// leading slash dropped); when neither side carries a doubled slash of
/// its own, exactly one slash stands at the join point.
pub proof fn lemma_resolve_single_separator(base: Seq<char>, path: Seq<char>)
    requires
        !is_absolute_url(path),
        !(base.len() >= 2 && base[base.len() - 1] == '/' && base[base.len() - 2] == '/'),
        !(path.len() >= 2 && path[0] == '/' && path[1] == '/'),
    ensures
        ({
            let r = resolve_spec(Some(base), path);
            let sb = strip_trailing_slash(base);
            let sp = strip_leading_slash(path);
            &&& r == sb + "/"@ + sp
            &&& r[sb.len() as int] == '/'
            &&& sb.len() > 0 ==> r[sb.len() - 1] != '/'
            &&& sp.len() > 0 ==> r[sb.len() + 1 as int] != '/'
        }),
{
    reveal_strlit("/");
    let r = resolve_spec(Some(base), path);
    let sb = strip_trailing_slash(base);
    let sp = strip_leading_slash(path);
    assert(r == sb + "/"@ + sp);
    assert("/"@.len() == 1);
    assert(r[sb.len() as int] == "/"@[0]);
    if sb.len() > 0 {
        assert(r[sb.len() - 1] == sb[sb.len() - 1]);
    }
    if sp.len() > 0 {
        assert(r[sb.len() + 1 as int] == sp[0]);
    }
}

/// Strips one trailing slash, as an executable step.
pub fn strip_trailing(s: &str) -> (r: &str)
    ensures
        r@ == strip_trailing_slash(s@),
{
    let n = s.unicode_len();
    if n > 0 && s.get_char(n - 1) == '/' {
        s.substring_char(0, n - 1)
    } else {
        proof {
            assert(s@.subrange(0, s@.len() as int) =~= s@);
        }
        s
    }
}

/// Resolves a path against an optional base URL.
pub fn resolve(base: Option<&String>, path: &str) -> (r: String)
    ensures
        r@ == resolve_spec(
            match base {
                Some(b) => Some(b@),
                None => None,
            },
            path@,
        ),
{
    match base {
        None => path.to_owned(),
        Some(b) => {
            let n = path.unicode_len();
            let absolute = n >= 4 && path.get_char(0) == 'h' && path.get_char(1) == 't'
                && path.get_char(2) == 't' && path.get_char(3) == 'p';
            if absolute {
                path.to_owned()
            } else {
                let sb = strip_trailing(b.as_str());
                let sp = if n > 0 && path.get_char(0) == '/' {
                    path.substring_char(1, n)
                } else {
                    proof {
                        assert(path@.subrange(0, path@.len() as int) =~= path@);
                    }
                    path
                };
                proof {
                    if n > 0 && path@[0] == '/' {
                        assert(path@.subrange(1, n as int) =~= path@.drop_first());
                    }
                }
                let joined = sb.to_owned().concat("/").concat(sp);
                proof {
                    assert(joined@ == strip_trailing_slash(b@) + "/"@ + strip_leading_slash(
                        path@,
                    ));
                }
                joined
            }
        },
    }
}

/// Whether a byte sequence parses as JSON.  The parser's verdict is a
/// function of the bytes alone.
pub uninterp spec fn json_parse_ok(bytes: Seq<u8>) -> bool;

#[verifier::external_type_specification]
#[verifier::external_body]
pub struct ExValue(serde_json::Value);

#[verifier::external_type_specification]
#[verifier::external_body]
pub struct ExJsonError(serde_json::Error);

/// Relies on `serde_json::from_slice::<Value>`: it accepts or rejects a
/// byte sequence on its content alone, and never panics.
#[verifier::external_body]
fn parse_json(bytes: &Vec<u8>) -> (r: Result<serde_json::Value, serde_json::Error>)
    ensures
        r is Ok <==> json_parse_ok(bytes@),
{
    serde_json::from_slice(bytes.as_slice())
}

/// A response body read as text, best-effort: invalid UTF-8 yields a
/// placeholder.
pub open spec fn body_text(bytes: Seq<u8>) -> Seq<char> {
    if vstd::utf8::valid_utf8(bytes) {
        vstd::utf8::decode_utf8(bytes)
    } else {
        "Could not read error body"@
    }
}

/// The descriptor the engine builds before the pipeline runs: resolved
/// URL, the configured default headers, and the caller's body.
pub open spec fn initial_request(
    c: ClientConfig,
    method: Method,
    url: Seq<char>,
    body: Option<Seq<u8>>,
) -> ReqModel {
    ReqModel {
        method,
        url: resolve_spec(config_base(c), url),
        headers: c.default_headers@,
        body,
    }
}

/// `Content-Type` and the form media type are wire-safe.
pub proof fn lemma_form_literals_valid()
    ensures
        valid_header_name("Content-Type"@),
        valid_header_value("application/x-www-form-urlencoded"@),
{
    reveal_strlit("Content-Type");
    reveal_strlit("application/x-www-form-urlencoded");
    assert(valid_header_name("Content-Type"@));
    assert(valid_header_value("application/x-www-form-urlencoded"@));
}

/// True when the URL already carries a query, so more pairs append with
/// `&` instead of `?`.
pub open spec fn contains_qmark(u: Seq<char>) -> bool {
    exists|i: int| 0 <= i < u.len() && u[i] == '?'
}

/// A URL with query pairs appended, form-encoded: after `?`, or after `&`
/// when the URL already has a query.
pub open spec fn with_query_spec(u: Seq<char>, params: Seq<(Seq<char>, Seq<char>)>) -> Seq<char> {
    if params.len() == 0 {
        u
    } else {
        u + (if contains_qmark(u) {
            "&"@
        } else {
            "?"@
        }) + crate::utils::query_pairs(params, true)
    }
}

/// Reports whether the string contains `?`.
fn has_qmark(s: &str) -> (r: bool)
    ensures
        r == contains_qmark(s@),
{
    let n = s.unicode_len();
    let mut i: usize = 0;
    while i < n
        invariant
            i <= n,
            n == s@.len(),
            forall|j: int| 0 <= j < i ==> s@[j] != '?',
        decreases n - i,
    {
        if s.get_char(i) == '?' {
            return true;
        }
        i = i + 1;
    }
    false
}

/// Composes the frozen configuration, the transport's parameters, and the
/// interceptor pipeline, and drives one request through them.  It holds no
/// per-request state: the transport itself is driven by the caller between
/// `prepare_request` and `finish_response`.
#[derive(Debug)]
pub struct HttpClient {
    pub config: ClientConfig,
    pub middlewares: Vec<Middleware>,
}

impl HttpClient {
    /// A client with the default configuration and no interceptors.
    pub fn new() -> (r: HttpClient)
        ensures
            config_is_default(r.config),
            r.middlewares@ == Seq::<Middleware>::empty(),
    {
        HttpClient { config: ClientConfig::new(), middlewares: Vec::new() }
    }

    /// A client over a custom configuration.
    pub fn with_config(config: ClientConfig) -> (r: Result<HttpClient, HttpError>)
        ensures
            r matches Ok(c) && c.config == config && c.middlewares@ == Seq::<Middleware>::empty(),
    {
        Ok(HttpClient { config, middlewares: Vec::new() })
    }

    /// A client with a base URL and the remaining defaults.
    pub fn with_base_url(base_url: &str) -> (r: HttpClient)
        ensures
            r.config.base_url matches Some(b) && b@ == base_url@,
            r.middlewares@ == Seq::<Middleware>::empty(),
    {
        HttpClient { config: ClientConfig::new().with_base_url(base_url), middlewares: Vec::new() }
    }

    /// The same client with one more interceptor appended; insertion order
    /// is execution order.
    pub fn with_middleware(self, middleware: Middleware) -> (r: HttpClient)
        ensures
            r.config == self.config,
            r.middlewares@ == self.middlewares@.push(middleware),
    {
        let mut c = self;
        c.middlewares.push(middleware);
        c
    }

    /// The frozen configuration.
    pub fn config(&self) -> (r: &ClientConfig)
        ensures
            r == &self.config,
    {
        &self.config
    }

    /// How many interceptors are registered.
    pub fn middleware_count(&self) -> (r: usize)
        ensures
            r == self.middlewares@.len(),
    {
        self.middlewares.len()
    }

    /// Resolves a path against the configured base URL.
    pub fn build_url(&self, url: &str) -> (r: Result<String, HttpError>)
        ensures
            r matches Ok(u) && u@ == resolve_spec(config_base(self.config), url@),
    {
        Ok(resolve(self.config.base_url.as_ref(), url))
    }

    /// Builds the outgoing descriptor — resolved URL, default headers,
    /// body — and runs every pre-send hook over it in registration order.
    /// On failure the transport must not be invoked.
    pub fn prepare_request(&self, method: Method, url: &str, body: Option<Vec<u8>>) -> (r: Result<
        RequestDescriptor,
        HttpError,
    >)
        ensures
            ({
                let init = initial_request(
                    self.config,
                    method,
                    url@,
                    match body {
                        Some(b) => Some(b@),
                        None => None,
                    },
                );
                match pre_send_outcome(self.middlewares@, init) {
                    PipeOutcome::Done(m) => r matches Ok(d) && d@ == m,
                    PipeOutcome::Stopped { state, name, msg } => r matches Err(
                        HttpError::MiddlewareError(t),
                    ) && t@ == name + ": "@ + msg,
                }
            }),
    {
        let resolved = resolve(self.config.base_url.as_ref(), url);
        let mut request = RequestDescriptor::new(method, resolved, body);
        request.headers = self.config.default_headers.copied();
        match run_pre_send(&self.middlewares, &mut request) {
            Ok(_) => Ok(request),
            Err(e) => Err(e),
        }
    }

    /// Like `prepare_request` without a body, with caller-given headers
    /// validated and laid over the defaults before the pipeline runs.
    pub fn prepare_request_with_headers(
        &self,
        method: Method,
        url: &str,
        headers: &StringMap,
    ) -> (r: Result<RequestDescriptor, HttpError>)
        ensures
            ({
                let init = initial_request(self.config, method, url@, None);
                match crate::middleware::header_entries_effect(headers@, init) {
                    crate::middleware::ReqOutcome::Done(d) => match pre_send_outcome(
                        self.middlewares@,
                        d,
                    ) {
                        PipeOutcome::Done(m) => r matches Ok(out) && out@ == m,
                        PipeOutcome::Stopped { state, name, msg } => r matches Err(
                            HttpError::MiddlewareError(t),
                        ) && t@ == name + ": "@ + msg,
                    },
                    crate::middleware::ReqOutcome::Stopped { state, msg } => r matches Err(
                        HttpError::HeaderError(t),
                    ) && t@ == msg,
                }
            }),
    {
        let resolved = resolve(self.config.base_url.as_ref(), url);
        let mut request = RequestDescriptor::new(method, resolved, None);
        request.headers = self.config.default_headers.copied();
        match apply_custom_headers(headers, &mut request) {
            Ok(_) => {},
            Err(e) => {
                return Err(e);
            },
        }
        match run_pre_send(&self.middlewares, &mut request) {
            Ok(_) => Ok(request),
            Err(e) => Err(e),
        }
    }

    /// Like `prepare_request` without a body, with the query pairs
    /// form-encoded and appended to the resolved URL first.
    pub fn prepare_request_with_query(
        &self,
        method: Method,
        url: &str,
        params: &Vec<(String, String)>,
    ) -> (r: Result<RequestDescriptor, HttpError>)
        ensures
            ({
                let resolved = resolve_spec(config_base(self.config), url@);
                let init = ReqModel {
                    method,
                    url: with_query_spec(resolved, crate::headers::entries_view(params@)),
                    headers: self.config.default_headers@,
                    body: None,
                };
                match pre_send_outcome(self.middlewares@, init) {
                    PipeOutcome::Done(m) => r matches Ok(d) && d@ == m,
                    PipeOutcome::Stopped { state, name, msg } => r matches Err(
                        HttpError::MiddlewareError(t),
                    ) && t@ == name + ": "@ + msg,
                }
            }),
    {
        let mut resolved = resolve(self.config.base_url.as_ref(), url);
        if params.len() > 0 {
            let sep = if has_qmark(resolved.as_str()) {
                "&"
            } else {
                "?"
            };
            resolved.append(sep);
            let q = crate::utils::join_query_pairs(params, true);
            resolved.append(q.as_str());
        }
        let mut request = RequestDescriptor::new(method, resolved, None);
        request.headers = self.config.default_headers.copied();
        match run_pre_send(&self.middlewares, &mut request) {
            Ok(_) => Ok(request),
            Err(e) => Err(e),
        }
    }

    /// A POST of form-encoded pairs: the body is the encoded form and
    /// `Content-Type` is set accordingly, over the defaults, before the
    /// pipeline runs.
    pub fn post_form(&self, url: &str, form: &Vec<(String, String)>) -> (r: Result<
        RequestDescriptor,
        HttpError,
    >)
        ensures
            ({
                let init = ReqModel {
                    method: Method::Post,
                    url: resolve_spec(config_base(self.config), url@),
                    headers: entries_insert(
                        self.config.default_headers@,
                        "Content-Type"@,
                        "application/x-www-form-urlencoded"@,
                    ),
                    body: Some(
                        vstd::utf8::encode_utf8(
                            crate::utils::query_pairs(crate::headers::entries_view(form@), true),
                        ),
                    ),
                };
                match pre_send_outcome(self.middlewares@, init) {
                    PipeOutcome::Done(m) => r matches Ok(d) && d@ == m,
                    PipeOutcome::Stopped { state, name, msg } => r matches Err(
                        HttpError::MiddlewareError(t),
                    ) && t@ == name + ": "@ + msg,
                }
            }),
    {
        let resolved = resolve(self.config.base_url.as_ref(), url);
        let q = crate::utils::join_query_pairs(form, true);
        let bytes = q.as_str().as_bytes_vec();
        let mut request = RequestDescriptor::new(Method::Post, resolved, Some(bytes));
        request.headers = self.config.default_headers.copied();
        proof {
            lemma_form_literals_valid();
        }
        request.set_header("Content-Type", "application/x-www-form-urlencoded");
        match run_pre_send(&self.middlewares, &mut request) {
            Ok(_) => Ok(request),
            Err(e) => Err(e),
        }
    }

    /// Runs every post-receive hook over the response, in the same
    /// registration order as the pre-send pass.
    pub fn finish_response(&self, response: &mut ResponseDescriptor) -> (r: Result<(), HttpError>)
        ensures
            ({
                match post_receive_outcome(self.middlewares@, old(response)@) {
                    RespPipeOutcome::Done(m) => r is Ok && final(response)@ == m,
                    RespPipeOutcome::Stopped { state, name, msg } => (r matches Err(
                        HttpError::MiddlewareError(t),
                    ) && t@ == name + ": "@ + msg) && final(response)@ == state,
                }
            }),
    {
        run_post_receive(&self.middlewares, response)
    }
}

/// Validates and lays caller-given headers over a descriptor, aborting on
/// the first one that is not wire-safe.
fn apply_custom_headers(headers: &StringMap, request: &mut RequestDescriptor) -> (r: Result<
    (),
    HttpError,
>)
    ensures
        ({
            match crate::middleware::header_entries_effect(headers@, old(request)@) {
                crate::middleware::ReqOutcome::Done(m) => r is Ok && final(request)@ == m,
                crate::middleware::ReqOutcome::Stopped { state, msg } => (r matches Err(
                    HttpError::HeaderError(t),
                ) && t@ == msg) && final(request)@ == state,
            }
        }),
{
    let ghost orig = request@;
    let ghost es = headers@;
    proof {
        assert(es.skip(0) =~= es);
    }
    let n = headers.len();
    let mut i: usize = 0;
    while i < n
        invariant
            i <= n,
            n == es.len(),
            es == headers@,
            orig == old(request)@,
            crate::middleware::header_entries_effect(es, orig)
                == crate::middleware::header_entries_effect(es.skip(i as int), request@),
        decreases n - i,
    {
        let (name, value) = headers.pair_at(i);
        let ghost before = request@;
        proof {
            assert(es.skip(i as int)[0] == es[i as int]);
            assert(es.skip(i as int).drop_first() =~= es.skip(i + 1));
        }
        if !header_name_ok(name.as_str()) {
            proof {
                assert(crate::middleware::header_entries_effect(es.skip(i as int), before)
                    == (crate::middleware::ReqOutcome::Stopped {
                    state: before,
                    msg: "Invalid header name: "@ + es[i as int].0,
                }));
            }
            let msg = String::from_str("Invalid header name: ").concat(name.as_str());
            return Err(HttpError::HeaderError(msg));
        }
        if !header_value_ok(value.as_str()) {
            proof {
                assert(crate::middleware::header_entries_effect(es.skip(i as int), before)
                    == (crate::middleware::ReqOutcome::Stopped {
                    state: before,
                    msg: "Invalid header value: "@ + es[i as int].1,
                }));
            }
            let msg = String::from_str("Invalid header value: ").concat(value.as_str());
            return Err(HttpError::HeaderError(msg));
        }
        request.set_header(name.as_str(), value.as_str());
        proof {
            let stepped = ReqModel {
                headers: entries_insert(before.headers, es[i as int].0, es[i as int].1),
                ..before
            };
            assert(request@ =~= stepped);
            assert(crate::middleware::header_entries_effect(es.skip(i as int), before)
                == crate::middleware::header_entries_effect(es.skip(i + 1), stepped));
        }
        i = i + 1;
    }
    proof {
        assert(es.skip(n as int) =~= Seq::<(Seq<char>, Seq<char>)>::empty());
    }
    Ok(())
}

/// Splits a response into its successful body, or the classified error: a
/// non-2xx status yields the status and the body read best-effort as text.
pub fn success_body(response: ResponseDescriptor) -> (r: Result<Vec<u8>, HttpError>)
    ensures
        status_is_success(response@.status) ==> (r matches Ok(b) && b@ == response@.body),
        !status_is_success(response@.status) ==> (r matches Err(
            HttpError::ResponseError { status, body },
        ) && status == response@.status && body@ == body_text(response@.body)),
{
    let ResponseDescriptor { status, headers, body } = response;
    if 200 <= status && status < 300 {
        Ok(body)
    } else {
        let text = match crate::text::utf8_to_string(body) {
            Some(s) => s,
            None => String::from_str("Could not read error body"),
        };
        Err(HttpError::ResponseError { status, body: text })
    }
}

/// Decodes a successful response's body as JSON; a non-2xx response is
/// classified first and never decoded.
pub fn process_json_response(response: ResponseDescriptor) -> (r: Result<
    serde_json::Value,
    HttpError,
>)
    ensures
        !status_is_success(response@.status) ==> (r matches Err(
            HttpError::ResponseError { status, body },
        ) && status == response@.status && body@ == body_text(response@.body)),
        status_is_success(response@.status) ==> (r is Ok <==> json_parse_ok(response@.body)),
        status_is_success(response@.status) && !json_parse_ok(response@.body) ==> (r matches Err(
            HttpError::SerializationError(m),
        ) && m@.len() >= "Failed to deserialize response: "@.len() && m@.subrange(
            0,
            "Failed to deserialize response: "@.len() as int,
        ) == "Failed to deserialize response: "@),
    {
    let ghost m = response@;
    let bytes = match success_body(response) {
        Ok(b) => b,
        Err(e) => {
            return Err(e);
        },
    };
    match parse_json(&bytes) {
        Ok(v) => Ok(v),
        Err(e) => {
            let mut msg = String::from_str("Failed to deserialize response: ");
            let detail = e.to_string();
            msg.append(detail.as_str());
            Err(HttpError::SerializationError(msg))
        },
    }
}

} // verus!
