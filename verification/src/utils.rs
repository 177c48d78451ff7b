//! Builders and string-assembly helpers around the client: header, query
//! and URL builders, percent-encoding, and small formatting utilities.
#![allow(unused_imports)]
use crate::error::HttpError;
use crate::headers::entries_insert;
use crate::headers::entries_view;
use crate::headers::header_name_ok;
use crate::headers::header_value_ok;
use crate::headers::valid_header_name;
use crate::headers::valid_header_value;
use crate::headers::HeaderMap;
use crate::headers::StringMap;
use crate::text::all_ascii;
use crate::text::ascii_chars_of;
use crate::text::ascii_to_string;
use crate::text::dec_chars;
use crate::text::decimal_string;
use crate::text::enc_bytes;
use crate::text::encode_bytes;
use crate::duration::Duration;
use vstd::prelude::*;
use vstd::string::StrSliceExecFns;
use vstd::string::StringExecFns;
use vstd::string::StringSliceAdditionalSpecFns;
use vstd::utf8::encode_utf8;

verus! {

/// The percent-encoding of a string, URL-component flavor (`~` kept,
/// space escaped).
pub open spec fn pct(s: Seq<char>) -> Seq<char> {
    ascii_chars_of(enc_bytes(encode_utf8(s), false))
}

/// The percent-encoding of a string, form-urlencoded flavor (space as
/// `+`, `*` kept).
pub open spec fn form_pct(s: Seq<char>) -> Seq<char> {
    ascii_chars_of(enc_bytes(encode_utf8(s), true))
}

/// Percent-encodes a value for use in URLs.
pub fn url_encode(value: &str) -> (r: String)
    ensures
        r@ == pct(value@),
{
    let bytes = value.as_bytes_vec();
    let encoded = encode_bytes(&bytes, false);
    ascii_to_string(encoded)
}

/// Percent-encodes a value in the form-urlencoded flavor.
pub fn form_encode(value: &str) -> (r: String)
    ensures
        r@ == form_pct(value@),
{
    let bytes = value.as_bytes_vec();
    let encoded = encode_bytes(&bytes, true);
    ascii_to_string(encoded)
}

/// One encoded `key=value` pair.
pub open spec fn pair_text(p: (Seq<char>, Seq<char>), form: bool) -> Seq<char> {
    if form {
        form_pct(p.0) + "="@ + form_pct(p.1)
    } else {
        pct(p.0) + "="@ + pct(p.1)
    }
}

/// The non-first pairs of a query string, each preceded by `&`.
pub open spec fn query_rest(params: Seq<(Seq<char>, Seq<char>)>, form: bool) -> Seq<char>
    decreases params.len(),
{
    if params.len() == 0 {
        Seq::<char>::empty()
    } else {
        "&"@ + pair_text(params[0], form) + query_rest(params.drop_first(), form)
    }
}

/// The pairs of a query string joined with `&`.
pub open spec fn query_pairs(params: Seq<(Seq<char>, Seq<char>)>, form: bool) -> Seq<char> {
    if params.len() == 0 {
        Seq::<char>::empty()
    } else {
        pair_text(params[0], form) + query_rest(params.drop_first(), form)
    }
}

/// Appending one pair extends the joined query string by `&` and the pair
/// (or starts it).
pub proof fn lemma_query_pairs_push(
    params: Seq<(Seq<char>, Seq<char>)>,
    p: (Seq<char>, Seq<char>),
    form: bool,
)
    ensures
        params.len() == 0 ==> query_pairs(params.push(p), form) == pair_text(p, form),
        params.len() > 0 ==> query_pairs(params.push(p), form) == query_pairs(params, form) + "&"@
            + pair_text(p, form),
    decreases params.len(),
{
    if params.len() == 0 {
        assert(params.push(p)[0] == p);
        assert(params.push(p).drop_first() =~= Seq::<(Seq<char>, Seq<char>)>::empty());
        assert(query_rest(Seq::<(Seq<char>, Seq<char>)>::empty(), form) == Seq::<char>::empty());
        assert(query_pairs(params.push(p), form) =~= pair_text(p, form));
    } else {
        lemma_query_rest_push(params.drop_first(), p, form);
        assert(params.push(p).drop_first() =~= params.drop_first().push(p));
        assert(params.push(p)[0] == params[0]);
        assert(query_pairs(params.push(p), form) =~= query_pairs(params, form) + "&"@ + pair_text(
            p,
            form,
        ));
    }
}

/// The same step for the `&`-prefixed remainder.
proof fn lemma_query_rest_push(
    params: Seq<(Seq<char>, Seq<char>)>,
    p: (Seq<char>, Seq<char>),
    form: bool,
)
    ensures
        query_rest(params.push(p), form) == query_rest(params, form) + "&"@ + pair_text(p, form),
    decreases params.len(),
{
    if params.len() == 0 {
        assert(params.push(p)[0] == p);
        assert(params.push(p).drop_first() =~= Seq::<(Seq<char>, Seq<char>)>::empty());
        assert(query_rest(Seq::<(Seq<char>, Seq<char>)>::empty(), form) == Seq::<char>::empty());
        assert(query_rest(params.push(p), form) =~= query_rest(params, form) + "&"@ + pair_text(
            p,
            form,
        ));
    } else {
        lemma_query_rest_push(params.drop_first(), p, form);
        assert(params.push(p).drop_first() =~= params.drop_first().push(p));
        assert(params.push(p)[0] == params[0]);
        assert(query_rest(params.push(p), form) =~= query_rest(params, form) + "&"@ + pair_text(
            p,
            form,
        ));
    }
}

/// Joins encoded `key=value` pairs with `&`, in either encoding flavor.
pub fn join_query_pairs(params: &Vec<(String, String)>, form: bool) -> (r: String)
    ensures
        r@ == query_pairs(entries_view(params@), form),
{
    let ghost ps = entries_view(params@);
    let mut out = String::new();
    let n = params.len();
    let mut i: usize = 0;
    while i < n
        invariant
            i <= n,
            n == params@.len(),
            ps == entries_view(params@),
            ps.len() == n,
            out@ == query_pairs(ps.take(i as int), form),
        decreases n - i,
    {
        let p = &params[i];
        let ke = if form {
            form_encode(p.0.as_str())
        } else {
            url_encode(p.0.as_str())
        };
        let ve = if form {
            form_encode(p.1.as_str())
        } else {
            url_encode(p.1.as_str())
        };
        if i > 0 {
            out.append("&");
        }
        out.append(ke.as_str());
        out.append("=");
        out.append(ve.as_str());
        proof {
            assert(ps.take(i + 1) =~= ps.take(i as int).push(ps[i as int]));
            lemma_query_pairs_push(ps.take(i as int), ps[i as int], form);
            assert(ps[i as int] == (params@[i as int].0@, params@[i as int].1@));
            assert(out@ =~= query_pairs(ps.take(i + 1), form));
        }
        i = i + 1;
    }
    proof {
        assert(ps.take(n as int) =~= ps);
    }
    out
}

/// An ordered list of query parameters; repeated keys are kept.
#[derive(Debug)]
pub struct QueryBuilder {
    params: Vec<(String, String)>,
}

impl View for QueryBuilder {
    type V = Seq<(Seq<char>, Seq<char>)>;

    closed spec fn view(&self) -> Seq<(Seq<char>, Seq<char>)> {
        entries_view(self.params@)
    }
}

impl QueryBuilder {
    /// A builder with no parameters yet.
    pub fn new() -> (r: QueryBuilder)
        ensures
            r@ == Seq::<(Seq<char>, Seq<char>)>::empty(),
    {
        let r = QueryBuilder { params: Vec::new() };
        proof {
            assert(r@ =~= Seq::<(Seq<char>, Seq<char>)>::empty());
        }
        r
    }

    /// Appends one parameter.
    pub fn param(self, key: &str, value: &str) -> (r: QueryBuilder)
        ensures
            r@ == self@.push((key@, value@)),
    {
        let mut b = self;
        let ghost pre = b@;
        b.params.push((key.to_owned(), value.to_owned()));
        proof {
            assert(b@ =~= pre.push((key@, value@)));
        }
        b
    }

    /// Appends every entry of a map, in its stored order.
    pub fn params(self, params: &StringMap) -> (r: QueryBuilder)
        ensures
            r@ == self@ + params@,
    {
        let mut b = self;
        let ghost pre = b@;
        let ghost ps = params@;
        let n = params.len();
        let mut i: usize = 0;
        while i < n
            invariant
                i <= n,
                n == ps.len(),
                ps == params@,
                b@ == pre + ps.take(i as int),
            decreases n - i,
        {
            let (k, v) = params.pair_at(i);
            let ghost cur = b@;
            b.params.push((k, v));
            proof {
                assert(entries_view(b.params@) =~= cur.push(ps[i as int]));
                assert(ps.take(i + 1) =~= ps.take(i as int).push(ps[i as int]));
                assert(b@ =~= pre + ps.take(i + 1));
            }
            i = i + 1;
        }
        proof {
            assert(ps.take(n as int) =~= ps);
        }
        b
    }

    /// Appends the parameter only when a value is present.
    pub fn optional_param(self, key: &str, value: Option<&str>) -> (r: QueryBuilder)
        ensures
            ({
                match value {
                    Some(v) => r@ == self@.push((key@, v@)),
                    None => r@ == self@,
                }
            }),
    {
        match value {
            Some(v) => self.param(key, v),
            None => self,
        }
    }

    /// The collected parameters, in order.
    pub fn build(self) -> (r: Vec<(String, String)>)
        ensures
            entries_view(r@) == self@,
    {
        self.params
    }

    /// The parameters as a `?`-prefixed, percent-encoded query string;
    /// empty when there are none.
    pub fn build_query_string(self) -> (r: String)
        ensures
            self@.len() == 0 ==> r@ == Seq::<char>::empty(),
            self@.len() > 0 ==> r@ == "?"@ + query_pairs(self@, false),
    {
        if self.params.len() == 0 {
            return String::new();
        }
        let joined = join_query_pairs(&self.params, false);
        let mut out = String::from_str("?");
        out.append(joined.as_str());
        out
    }
}

/// The parts a URL is assembled from.
#[verifier::ext_equal]
pub struct UrlParts {
    pub base: Seq<char>,
    pub segs: Seq<Seq<char>>,
    pub queries: Seq<(Seq<char>, Seq<char>)>,
}

/// The views of a sequence of strings.
pub open spec fn strs_view(items: Seq<String>) -> Seq<Seq<char>> {
    Seq::new(items.len(), |i: int| items[i]@)
}

/// The path part: each segment percent-encoded behind a slash.
pub open spec fn segs_text(segs: Seq<Seq<char>>) -> Seq<char>
    decreases segs.len(),
{
    if segs.len() == 0 {
        Seq::<char>::empty()
    } else {
        "/"@ + pct(segs[0]) + segs_text(segs.drop_first())
    }
}

/// Appending a segment extends the path part by one encoded segment.
pub proof fn lemma_segs_text_push(segs: Seq<Seq<char>>, s: Seq<char>)
    ensures
        segs_text(segs.push(s)) == segs_text(segs) + "/"@ + pct(s),
    decreases segs.len(),
{
    if segs.len() == 0 {
        assert(segs.push(s)[0] == s);
        assert(segs.push(s).drop_first() =~= Seq::<Seq<char>>::empty());
        assert(segs_text(Seq::<Seq<char>>::empty()) == Seq::<char>::empty());
        assert(segs_text(segs.push(s)) =~= segs_text(segs) + "/"@ + pct(s));
    } else {
        lemma_segs_text_push(segs.drop_first(), s);
        assert(segs.push(s).drop_first() =~= segs.drop_first().push(s));
        assert(segs.push(s)[0] == segs[0]);
        assert(segs_text(segs.push(s)) =~= segs_text(segs) + "/"@ + pct(s));
    }
}

/// The URL a builder produces: the base with one trailing slash dropped,
/// the encoded path segments, and the query string if any pairs were
/// given.
pub open spec fn url_built(p: UrlParts) -> Seq<char> {
    crate::client::strip_trailing_slash(p.base) + segs_text(p.segs) + (if p.queries.len() > 0 {
        "?"@ + query_pairs(p.queries, false)
    } else {
        Seq::<char>::empty()
    })
}

/// Assembles a URL from a base, path segments, and query parameters.
#[derive(Debug)]
pub struct UrlBuilder {
    base_url: String,
    path_segments: Vec<String>,
    query_params: Vec<(String, String)>,
}

impl View for UrlBuilder {
    type V = UrlParts;

    closed spec fn view(&self) -> UrlParts {
        UrlParts {
            base: self.base_url@,
            segs: strs_view(self.path_segments@),
            queries: entries_view(self.query_params@),
        }
    }
}

impl UrlBuilder {
    /// A builder over a base URL.
    pub fn new(base_url: &str) -> (r: UrlBuilder)
        ensures
            r@.base == base_url@,
            r@.segs == Seq::<Seq<char>>::empty(),
            r@.queries == Seq::<(Seq<char>, Seq<char>)>::empty(),
    {
        let r = UrlBuilder {
            base_url: base_url.to_owned(),
            path_segments: Vec::new(),
            query_params: Vec::new(),
        };
        proof {
            assert(r@.segs =~= Seq::<Seq<char>>::empty());
            assert(r@.queries =~= Seq::<(Seq<char>, Seq<char>)>::empty());
        }
        r
    }

    /// Appends one path segment.
    pub fn path(self, segment: &str) -> (r: UrlBuilder)
        ensures
            r@.base == self@.base,
            r@.segs == self@.segs.push(segment@),
            r@.queries == self@.queries,
    {
        let mut b = self;
        let ghost pre = b@;
        b.path_segments.push(segment.to_owned());
        proof {
            assert(b@.segs =~= pre.segs.push(segment@));
        }
        b
    }

    /// Appends several path segments, in order.
    pub fn paths(self, segments: &Vec<String>) -> (r: UrlBuilder)
        ensures
            r@.base == self@.base,
            r@.segs == self@.segs + strs_view(segments@),
            r@.queries == self@.queries,
    {
        let mut b = self;
        let ghost pre = b@;
        let ghost ss = strs_view(segments@);
        let n = segments.len();
        let mut i: usize = 0;
        while i < n
            invariant
                i <= n,
                n == ss.len(),
                ss == strs_view(segments@),
                b@.base == pre.base,
                b@.queries == pre.queries,
                b@.segs == pre.segs + ss.take(i as int),
            decreases n - i,
        {
            let ghost cur = b@;
            b.path_segments.push(segments[i].clone());
            proof {
                assert(b@.segs =~= cur.segs.push(ss[i as int]));
                assert(ss.take(i + 1) =~= ss.take(i as int).push(ss[i as int]));
                assert(b@.segs =~= pre.segs + ss.take(i + 1));
            }
            i = i + 1;
        }
        proof {
            assert(ss.take(n as int) =~= ss);
        }
        b
    }

    /// Appends one query parameter.
    pub fn query(self, key: &str, value: &str) -> (r: UrlBuilder)
        ensures
            r@.base == self@.base,
            r@.segs == self@.segs,
            r@.queries == self@.queries.push((key@, value@)),
    {
        let mut b = self;
        let ghost pre = b@;
        b.query_params.push((key.to_owned(), value.to_owned()));
        proof {
            assert(b@.queries =~= pre.queries.push((key@, value@)));
        }
        b
    }

    /// Appends several query parameters, in their stored order.
    pub fn queries(self, params: &StringMap) -> (r: UrlBuilder)
        ensures
            r@.base == self@.base,
            r@.segs == self@.segs,
            r@.queries == self@.queries + params@,
    {
        let mut b = self;
        let ghost pre = b@;
        let ghost ps = params@;
        let n = params.len();
        let mut i: usize = 0;
        while i < n
            invariant
                i <= n,
                n == ps.len(),
                ps == params@,
                b@.base == pre.base,
                b@.segs == pre.segs,
                b@.queries == pre.queries + ps.take(i as int),
            decreases n - i,
        {
            let (k, v) = params.pair_at(i);
            let ghost cur = b@;
            b.query_params.push((k, v));
            proof {
                assert(b@.queries =~= cur.queries.push(ps[i as int]));
                assert(ps.take(i + 1) =~= ps.take(i as int).push(ps[i as int]));
                assert(b@.queries =~= pre.queries + ps.take(i + 1));
            }
            i = i + 1;
        }
        proof {
            assert(ps.take(n as int) =~= ps);
        }
        b
    }

    /// Builds the final URL.
    pub fn build(self) -> (r: String)
        ensures
            r@ == url_built(self@),
    {
        let ghost parts = self@;
        let mut out = crate::client::strip_trailing(self.base_url.as_str()).to_owned();
        let ghost segs = strs_view(self.path_segments@);
        let n = self.path_segments.len();
        let mut i: usize = 0;
        while i < n
            invariant
                i <= n,
                n == segs.len(),
                segs == strs_view(self.path_segments@),
                out@ == crate::client::strip_trailing_slash(self.base_url@) + segs_text(
                    segs.take(i as int),
                ),
            decreases n - i,
        {
            out.append("/");
            let encoded = url_encode(self.path_segments[i].as_str());
            out.append(encoded.as_str());
            proof {
                assert(segs.take(i + 1) =~= segs.take(i as int).push(segs[i as int]));
                lemma_segs_text_push(segs.take(i as int), segs[i as int]);
                assert(segs[i as int] == self.path_segments@[i as int]@);
            }
            i = i + 1;
        }
        proof {
            assert(segs.take(n as int) =~= segs);
        }
        if self.query_params.len() > 0 {
            out.append("?");
            let joined = join_query_pairs(&self.query_params, false);
            out.append(joined.as_str());
        }
        out
    }
}

/// A fresh query builder.
pub fn query() -> (r: QueryBuilder)
    ensures
        r@ == Seq::<(Seq<char>, Seq<char>)>::empty(),
{
    QueryBuilder::new()
}

/// A fresh URL builder over a base URL.
pub fn url(base_url: &str) -> (r: UrlBuilder)
    ensures
        r@.base == base_url@,
        r@.segs == Seq::<Seq<char>>::empty(),
        r@.queries == Seq::<(Seq<char>, Seq<char>)>::empty(),
{
    UrlBuilder::new(base_url)
}

/// The rendering `format_duration` produces: seconds with a tenths digit,
/// or bare milliseconds below one second.
pub open spec fn duration_text(d: Duration) -> Seq<char> {
    if d.secs > 0 {
        dec_chars(d.secs as nat) + "."@ + dec_chars((d.subsec_ms / 100) as nat) + "s"@
    } else {
        dec_chars(d.subsec_ms as nat) + "ms"@
    }
}

/// Formats a duration as a short human-readable string.
pub fn format_duration(duration: Duration) -> (r: String)
    ensures
        r@ == duration_text(duration),
{
    let secs = duration.as_secs();
    let millis = duration.subsec_millis();
    if secs > 0 {
        let mut s = decimal_string(secs);
        s.append(".");
        let tenth = decimal_string((millis / 100) as u64);
        s.append(tenth.as_str());
        s.append("s");
        s
    } else {
        let mut s = decimal_string(millis as u64);
        s.append("ms");
        s
    }
}

/// What folding a map's entries into a header collection yields: the
/// final entries, or the first rejection.
#[verifier::ext_equal]
pub enum HeaderFold {
    Done(Seq<(Seq<char>, Seq<char>)>),
    Stopped { msg: Seq<char> },
}

/// Folds entries into a header collection, stopping at the first entry
/// that is not wire-safe.
pub open spec fn fold_headers(
    es: Seq<(Seq<char>, Seq<char>)>,
    h: Seq<(Seq<char>, Seq<char>)>,
) -> HeaderFold
    decreases es.len(),
{
    if es.len() == 0 {
        HeaderFold::Done(h)
    } else if !valid_header_name(es[0].0) {
        HeaderFold::Stopped { msg: "invalid header name"@ }
    } else if !valid_header_value(es[0].1) {
        HeaderFold::Stopped { msg: "invalid header value"@ }
    } else {
        fold_headers(es.drop_first(), entries_insert(h, es[0].0, es[0].1))
    }
}

/// Assembles a wire-header collection, validating every entry.
#[derive(Debug)]
pub struct HeaderBuilder {
    headers: HeaderMap,
}

impl View for HeaderBuilder {
    type V = Seq<(Seq<char>, Seq<char>)>;

    closed spec fn view(&self) -> Seq<(Seq<char>, Seq<char>)> {
        self.headers@
    }
}

impl HeaderBuilder {
    /// A builder with no headers yet.
    pub fn new() -> (r: HeaderBuilder)
        ensures
            r@ == Seq::<(Seq<char>, Seq<char>)>::empty(),
    {
        HeaderBuilder { headers: HeaderMap::new() }
    }

    /// Adds one header; rejects a name or value that is not wire-safe.
    pub fn header(self, key: &str, value: &str) -> (r: Result<HeaderBuilder, HttpError>)
        ensures
            valid_header_name(key@) && valid_header_value(value@) ==> (r matches Ok(b) && b@
                == entries_insert(self@, key@, value@)),
            !valid_header_name(key@) ==> (r matches Err(HttpError::HeaderError(m)) && m@
                == "invalid header name"@),
            valid_header_name(key@) && !valid_header_value(value@) ==> (r matches Err(
                HttpError::HeaderError(m),
            ) && m@ == "invalid header value"@),
    {
        if !header_name_ok(key) {
            return Err(HttpError::HeaderError(String::from_str("invalid header name")));
        }
        if !header_value_ok(value) {
            return Err(HttpError::HeaderError(String::from_str("invalid header value")));
        }
        let mut b = self;
        b.headers.insert(key, value);
        Ok(b)
    }

    /// Adds every entry of a map, stopping at the first one that is not
    /// wire-safe.
    pub fn headers(self, headers: &StringMap) -> (r: Result<HeaderBuilder, HttpError>)
        ensures
            ({
                match fold_headers(headers@, self@) {
                    HeaderFold::Done(h) => r matches Ok(b) && b@ == h,
                    HeaderFold::Stopped { msg } => r matches Err(HttpError::HeaderError(m)) && m@
                        == msg,
                }
            }),
    {
        let ghost es = headers@;
        let ghost start = self@;
        proof {
            assert(es.skip(0) =~= es);
        }
        let mut b = self;
        let n = headers.len();
        let mut i: usize = 0;
        while i < n
            invariant
                i <= n,
                n == es.len(),
                es == headers@,
                start == self@,
                fold_headers(es, start) == fold_headers(es.skip(i as int), b@),
            decreases n - i,
        {
            let (k, v) = headers.pair_at(i);
            let ghost cur = b@;
            proof {
                assert(es.skip(i as int)[0] == es[i as int]);
                assert(es.skip(i as int).drop_first() =~= es.skip(i + 1));
            }
            b = match b.header(k.as_str(), v.as_str()) {
                Ok(next) => next,
                Err(e) => {
                    return Err(e);
                },
            };
            i = i + 1;
        }
        proof {
            assert(es.skip(n as int) =~= Seq::<(Seq<char>, Seq<char>)>::empty());
        }
        Ok(b)
    }

    /// Defaults `Content-Type` and `Accept` to JSON.
    pub fn json_headers(self) -> (r: Result<HeaderBuilder, HttpError>)
        ensures
            r matches Ok(b) && b@ == entries_insert(
                entries_insert(self@, "Content-Type"@, "application/json"@),
                "Accept"@,
                "application/json"@,
            ),
    {
        proof {
            crate::client::lemma_json_literals_valid();
        }
        match self.header("Content-Type", "application/json") {
            Ok(b) => b.header("Accept", "application/json"),
            Err(e) => {
                proof {
                    assert(false);
                }
                Err(e)
            },
        }
    }

    /// Adds `Authorization: Bearer <token>`.
    pub fn bearer_auth(self, token: &str) -> (r: Result<HeaderBuilder, HttpError>)
        ensures
            valid_header_value("Bearer "@ + token@) ==> (r matches Ok(b) && b@ == entries_insert(
                self@,
                "Authorization"@,
                "Bearer "@ + token@,
            )),
            !valid_header_value("Bearer "@ + token@) ==> (r matches Err(e) && e is HeaderError),
    {
        proof {
            crate::middleware::lemma_authorization_valid();
        }
        let value = String::from_str("Bearer ").concat(token);
        self.header("Authorization", value.as_str())
    }

    /// Adds `Authorization: Basic <token>`.
    pub fn basic_auth(self, token: &str) -> (r: Result<HeaderBuilder, HttpError>)
        ensures
            valid_header_value("Basic "@ + token@) ==> (r matches Ok(b) && b@ == entries_insert(
                self@,
                "Authorization"@,
                "Basic "@ + token@,
            )),
            !valid_header_value("Basic "@ + token@) ==> (r matches Err(e) && e is HeaderError),
    {
        proof {
            crate::middleware::lemma_authorization_valid();
        }
        let value = String::from_str("Basic ").concat(token);
        self.header("Authorization", value.as_str())
    }

    /// Adds a raw API key under a caller-chosen header.
    pub fn api_key(self, header_name: &str, api_key: &str) -> (r: Result<HeaderBuilder, HttpError>)
        ensures
            valid_header_name(header_name@) && valid_header_value(api_key@) ==> (r matches Ok(b)
                && b@ == entries_insert(self@, header_name@, api_key@)),
            !(valid_header_name(header_name@) && valid_header_value(api_key@)) ==> (r matches Err(e)
                && e is HeaderError),
    {
        self.header(header_name, api_key)
    }

    /// Adds a `User-Agent` header.
    pub fn user_agent(self, user_agent: &str) -> (r: Result<HeaderBuilder, HttpError>)
        ensures
            valid_header_value(user_agent@) ==> (r matches Ok(b) && b@ == entries_insert(
                self@,
                "User-Agent"@,
                user_agent@,
            )),
            !valid_header_value(user_agent@) ==> (r matches Err(e) && e is HeaderError),
    {
        proof {
            lemma_user_agent_valid();
        }
        self.header("User-Agent", user_agent)
    }

    /// The collected headers.
    pub fn build(self) -> (r: HeaderMap)
        ensures
            r@ == self@,
    {
        self.headers
    }
}

/// `User-Agent` is a valid header name.
pub proof fn lemma_user_agent_valid()
    ensures
        valid_header_name("User-Agent"@),
{
    reveal_strlit("User-Agent");
    assert(valid_header_name("User-Agent"@));
}

/// A fresh header builder.
pub fn headers() -> (r: HeaderBuilder)
    ensures
        r@ == Seq::<(Seq<char>, Seq<char>)>::empty(),
{
    HeaderBuilder::new()
}

/// One field of a parameter record, as the query serializer reads it: a
/// string, an already-rendered number, a boolean, a list that yields one
/// pair per item, or a field that is skipped (a null or a nested record).
#[derive(Debug)]
pub enum ParamValue {
    Text(String),
    Number(String),
    Flag(bool),
    List(Vec<String>),
    Skipped,
}

/// The query pairs one field produces.
pub open spec fn field_entries(key: Seq<char>, v: ParamValue) -> Seq<(Seq<char>, Seq<char>)> {
    match v {
        ParamValue::Text(s) => seq![(key, s@)],
        ParamValue::Number(s) => seq![(key, s@)],
        ParamValue::Flag(b) => seq![
            (
                key,
                if b {
                    "true"@
                } else {
                    "false"@
                },
            ),
        ],
        ParamValue::List(items) => Seq::new(items@.len(), |i: int| (key, items@[i]@)),
        ParamValue::Skipped => Seq::<(Seq<char>, Seq<char>)>::empty(),
    }
}

/// The query pairs of a whole record, field by field.
pub open spec fn query_params_of(fields: Seq<(String, ParamValue)>) -> Seq<(Seq<char>, Seq<char>)>
    decreases fields.len(),
{
    if fields.len() == 0 {
        Seq::<(Seq<char>, Seq<char>)>::empty()
    } else {
        field_entries(fields[0].0@, fields[0].1) + query_params_of(fields.drop_first())
    }
}

/// Appending a field appends its pairs.
pub proof fn lemma_query_params_push(fields: Seq<(String, ParamValue)>, f: (String, ParamValue))
    ensures
        query_params_of(fields.push(f)) == query_params_of(fields) + field_entries(f.0@, f.1),
    decreases fields.len(),
{
    if fields.len() == 0 {
        assert(fields.push(f)[0] == f);
        assert(fields.push(f).drop_first() =~= Seq::<(String, ParamValue)>::empty());
        assert(query_params_of(Seq::<(String, ParamValue)>::empty()) == Seq::<
            (Seq<char>, Seq<char>),
        >::empty());
        assert(query_params_of(fields.push(f)) =~= query_params_of(fields) + field_entries(
            f.0@,
            f.1,
        ));
    } else {
        lemma_query_params_push(fields.drop_first(), f);
        assert(fields.push(f).drop_first() =~= fields.drop_first().push(f));
        assert(fields.push(f)[0] == fields[0]);
        assert(query_params_of(fields.push(f)) =~= query_params_of(fields) + field_entries(
            f.0@,
            f.1,
        ));
    }
}

/// Flattens a record's fields into query parameters: strings, numbers and
/// booleans one pair each, lists one pair per item, nulls and nested
/// records skipped.
pub fn to_query_params(fields: &Vec<(String, ParamValue)>) -> (r: Vec<(String, String)>)
    ensures
        entries_view(r@) == query_params_of(fields@),
{
    let ghost fs = fields@;
    let mut out: Vec<(String, String)> = Vec::new();
    let n = fields.len();
    let mut i: usize = 0;
    while i < n
        invariant
            i <= n,
            n == fs.len(),
            fs == fields@,
            entries_view(out@) == query_params_of(fs.take(i as int)),
        decreases n - i,
    {
        let key = &fields[i].0;
        let ghost cur = entries_view(out@);
        let ghost fe = field_entries(fs[i as int].0@, fs[i as int].1);
        match &fields[i].1 {
            ParamValue::Text(s) => {
                out.push((key.clone(), s.clone()));
                proof {
                    assert(entries_view(out@) =~= cur + fe);
                }
            },
            ParamValue::Number(s) => {
                out.push((key.clone(), s.clone()));
                proof {
                    assert(entries_view(out@) =~= cur + fe);
                }
            },
            ParamValue::Flag(b) => {
                if *b {
                    out.push((key.clone(), String::from_str("true")));
                } else {
                    out.push((key.clone(), String::from_str("false")));
                }
                proof {
                    assert(entries_view(out@) =~= cur + fe);
                }
            },
            ParamValue::List(items) => {
                let m = items.len();
                let mut j: usize = 0;
                while j < m
                    invariant
                        j <= m,
                        i < fs.len(),
                        fs == fields@,
                        m == items@.len(),
                        fields@[i as int].1 matches ParamValue::List(its) && its@ == items@,
                        key@ == fs[i as int].0@,
                        fe == field_entries(fs[i as int].0@, fs[i as int].1),
                        fe.len() == m,
                        forall|k: int|
                            0 <= k < m ==> #[trigger] fe[k] == (fs[i as int].0@, items@[k]@),
                        entries_view(out@) == cur + fe.take(j as int),
                    decreases m - j,
                {
                    let ghost step = entries_view(out@);
                    out.push((key.clone(), items[j].clone()));
                    proof {
                        assert(entries_view(out@) =~= step.push(fe[j as int]));
                        assert(fe.take(j + 1) =~= fe.take(j as int).push(fe[j as int]));
                        assert(entries_view(out@) =~= cur + fe.take(j + 1));
                    }
                    j = j + 1;
                }
                proof {
                    assert(fe.take(m as int) =~= fe);
                }
            },
            ParamValue::Skipped => {
                proof {
                    assert(entries_view(out@) =~= cur + fe);
                }
            },
        }
        proof {
            assert(fs.take(i + 1) =~= fs.take(i as int).push(fs[i as int]));
            lemma_query_params_push(fs.take(i as int), fs[i as int]);
            assert(entries_view(out@) =~= query_params_of(fs.take(i + 1)));
        }
        i = i + 1;
    }
    proof {
        assert(fs.take(n as int) =~= fs);
    }
    out
}

/// Whether a string parses as a well-formed URL.  The parser's verdict is
/// a function of the string alone.
pub uninterp spec fn url_parse_ok(s: Seq<char>) -> bool;

/// Relies on `reqwest::Url::parse` (the `url` crate's parser): it accepts
/// or rejects a string on the string's content alone; on rejection the
/// parse error is rendered to text.
#[verifier::external_body]
fn url_parse_error(s: &str) -> (r: Option<String>)
    ensures
        r is None <==> url_parse_ok(s@),
{
    match reqwest::Url::parse(s) {
        Ok(_) => None,
        Err(e) => Some(e.to_string()),
    }
}

/// Validates that a URL is well-formed, via the transport's own parser.
pub fn validate_url(url: &str) -> (r: Result<(), HttpError>)
    ensures
        r is Ok <==> url_parse_ok(url@),
        r matches Err(e) ==> (e matches HttpError::UrlError(m) && m@.len() >= "Invalid URL '"@.len()
            && m@.subrange(0, "Invalid URL '"@.len() as int) == "Invalid URL '"@),
{
    match url_parse_error(url) {
        None => Ok(()),
        Some(e) => {
            let mut m = String::from_str("Invalid URL '");
            m.append(url);
            m.append("': ");
            m.append(e.as_str());
            Err(HttpError::UrlError(m))
        },
    }
}

} // verus!
