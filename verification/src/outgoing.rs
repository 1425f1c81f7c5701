use vstd::prelude::*;
use vstd::string::StringExecFns;
use crate::config::HostAndPort;
use crate::request::{expand_path, expand_pattern, PathError, ParamList, RequestParams};
use crate::server::HeaderEntry;
use crate::config::opt_view;
use crate::error::Error;
use crate::retry::internal_safe_error;
use crate::text::{chars_of, decimal, push_decimal, str_eq, views};

verus! {

broadcast use vstd::string::group_string_axioms;

/// An HTTP method.
#[derive(Copy, Clone, PartialEq, Eq, Structural)]
pub enum Method {
    Get,
    Head,
    Post,
    Put,
    Delete,
    Connect,
    Options,
    Trace,
    Patch,
}

impl Method {
    /// Whether a request with this method may be repeated with the same effect: `GET`, `HEAD`,
    /// `OPTIONS`, `TRACE`, `PUT` and `DELETE` are.
    pub open spec fn spec_is_idempotent(self) -> bool {
        match self {
            Method::Get | Method::Head | Method::Options | Method::Trace | Method::Put
            | Method::Delete => true,
            _ => false,
        }
    }

    /// Returns whether the method is idempotent.
    pub fn is_idempotent(&self) -> (res: bool)
        ensures
            res == self.spec_is_idempotent(),
    {
        match self {
            Method::Get | Method::Head | Method::Options | Method::Trace | Method::Put
            | Method::Delete => true,
            _ => false,
        }
    }
}

/// A list of headers, each as its name and value.
pub type HeaderList = Seq<(Seq<char>, Seq<char>)>;

/// `POST`, `PATCH` and `CONNECT` requests are not idempotent, and may not be retried after an
/// I/O error; every other method is.
pub proof fn lemma_idempotent_methods(m: Method)
    ensures
        m.spec_is_idempotent() <==> !(m == Method::Post || m == Method::Patch || m == Method::Connect),
{
}

/// The content of a list of header entries.
pub open spec fn entries_view(h: Seq<HeaderEntry>) -> HeaderList {
    h.map_values(|e: HeaderEntry| (e.name@, e.value@))
}

/// The headers without those called `name`.
pub open spec fn drop_header(h: HeaderList, name: Seq<char>) -> HeaderList
    decreases h.len(),
{
    if h.len() == 0 {
        h
    } else if h.last().0 == name {
        drop_header(h.drop_last(), name)
    } else {
        drop_header(h.drop_last(), name).push(h.last())
    }
}

/// The headers with `name` set to `value` alone, at the end.
pub open spec fn set_header(h: HeaderList, name: Seq<char>, value: Seq<char>) -> HeaderList {
    drop_header(h, name).push((name, value))
}

/// Removes every header called `name`.
fn remove_header(headers: &mut Vec<HeaderEntry>, name: &str)
    ensures
        entries_view(final(headers)@) == drop_header(entries_view(old(headers)@), name@),
{
    let mut old_headers: Vec<HeaderEntry> = Vec::new();
    std::mem::swap(&mut old_headers, headers);
    let ghost all = entries_view(old_headers@);
    let mut i: usize = 0;
    while i < old_headers.len()
        invariant
            i <= old_headers@.len(),
            all == entries_view(old_headers@),
            entries_view(headers@) == drop_header(all.take(i as int), name@),
        decreases old_headers@.len() - i,
    {
        let e = &old_headers[i];
        assert(all.take(i + 1).drop_last() =~= all.take(i as int));
        if !str_eq(e.name.as_str(), name) {
            let ghost before = headers@;
            headers.push(HeaderEntry { name: e.name.clone(), value: e.value.clone() });
            assert(entries_view(headers@) =~= entries_view(before).push(all[i as int]));
        }
        i = i + 1;
    }
    assert(all.take(old_headers@.len() as int) =~= all);
}

/// Sets header `name` to `value` alone, as inserting into a header map does.
pub fn insert_header(headers: &mut Vec<HeaderEntry>, name: &str, value: &str)
    ensures
        entries_view(final(headers)@) == set_header(entries_view(old(headers)@), name@, value@),
{
    remove_header(headers, name);
    let ghost before = headers@;
    headers.push(HeaderEntry { name: name.to_string(), value: value.to_string() });
    assert(entries_view(headers@) =~= entries_view(before).push((name@, value@)));
}

/// The headers every request starts with: it accepts any type, preferring CBOR, in gzip or
/// deflate encoding, and names its user agent.
pub open spec fn default_headers(user_agent: Seq<char>) -> HeaderList {
    seq![
        ("accept"@, "*/*; q=0.5, application/cbor"@),
        ("accept-encoding"@, "gzip, deflate"@),
        ("user-agent"@, user_agent),
    ]
}

/// A character that may appear in a bearer token, before its trailing `=` padding.
pub open spec fn is_token68_char(c: char) -> bool {
    ('a' <= c && c <= 'z') || ('A' <= c && c <= 'Z') || ('0' <= c && c <= '9') || c == '-' || c
        == '.' || c == '_' || c == '~' || c == '+' || c == '/'
}

/// A valid bearer token: one or more token characters followed by any number of `=`.
pub open spec fn valid_token68(s: Seq<char>) -> bool {
    &&& s.len() > 0
    &&& is_token68_char(s[0])
    &&& forall|i: int| 0 <= i < s.len() ==> is_token68_char(#[trigger] s[i]) || s[i] == '='
    &&& forall|i: int, j: int| 0 <= i < j < s.len() && #[trigger] s[i] == '=' ==> #[trigger] s[j] == '='
}

/// A bearer token is one or more token characters with any number of `=` after them: token
/// characters alone, or padded, make a token; nothing, a `=` followed by another token
/// character, or any other character do not.
pub proof fn lemma_token68(a: Seq<char>, b: Seq<char>, c: char)
    requires
        a.len() > 0,
        b.len() > 0,
        forall|i: int| 0 <= i < a.len() ==> is_token68_char(#[trigger] a[i]),
        forall|i: int| 0 <= i < b.len() ==> is_token68_char(#[trigger] b[i]),
    ensures
        valid_token68(a),
        valid_token68(a + seq!['=', '=']),
        !valid_token68(Seq::empty()),
        !valid_token68(a + seq!['='] + b),
        !is_token68_char(c) && c != '=' ==> !valid_token68(a + seq![c]),
{
    let p = a + seq!['=', '='];
    assert forall|i: int| 0 <= i < p.len() implies is_token68_char(#[trigger] p[i]) || p[i] == '=' by {
        if i < a.len() {
            assert(p[i] == a[i]);
        }
    }
    assert forall|i: int, j: int| 0 <= i < j < p.len() && #[trigger] p[i] == '=' implies #[trigger] p[j] == '=' by {
        if i < a.len() {
            assert(p[i] == a[i]);
            assert(!is_token68_char('='));
        }
    }
    assert(p[0] == a[0]);
    let q = a + seq!['='] + b;
    assert(q[a.len() as int] == '=');
    assert(q[a.len() as int + 1] == b[0]);
    assert(!is_token68_char('='));
    let r = a + seq![c];
    assert(r[a.len() as int] == c);
}

/// Returns whether a character may appear in a bearer token, before its trailing `=` padding.
fn token68_char(c: char) -> (res: bool)
    ensures
        res == is_token68_char(c),
{
    ('a' <= c && c <= 'z') || ('A' <= c && c <= 'Z') || ('0' <= c && c <= '9') || c == '-' || c
        == '.' || c == '_' || c == '~' || c == '+' || c == '/'
}

/// Returns whether text is a valid bearer token.
pub fn is_valid_token68(s: &str) -> (res: bool)
    ensures
        res == valid_token68(s@),
{
    let chars = chars_of(s);
    if chars.len() == 0 {
        return false;
    }
    if !token68_char(chars[0]) {
        return false;
    }
    let mut seen_eq = false;
    let mut i: usize = 1;
    while i < chars.len()
        invariant
            1 <= i <= chars@.len(),
            chars@ == s@,
            is_token68_char(s@[0]),
            forall|k: int| 0 <= k < i ==> is_token68_char(#[trigger] s@[k]) || s@[k] == '=',
            forall|k: int, j: int| 0 <= k < j < i && #[trigger] s@[k] == '=' ==> #[trigger] s@[j] == '=',
            seen_eq ==> s@[i - 1] == '=',
            !seen_eq ==> forall|k: int| 0 <= k < i ==> #[trigger] s@[k] != '=',
        decreases chars@.len() - i,
    {
        let c = chars[i];
        if c == '=' {
            seen_eq = true;
        } else if seen_eq {
            assert(s@[i - 1] == '=' && s@[i as int] != '=');
            return false;
        } else if !token68_char(c) {
            assert(!(is_token68_char(s@[i as int]) || s@[i as int] == '='));
            return false;
        }
        i = i + 1;
    }
    true
}

/// A request being put together: its method, its path pattern, its parameters and its headers.
pub struct RequestBuilder {
    method: Method,
    pattern: String,
    params: RequestParams,
    headers: Vec<HeaderEntry>,
    idempotent: bool,
}

/// The content of a `RequestBuilder`.
pub struct RequestBuilderView {
    pub method: Method,
    pub pattern: Seq<char>,
    pub params: ParamList,
    pub headers: HeaderList,
    pub idempotent: bool,
}

impl View for RequestBuilder {
    type V = RequestBuilderView;

    closed spec fn view(&self) -> RequestBuilderView {
        RequestBuilderView {
            method: self.method,
            pattern: self.pattern@,
            params: self.params@,
            headers: entries_view(self.headers@),
            idempotent: self.idempotent,
        }
    }
}

impl RequestBuilder {
    /// Starts a request to the path `pattern` with `method`, sent by `user_agent`. It has no
    /// parameters, the default headers, and is idempotent as its method is.
    pub fn new(user_agent: &str, pattern: &str, method: Method) -> (res: RequestBuilder)
        ensures
            res@ == (RequestBuilderView {
                method,
                pattern: pattern@,
                params: Seq::empty(),
                headers: default_headers(user_agent@),
                idempotent: method.spec_is_idempotent(),
            }),
    {
        let mut headers: Vec<HeaderEntry> = Vec::new();
        headers.push(HeaderEntry { name: "accept".to_string(), value: "*/*; q=0.5, application/cbor".to_string() });
        headers.push(HeaderEntry { name: "accept-encoding".to_string(), value: "gzip, deflate".to_string() });
        headers.push(HeaderEntry { name: "user-agent".to_string(), value: user_agent.to_string() });
        let res = RequestBuilder {
            method,
            pattern: pattern.to_string(),
            params: RequestParams::new(),
            headers,
            idempotent: method.is_idempotent(),
        };
        assert(res@.headers =~= default_headers(user_agent@));
        res
    }

    /// Returns the headers, for the caller to change. The headers that the client controls are
    /// replaced when the request is sent.
    pub fn headers_mut(&mut self) -> (res: &mut Vec<HeaderEntry>)
        ensures
            entries_view(res@) == old(self)@.headers,
            final(self)@ == (RequestBuilderView { headers: entries_view(final(res)@), ..old(self)@ }),
    {
        &mut self.headers
    }

    /// Sets the `Authorization` header to the bearer token `token`, which must be valid.
    pub fn bearer_token(&mut self, token: &str) -> (res: &mut Self)
        requires
            valid_token68(token@),
        ensures
            res@ == (RequestBuilderView {
                headers: set_header(old(self)@.headers, "authorization"@, "Bearer "@ + token@),
                ..old(self)@
            }),
            final(self)@ == final(res)@,
    {
        let mut value = String::from_str("Bearer ");
        value.append(token);
        insert_header(&mut self.headers, "authorization", value.as_str());
        self
    }

    /// Adds a value for parameter `name`. A name that matches a placeholder of the path pattern
    /// gives a path parameter, which must receive exactly one value; any other gives a query
    /// parameter, which may receive several.
    pub fn param(&mut self, name: &str, value: &str) -> (res: &mut Self)
        ensures
            res@.params == match crate::request::name_index(old(self)@.params, name@) {
                Some(i) => old(self)@.params.update(i, (name@, old(self)@.params[i].1.push(value@))),
                None => old(self)@.params.push((name@, seq![value@])),
            },
            res@ == (RequestBuilderView { params: res@.params, ..old(self)@ }),
            final(self)@ == final(res)@,
    {
        self.params.add(name, value);
        self
    }

    /// Sets whether the request may be retried after an I/O error.
    pub fn idempotent(&mut self, idempotent: bool) -> (res: &mut Self)
        ensures
            res@ == (RequestBuilderView { idempotent, ..old(self)@ }),
            final(self)@ == final(res)@,
    {
        self.idempotent = idempotent;
        self
    }

    /// Returns the method.
    pub fn method(&self) -> (res: Method)
        ensures
            res == self@.method,
    {
        self.method
    }

    /// Returns whether the request may be retried after an I/O error.
    pub fn is_idempotent(&self) -> (res: bool)
        ensures
            res == self@.idempotent,
    {
        self.idempotent
    }

    /// The path segments to append to a node's URL and the query pairs to add to it: the
    /// pattern's placeholders filled in with the path parameters, and each other parameter with
    /// each of its values.
    pub fn target(&self) -> (res: Result<(Vec<String>, Vec<(String, String)>), PathError>)
        ensures
            match expand_pattern(self@.pattern, self@.params) {
                Ok((path, rest)) => res matches Ok((segments, pairs)) && views(segments@) == path
                    && pair_views(pairs@) == query_pairs(rest),
                Err(e) => res matches Err(err) && err@ == e,
            },
    {
        match expand_path(self.pattern.as_str(), &self.params) {
            Ok((segments, rest)) => Ok((segments, query_pairs_of(&rest))),
            Err(e) => Err(e),
        }
    }
}

/// The content of a list of string pairs.
pub open spec fn pair_views(p: Seq<(String, String)>) -> HeaderList {
    p.map_values(|e: (String, String)| (e.0@, e.1@))
}

/// Each parameter with each of its values, in order.
pub open spec fn query_pairs(params: ParamList) -> HeaderList
    decreases params.len(),
{
    if params.len() == 0 {
        Seq::empty()
    } else {
        query_pairs(params.drop_last()) + params.last().1.map_values(
            |v: Seq<char>| (params.last().0, v),
        )
    }
}

/// Lists each parameter with each of its values.
pub fn query_pairs_of(params: &RequestParams) -> (res: Vec<(String, String)>)
    ensures
        pair_views(res@) == query_pairs(params@),
{
    let entries = params.entries();
    let ghost all = params@;
    let mut out: Vec<(String, String)> = Vec::new();
    let mut i: usize = 0;
    while i < entries.len()
        invariant
            i <= entries@.len(),
            all == params@,
            entries@.map_values(|e: crate::request::ParamValues| crate::request::entry_view(e)) == all,
            pair_views(out@) == query_pairs(all.take(i as int)),
        decreases entries@.len() - i,
    {
        let e = &entries[i];
        assert(all[i as int] == crate::request::entry_view(*e));
        let ghost start = pair_views(out@);
        let mut j: usize = 0;
        while j < e.values.len()
            invariant
                j <= e.values@.len(),
                i < all.len(),
                all[i as int] == crate::request::entry_view(*e),
                pair_views(out@) == start + all[i as int].1.take(j as int).map_values(
                    |v: Seq<char>| (all[i as int].0, v),
                ),
            decreases e.values@.len() - j,
        {
            let ghost before = pair_views(out@);
            let pair = (e.name.clone(), e.values[j].clone());
            out.push(pair);
            assert(pair_views(out@) =~= before.push((pair.0@, pair.1@)));
            assert(all[i as int].1.take(j + 1).map_values(|v: Seq<char>| (all[i as int].0, v))
                =~= all[i as int].1.take(j as int).map_values(|v: Seq<char>| (all[i as int].0, v)).push(
                (all[i as int].0, all[i as int].1[j as int]),
            ));
            j = j + 1;
        }
        assert(all[i as int].1.take(e.values@.len() as int) =~= all[i as int].1);
        assert(all.take(i + 1).drop_last() =~= all.take(i as int));
        i = i + 1;
    }
    assert(all.take(entries@.len() as int) =~= all);
    out
}

/// How requests of a client reach the service through a proxy.
pub enum ProxyState {
    /// Through an HTTP proxy, which is shown the `Proxy-Authorization` value of its credentials,
    /// if it has any, on plain HTTP requests.
    Http { authorization: Option<String> },
    /// Through a mesh proxy at `host`, which gets every request in place of the service's host.
    Mesh { host: HostAndPort },
}

/// The body of a request as its headers describe it: its length, if known, and its media type.
pub struct BodyInfo {
    pub content_length: Option<u64>,
    pub content_type: String,
}

/// The trace context a request is sent in: the trace's ID, the span's ID and its parent span's
/// ID, if any, each in the lowercase hex that trace IDs are written in, and the sampling flags.
pub struct TraceContext {
    pub trace_id: String,
    pub span_id: String,
    pub parent_id: Option<String>,
    pub sampled: Option<bool>,
    pub debug: bool,
}

/// The headers with the sampling flags propagated: `X-B3-Flags: 1` alone for a debug trace;
/// otherwise `X-B3-Sampled` as `1` or `0` where the sampling decision is made, and neither
/// header where it is not.
pub open spec fn sampling_headers(h: HeaderList, sampled: Option<bool>, debug: bool) -> HeaderList {
    if debug {
        drop_header(set_header(h, "x-b3-flags"@, "1"@), "x-b3-sampled"@)
    } else {
        let h = drop_header(h, "x-b3-flags"@);
        match sampled {
            Some(true) => set_header(h, "x-b3-sampled"@, "1"@),
            Some(false) => set_header(h, "x-b3-sampled"@, "0"@),
            None => drop_header(h, "x-b3-sampled"@),
        }
    }
}

/// The headers with the trace context `t` propagated as B3 headers: the sampling flags, the
/// trace ID, the parent span ID where there is one (and none otherwise), and the span ID.
pub open spec fn traced(h: HeaderList, t: TraceContext) -> HeaderList {
    let h = set_header(sampling_headers(h, t.sampled, t.debug), "x-b3-traceid"@, t.trace_id@);
    let h = match t.parent_id {
        Some(p) => set_header(h, "x-b3-parentspanid"@, p@),
        None => drop_header(h, "x-b3-parentspanid"@),
    };
    set_header(h, "x-b3-spanid"@, t.span_id@)
}

/// Propagates the trace context `t` in `headers`.
pub fn set_trace_context(headers: &mut Vec<HeaderEntry>, t: &TraceContext)
    ensures
        entries_view(final(headers)@) == traced(entries_view(old(headers)@), *t),
{
    if t.debug {
        insert_header(headers, "x-b3-flags", "1");
        remove_header(headers, "x-b3-sampled");
    } else {
        remove_header(headers, "x-b3-flags");
        match t.sampled {
            Some(true) => insert_header(headers, "x-b3-sampled", "1"),
            Some(false) => insert_header(headers, "x-b3-sampled", "0"),
            None => remove_header(headers, "x-b3-sampled"),
        }
    }
    insert_header(headers, "x-b3-traceid", t.trace_id.as_str());
    match &t.parent_id {
        Some(p) => insert_header(headers, "x-b3-parentspanid", p.as_str()),
        None => remove_header(headers, "x-b3-parentspanid"),
    }
    insert_header(headers, "x-b3-spanid", t.span_id.as_str());
}

/// The headers that the client controls and removes from those the caller set.
pub open spec fn controlled(h: HeaderList) -> HeaderList {
    drop_header(
        drop_header(
            drop_header(drop_header(drop_header(h, "connection"@), "host"@), "proxy-authorization"@),
            "content-length"@,
        ),
        "content-type"@,
    )
}

/// The headers a request is sent with: the caller's, without those the client controls; the
/// trace context; the proxy's credentials on a plain HTTP request through an HTTP proxy that has
/// them; the service's authority as `Host` through a mesh proxy; and the length, if known, and
/// the type of the body.
pub open spec fn sent_headers(
    user: HeaderList,
    trace: TraceContext,
    proxy: Option<ProxyState>,
    is_http: bool,
    authority: Seq<char>,
    body: Option<(Option<u64>, Seq<char>)>,
) -> HeaderList {
    let h = traced(controlled(user), trace);
    let h = match proxy {
        Some(ProxyState::Http { authorization }) => match authorization {
            Some(v) => if is_http {
                set_header(h, "proxy-authorization"@, v@)
            } else {
                h
            },
            None => h,
        },
        Some(ProxyState::Mesh { .. }) => set_header(h, "host"@, authority),
        None => h,
    };
    match body {
        Some((len, content_type)) => {
            let h = match len {
                Some(n) => set_header(h, "content-length"@, decimal(n as nat)),
                None => h,
            };
            set_header(h, "content-type"@, content_type)
        },
        None => h,
    }
}

/// The authority of a URL, as a `Host` header gives it: the host, and `:port` where the URL
/// names a port.
pub open spec fn authority_text(host: Seq<char>, port: Option<u16>) -> Seq<char> {
    match port {
        Some(p) => host + seq![':'] + decimal(p as nat),
        None => host,
    }
}

/// Formats the authority of a URL.
pub fn authority(host: &str, port: Option<u16>) -> (res: String)
    ensures
        res@ == authority_text(host@, port),
{
    let mut s = String::from_str(host);
    match port {
        Some(p) => {
            crate::text::push_char(&mut s, ':');
            push_decimal(&mut s, p as u64);
            assert(host@.push(':') =~= host@ + seq![':']);
        },
        None => {},
    }
    s
}

/// Computes the headers a request is sent with, from those the caller set.
pub fn send_headers(
    user: &Vec<HeaderEntry>,
    trace: &TraceContext,
    proxy: &Option<ProxyState>,
    is_http: bool,
    authority: &str,
    body: &Option<BodyInfo>,
) -> (res: Vec<HeaderEntry>)
    ensures
        entries_view(res@) == sent_headers(
            entries_view(user@),
            *trace,
            *proxy,
            is_http,
            authority@,
            match body {
                Some(b) => Some((b.content_length, b.content_type@)),
                None => None,
            },
        ),
{
    let mut headers = copy_headers(user);
    remove_header(&mut headers, "connection");
    remove_header(&mut headers, "host");
    remove_header(&mut headers, "proxy-authorization");
    remove_header(&mut headers, "content-length");
    remove_header(&mut headers, "content-type");
    set_trace_context(&mut headers, trace);
    match proxy {
        Some(ProxyState::Http { authorization }) => match authorization {
            Some(v) => {
                if is_http {
                    insert_header(&mut headers, "proxy-authorization", v.as_str());
                }
            },
            None => {},
        },
        Some(ProxyState::Mesh { .. }) => insert_header(&mut headers, "host", authority),
        None => {},
    }
    match body {
        Some(b) => {
            match b.content_length {
                Some(n) => {
                    let mut len = String::new();
                    push_decimal(&mut len, n);
                    assert(len@ =~= decimal(n as nat));
                    insert_header(&mut headers, "content-length", len.as_str());
                },
                None => {},
            }
            insert_header(&mut headers, "content-type", b.content_type.as_str());
        },
        None => {},
    }
    headers
}

/// Copies a list of headers.
fn copy_headers(h: &Vec<HeaderEntry>) -> (res: Vec<HeaderEntry>)
    ensures
        entries_view(res@) == entries_view(h@),
{
    let mut out: Vec<HeaderEntry> = Vec::new();
    let mut i: usize = 0;
    while i < h.len()
        invariant
            i <= h@.len(),
            entries_view(out@) == entries_view(h@).take(i as int),
        decreases h@.len() - i,
    {
        let ghost before = out@;
        let e = HeaderEntry { name: h[i].name.clone(), value: h[i].value.clone() };
        out.push(e);
        assert(entries_view(out@) =~= entries_view(before).push((e.name@, e.value@)));
        assert(entries_view(h@).take(i + 1) =~= entries_view(h@).take(i as int).push(
            entries_view(h@)[i as int],
        ));
        i = i + 1;
    }
    assert(entries_view(h@).take(h@.len() as int) =~= entries_view(h@));
    out
}

/// The text of the URL written in `url` once `segment` is appended to its path; none when the
/// text is no URL or the URL cannot be a base.
pub uninterp spec fn url_with_segment(url: Seq<char>, segment: Seq<char>) -> Option<Seq<char>>;

/// The text of the URL written in `url` once `name` and `value` are appended to its query; none
/// when the text is no URL.
pub uninterp spec fn url_with_query_pair(url: Seq<char>, name: Seq<char>, value: Seq<char>) -> Option<Seq<char>>;

/// The scheme of the URL written in `url`; none when the text is no URL.
pub uninterp spec fn url_scheme_of(url: Seq<char>) -> Option<Seq<char>>;

/// The host of the URL written in `url`; none when the text is no URL or the URL has no host.
pub uninterp spec fn url_host_of(url: Seq<char>) -> Option<Seq<char>>;

/// The port that the URL written in `url` names; none when the text is no URL or names no port.
pub uninterp spec fn url_port_of(url: Seq<char>) -> Option<u16>;

/// The text of the URL written in `url` with its host replaced by `host`; none when the text is
/// no URL or the URL does not take that host.
pub uninterp spec fn url_with_host(url: Seq<char>, host: Seq<char>) -> Option<Seq<char>>;

/// The text of the URL written in `url` with its port replaced by `port`; none when the text is
/// no URL or the URL cannot have a port.
pub uninterp spec fn url_with_port(url: Seq<char>, port: u16) -> Option<Seq<char>>;

/// The text of the URL written in `url` once each of `segments` is appended to its path, in order.
pub open spec fn url_with_segments(url: Seq<char>, segments: Seq<Seq<char>>) -> Option<Seq<char>>
    decreases segments.len(),
{
    if segments.len() == 0 {
        Some(url)
    } else {
        match url_with_segments(url, segments.drop_last()) {
            Some(u) => url_with_segment(u, segments.last()),
            None => None,
        }
    }
}

/// The text of the URL written in `url` once each of `pairs` is appended to its query, in order.
pub open spec fn url_with_query_pairs(url: Seq<char>, pairs: HeaderList) -> Option<Seq<char>>
    decreases pairs.len(),
{
    if pairs.len() == 0 {
        Some(url)
    } else {
        match url_with_query_pairs(url, pairs.drop_last()) {
            Some(u) => url_with_query_pair(u, pairs.last().0, pairs.last().1),
            None => None,
        }
    }
}

/// The text of the URL of a request to `base`: the path segments appended first, then the query
/// pairs.
pub open spec fn built_url(base: Seq<char>, segments: Seq<Seq<char>>, pairs: HeaderList) -> Option<Seq<char>> {
    match url_with_segments(base, segments) {
        Some(u) => url_with_query_pairs(u, pairs),
        None => None,
    }
}

/// Once a segment cannot be appended, the whole path cannot.
proof fn lemma_segments_fail(url: Seq<char>, segments: Seq<Seq<char>>, i: int)
    requires
        0 <= i <= segments.len(),
        url_with_segments(url, segments.take(i)) is None,
    ensures
        url_with_segments(url, segments) is None,
    decreases segments.len() - i,
{
    if i < segments.len() {
        assert(segments.take(i + 1).drop_last() =~= segments.take(i));
        lemma_segments_fail(url, segments, i + 1);
    } else {
        assert(segments.take(i) =~= segments);
    }
}

/// Once a pair cannot be appended, the whole query cannot.
proof fn lemma_query_pairs_fail(url: Seq<char>, pairs: HeaderList, i: int)
    requires
        0 <= i <= pairs.len(),
        url_with_query_pairs(url, pairs.take(i)) is None,
    ensures
        url_with_query_pairs(url, pairs) is None,
    decreases pairs.len() - i,
{
    if i < pairs.len() {
        assert(pairs.take(i + 1).drop_last() =~= pairs.take(i));
        lemma_query_pairs_fail(url, pairs, i + 1);
    } else {
        assert(pairs.take(i) =~= pairs);
    }
}

/// Appends a segment to the path of the URL written in `url`, and returns the URL's text.
///
/// Reads the text with `url::Url::parse` and calls `PathSegmentsMut::push` on
/// `url::Url::path_segments_mut`, which percent-encodes the segment; the text returned is the
/// URL's serialization. Text that is no URL, and a URL that cannot be a base, give none. The
/// result depends on the two texts alone, and is named.
#[verifier::external_body]
fn push_path_segment(url: &str, segment: &str) -> (res: Option<String>)
    ensures
        opt_view(res) == url_with_segment(url@, segment@),
{
    match url::Url::parse(url) {
        Ok(mut parsed) => {
            match parsed.path_segments_mut() {
                Ok(mut segments) => {
                    segments.push(segment);
                },
                Err(_) => {
                    return None;
                },
            }
            Some(parsed.into())
        },
        Err(_) => None,
    }
}

/// Appends a name and value to the query of the URL written in `url`, and returns the URL's text.
///
/// Reads the text with `url::Url::parse` and calls `url::form_urlencoded::Serializer::append_pair`
/// on `url::Url::query_pairs_mut`, which form-encodes both; the text returned is the URL's
/// serialization. Text that is no URL gives none. The result depends on the three texts alone,
/// and is named.
#[verifier::external_body]
fn append_query_pair(url: &str, name: &str, value: &str) -> (res: Option<String>)
    ensures
        opt_view(res) == url_with_query_pair(url@, name@, value@),
{
    match url::Url::parse(url) {
        Ok(mut parsed) => {
            parsed.query_pairs_mut().append_pair(name, value);
            Some(parsed.into())
        },
        Err(_) => None,
    }
}

/// Returns the scheme of the URL written in `url`.
///
/// Reads the text with `url::Url::parse` and calls `url::Url::scheme`; text that is no URL gives
/// none. The result depends on the text alone, and is named.
#[verifier::external_body]
fn url_scheme(url: &str) -> (res: Option<String>)
    ensures
        opt_view(res) == url_scheme_of(url@),
{
    match url::Url::parse(url) {
        Ok(parsed) => Some(parsed.scheme().to_string()),
        Err(_) => None,
    }
}

/// Returns the host of the URL written in `url`, if it has one.
///
/// Reads the text with `url::Url::parse` and calls `url::Url::host_str`; text that is no URL
/// gives none. The result depends on the text alone, and is named.
#[verifier::external_body]
fn url_host(url: &str) -> (res: Option<String>)
    ensures
        opt_view(res) == url_host_of(url@),
{
    match url::Url::parse(url) {
        Ok(parsed) => parsed.host_str().map(String::from),
        Err(_) => None,
    }
}

/// Returns the port that the URL written in `url` names, if any.
///
/// Reads the text with `url::Url::parse` and calls `url::Url::port`; text that is no URL gives
/// none. The result depends on the text alone, and is named.
#[verifier::external_body]
fn url_port(url: &str) -> (res: Option<u16>)
    ensures
        res == url_port_of(url@),
{
    match url::Url::parse(url) {
        Ok(parsed) => parsed.port(),
        Err(_) => None,
    }
}

/// Replaces the host of the URL written in `url`, and returns the URL's text.
///
/// Reads the text with `url::Url::parse` and calls `url::Url::set_host`, which fails on a URL that
/// cannot be a base and on text that is no host; either failure, or text that is no URL, gives
/// none. The result depends on the two texts alone, and is named.
#[verifier::external_body]
fn set_url_host(url: &str, host: &str) -> (res: Option<String>)
    ensures
        opt_view(res) == url_with_host(url@, host@),
{
    match url::Url::parse(url) {
        Ok(mut parsed) => match parsed.set_host(Some(host)) {
            Ok(()) => Some(parsed.into()),
            Err(_) => None,
        },
        Err(_) => None,
    }
}

/// Replaces the port of the URL written in `url`, and returns the URL's text.
///
/// Reads the text with `url::Url::parse` and calls `url::Url::set_port`, which fails on a URL that
/// cannot have a port; that, or text that is no URL, gives none. The result depends on the text
/// and the port alone, and is named.
#[verifier::external_body]
fn set_url_port(url: &str, port: u16) -> (res: Option<String>)
    ensures
        opt_view(res) == url_with_port(url@, port),
{
    match url::Url::parse(url) {
        Ok(mut parsed) => match parsed.set_port(Some(port)) {
            Ok(()) => Some(parsed.into()),
            Err(_) => None,
        },
        Err(_) => None,
    }
}

/// The text of the URL of a request to the URL written in `base`: `base` with the path segments
/// appended in order, then the query pairs appended in order; none when one of them cannot be
/// appended.
pub fn build_url(base: &str, segments: &Vec<String>, pairs: &Vec<(String, String)>) -> (res: Option<String>)
    ensures
        opt_view(res) == built_url(base@, views(segments@), pair_views(pairs@)),
{
    let mut url = base.to_string();
    let mut i: usize = 0;
    while i < segments.len()
        invariant
            i <= segments@.len(),
            url_with_segments(base@, views(segments@).take(i as int)) == Some(url@),
        decreases segments@.len() - i,
    {
        let next = push_path_segment(url.as_str(), segments[i].as_str());
        assert(views(segments@).take(i + 1).drop_last() =~= views(segments@).take(i as int));
        match next {
            Some(u) => {
                url = u;
            },
            None => {
                proof {
                    lemma_segments_fail(base@, views(segments@), i + 1);
                }
                return None;
            },
        }
        i = i + 1;
    }
    assert(views(segments@).take(segments@.len() as int) =~= views(segments@));
    let ghost path_text = url@;
    let mut j: usize = 0;
    while j < pairs.len()
        invariant
            j <= pairs@.len(),
            url_with_segments(base@, views(segments@)) == Some(path_text),
            url_with_query_pairs(path_text, pair_views(pairs@).take(j as int)) == Some(url@),
        decreases pairs@.len() - j,
    {
        let next = append_query_pair(url.as_str(), pairs[j].0.as_str(), pairs[j].1.as_str());
        assert(pair_views(pairs@).take(j + 1).drop_last() =~= pair_views(pairs@).take(j as int));
        match next {
            Some(u) => {
                url = u;
            },
            None => {
                proof {
                    lemma_query_pairs_fail(path_text, pair_views(pairs@), j + 1);
                }
                return None;
            },
        }
        j = j + 1;
    }
    assert(pair_views(pairs@).take(pairs@.len() as int) =~= pair_views(pairs@));
    Some(url)
}

/// The URL a request to the node at `node` goes to before its path and query are appended:
/// through a mesh proxy, the node's URL with the proxy's host and port, provided the node's URL
/// has a host and takes the proxy's; otherwise the node's URL.
pub open spec fn node_base(node: Seq<char>, proxy: Option<ProxyState>) -> Option<Seq<char>> {
    match proxy {
        Some(ProxyState::Mesh { host }) => match url_host_of(node) {
            Some(_) => match url_with_host(node, host@.host) {
                Some(u) => url_with_port(u, host@.port),
                None => None,
            },
            None => None,
        },
        _ => Some(node),
    }
}

/// The authority the `Host` header carries: through a mesh proxy, the node's host and the port
/// it names; otherwise none is sent and it is empty.
pub open spec fn node_authority(node: Seq<char>, proxy: Option<ProxyState>) -> Seq<char> {
    match proxy {
        Some(ProxyState::Mesh { .. }) => match url_host_of(node) {
            Some(h) => authority_text(h, url_port_of(node)),
            None => Seq::empty(),
        },
        _ => Seq::empty(),
    }
}

/// The text of the URL of a request with the path pattern `pattern` and the parameters `params`
/// to the node at `node`, through `proxy`.
pub open spec fn prepared_url(
    node: Seq<char>,
    proxy: Option<ProxyState>,
    pattern: Seq<char>,
    params: ParamList,
) -> Option<Seq<char>> {
    match node_base(node, proxy) {
        Some(base) => match expand_pattern(pattern, params) {
            Ok((path, rest)) => built_url(base, path, query_pairs(rest)),
            Err(_) => None,
        },
        None => None,
    }
}

/// A request ready to be sent to one node: the text of its URL, its headers, and what of the URL
/// the headers were computed from.
pub struct Prepared {
    pub url: String,
    pub headers: Vec<HeaderEntry>,
    pub is_http: bool,
    pub authority: String,
}

impl RequestBuilder {
    /// Prepares the request for the node whose URL is written in `node`: fills in its URL and
    /// computes its headers. Through a mesh proxy, the URL's host and port become the proxy's, and
    /// the `Host` header keeps the node's authority. Host and port are replaced before the path
    /// segments and query pairs are appended; neither step reads what the other writes.
    ///
    /// The request is sent in the trace context `trace`. The pattern's placeholders must all be
    /// filled.
    pub fn prepare(
        &self,
        node: &str,
        proxy: &Option<ProxyState>,
        trace: &TraceContext,
        body: &Option<BodyInfo>,
    ) -> (res: Result<Prepared, Error>)
        requires
            expand_pattern(self@.pattern, self@.params) is Ok,
        ensures
            match prepared_url(node@, *proxy, self@.pattern, self@.params) {
                Some(u) => res matches Ok(p) && {
                    &&& p.url@ == u
                    &&& p.is_http == (url_scheme_of(node@) == Some("http"@))
                    &&& p.authority@ == node_authority(node@, *proxy)
                    &&& entries_view(p.headers@) == sent_headers(
                        self@.headers,
                        *trace,
                        *proxy,
                        p.is_http,
                        p.authority@,
                        match body {
                            Some(b) => Some((b.content_length, b.content_type@)),
                            None => None,
                        },
                    )
                },
                None => res matches Err(e) && if node_base(node@, *proxy) is None {
                    internal_safe_error(e@, "mesh proxy could not be addressed"@)
                } else {
                    internal_safe_error(e@, "request URL could not be built"@)
                },
            },
    {
        let (segments, pairs) = match self.target() {
            Ok(t) => t,
            Err(_) => {
                assert(false);
                return Err(Error::internal_safe("unreachable"));
            },
        };
        let is_http = match url_scheme(node) {
            Some(scheme) => str_eq(scheme.as_str(), "http"),
            None => false,
        };
        let (base, authority_text) = match proxy {
            Some(ProxyState::Mesh { host }) => {
                let node_authority = match url_host(node) {
                    Some(h) => authority(h.as_str(), url_port(node)),
                    None => {
                        return Err(Error::internal_safe("mesh proxy could not be addressed"));
                    },
                };
                let with_host = match set_url_host(node, host.host()) {
                    Some(u) => u,
                    None => {
                        return Err(Error::internal_safe("mesh proxy could not be addressed"));
                    },
                };
                match set_url_port(with_host.as_str(), host.port()) {
                    Some(u) => (u, node_authority),
                    None => {
                        return Err(Error::internal_safe("mesh proxy could not be addressed"));
                    },
                }
            },
            _ => (node.to_string(), String::new()),
        };
        let text = match build_url(base.as_str(), &segments, &pairs) {
            Some(t) => t,
            None => {
                return Err(Error::internal_safe("request URL could not be built"));
            },
        };
        let headers = send_headers(&self.headers, trace, proxy, is_http, authority_text.as_str(), body);
        Ok(Prepared { url: text, headers, is_http, authority: authority_text })
    }
}

/// Dropping the headers called `name` leaves none of that name, and only headers that were there.
proof fn lemma_drop_header(h: HeaderList, name: Seq<char>)
    ensures
        forall|e: (Seq<char>, Seq<char>)| #[trigger] drop_header(h, name).contains(e) ==> e.0 != name && h.contains(e),
    decreases h.len(),
{
    if h.len() > 0 {
        let t = h.drop_last();
        lemma_drop_header(t, name);
        assert forall|e: (Seq<char>, Seq<char>)| #[trigger] drop_header(h, name).contains(e) implies e.0 != name
            && h.contains(e) by {
            if drop_header(t, name).contains(e) {
                let j = choose|j: int| 0 <= j < t.len() && t[j] == e;
                assert(h[j] == e);
            } else {
                assert(e == h.last());
                assert(h[h.len() - 1] == e);
            }
        }
    }
}

proof fn lemma_set_header(h: HeaderList, name: Seq<char>, value: Seq<char>)
    ensures
        forall|e: (Seq<char>, Seq<char>)| #[trigger] set_header(h, name, value).contains(e) ==> e == (
            name,
            value,
        ) || (e.0 != name && h.contains(e)),
{
    lemma_drop_header(h, name);
    assert forall|e: (Seq<char>, Seq<char>)| #[trigger] set_header(h, name, value).contains(e) implies e == (
        name,
        value,
    ) || (e.0 != name && h.contains(e)) by {
        let s = set_header(h, name, value);
        let j = choose|j: int| 0 <= j < s.len() && s[j] == e;
        if j < s.len() - 1 {
            assert(drop_header(h, name)[j] == e);
            assert(drop_header(h, name).contains(e));
        }
    }
}

/// A header that is there under another name than `name` stays when those called `name` are
/// dropped.
proof fn lemma_drop_header_keeps(h: HeaderList, name: Seq<char>, e: (Seq<char>, Seq<char>))
    requires
        h.contains(e),
        e.0 != name,
    ensures
        drop_header(h, name).contains(e),
    decreases h.len(),
{
    let t = h.drop_last();
    if h.last() == e {
        let d = drop_header(h, name);
        assert(d == drop_header(t, name).push(e));
        assert(d[d.len() - 1] == e);
    } else {
        let j = choose|j: int| 0 <= j < h.len() && h[j] == e;
        assert(t[j] == e);
        lemma_drop_header_keeps(t, name, e);
        let d = drop_header(t, name);
        let k = choose|k: int| 0 <= k < d.len() && d[k] == e;
        assert(drop_header(h, name)[k] == e);
    }
}

/// A header that is there under another name than `name` stays when `name` is set.
proof fn lemma_set_header_keeps(h: HeaderList, name: Seq<char>, value: Seq<char>, e: (Seq<char>, Seq<char>))
    requires
        h.contains(e),
        e.0 != name,
    ensures
        set_header(h, name, value).contains(e),
{
    lemma_drop_header_keeps(h, name, e);
    let d = drop_header(h, name);
    let k = choose|k: int| 0 <= k < d.len() && d[k] == e;
    assert(set_header(h, name, value)[k] == e);
}

/// A header that is set is there.
proof fn lemma_set_header_has(h: HeaderList, name: Seq<char>, value: Seq<char>)
    ensures
        set_header(h, name, value).contains((name, value)),
{
    let s = set_header(h, name, value);
    assert(s[s.len() - 1] == (name, value));
}

/// Setting a header leaves it with the value set and no other, and keeps every header of another
/// name; dropping a header removes every header of that name and keeps every other.
pub proof fn lemma_header_updates(h: HeaderList, name: Seq<char>, value: Seq<char>, e: (Seq<char>, Seq<char>))
    ensures
        set_header(h, name, value).contains((name, value)),
        set_header(h, name, value).contains(e) && e.0 == name ==> e.1 == value,
        e.0 != name ==> (set_header(h, name, value).contains(e) <==> h.contains(e)),
        e.0 == name ==> !drop_header(h, name).contains(e),
        e.0 != name ==> (drop_header(h, name).contains(e) <==> h.contains(e)),
{
    lemma_set_header_has(h, name, value);
    lemma_set_header(h, name, value);
    lemma_drop_header(h, name);
    if e.0 != name && h.contains(e) {
        lemma_set_header_keeps(h, name, value, e);
        lemma_drop_header_keeps(h, name, e);
    }
}

/// Whether a header carries the trace context: one of the B3 headers.
pub open spec fn is_trace_header(name: Seq<char>) -> bool {
    ||| name == "x-b3-flags"@
    ||| name == "x-b3-sampled"@
    ||| name == "x-b3-traceid"@
    ||| name == "x-b3-parentspanid"@
    ||| name == "x-b3-spanid"@
}

/// Whether trace header `e` carries what the trace context `t` propagates.
pub open spec fn trace_header_ok(e: (Seq<char>, Seq<char>), t: TraceContext) -> bool {
    &&& e.0 == "x-b3-flags"@ ==> t.debug && e.1 == "1"@
    &&& e.0 == "x-b3-sampled"@ ==> !t.debug && ((t.sampled == Some(true) && e.1 == "1"@) || (
    t.sampled == Some(false) && e.1 == "0"@))
    &&& e.0 == "x-b3-traceid"@ ==> e.1 == t.trace_id@
    &&& e.0 == "x-b3-parentspanid"@ ==> (t.parent_id matches Some(p) && e.1 == p@)
    &&& e.0 == "x-b3-spanid"@ ==> e.1 == t.span_id@
}

/// The names of the headers the client sets are all different.
proof fn lemma_header_names()
    ensures
        "x-b3-flags"@ != "x-b3-sampled"@,
        "x-b3-flags"@ != "x-b3-traceid"@,
        "x-b3-flags"@ != "x-b3-parentspanid"@,
        "x-b3-flags"@ != "x-b3-spanid"@,
        "x-b3-sampled"@ != "x-b3-traceid"@,
        "x-b3-sampled"@ != "x-b3-parentspanid"@,
        "x-b3-sampled"@ != "x-b3-spanid"@,
        "x-b3-traceid"@ != "x-b3-parentspanid"@,
        "x-b3-traceid"@ != "x-b3-spanid"@,
        "x-b3-parentspanid"@ != "x-b3-spanid"@,
        !is_trace_header("connection"@),
        !is_trace_header("host"@),
        !is_trace_header("proxy-authorization"@),
        !is_trace_header("content-length"@),
        !is_trace_header("content-type"@),
        "connection"@ != "host"@,
        "connection"@ != "proxy-authorization"@,
        "connection"@ != "content-length"@,
        "connection"@ != "content-type"@,
        "content-length"@ != "content-type"@,
        "host"@ != "proxy-authorization"@,
        "host"@ != "content-length"@,
        "host"@ != "content-type"@,
        "proxy-authorization"@ != "content-length"@,
        "proxy-authorization"@ != "content-type"@,
{
    reveal_strlit("x-b3-flags");
    reveal_strlit("x-b3-sampled");
    reveal_strlit("x-b3-traceid");
    reveal_strlit("x-b3-parentspanid");
    reveal_strlit("x-b3-spanid");
    reveal_strlit("connection");
    reveal_strlit("host");
    reveal_strlit("proxy-authorization");
    reveal_strlit("content-length");
    reveal_strlit("content-type");
    assert("x-b3-flags"@.len() == 10);
    assert("x-b3-sampled"@.len() == 12 && "x-b3-sampled"@[5] == 's');
    assert("x-b3-traceid"@.len() == 12 && "x-b3-traceid"@[5] == 't' && "x-b3-traceid"@[0] == 'x');
    assert("x-b3-parentspanid"@.len() == 17);
    assert("x-b3-spanid"@.len() == 11);
    assert("x-b3-flags"@[0] == 'x' && "x-b3-sampled"@[0] == 'x');
    assert("connection"@.len() == 10 && "connection"@[0] == 'c');
    assert("host"@.len() == 4);
    assert("proxy-authorization"@.len() == 19);
    assert("content-length"@.len() == 14);
    assert("content-type"@.len() == 12 && "content-type"@[0] == 'c');
}

/// Propagating a trace context leaves each B3 header as the context gives it, the trace ID and
/// the span ID among them, and otherwise only headers that were there.
proof fn lemma_traced(h: HeaderList, t: TraceContext)
    ensures
        forall|e: (Seq<char>, Seq<char>)| #[trigger] traced(h, t).contains(e) ==> if is_trace_header(e.0) {
            trace_header_ok(e, t)
        } else {
            h.contains(e)
        },
        traced(h, t).contains(("x-b3-traceid"@, t.trace_id@)),
        traced(h, t).contains(("x-b3-spanid"@, t.span_id@)),
{
    lemma_header_names();
    let s = sampling_headers(h, t.sampled, t.debug);
    if t.debug {
        lemma_set_header(h, "x-b3-flags"@, "1"@);
        lemma_drop_header(set_header(h, "x-b3-flags"@, "1"@), "x-b3-sampled"@);
    } else {
        let d = drop_header(h, "x-b3-flags"@);
        lemma_drop_header(h, "x-b3-flags"@);
        match t.sampled {
            Some(true) => lemma_set_header(d, "x-b3-sampled"@, "1"@),
            Some(false) => lemma_set_header(d, "x-b3-sampled"@, "0"@),
            None => lemma_drop_header(d, "x-b3-sampled"@),
        }
    }
    let h2 = set_header(s, "x-b3-traceid"@, t.trace_id@);
    lemma_set_header(s, "x-b3-traceid"@, t.trace_id@);
    let h3 = match t.parent_id {
        Some(p) => set_header(h2, "x-b3-parentspanid"@, p@),
        None => drop_header(h2, "x-b3-parentspanid"@),
    };
    lemma_set_header_has(s, "x-b3-traceid"@, t.trace_id@);
    match t.parent_id {
        Some(p) => {
            lemma_set_header(h2, "x-b3-parentspanid"@, p@);
            lemma_set_header_keeps(h2, "x-b3-parentspanid"@, p@, ("x-b3-traceid"@, t.trace_id@));
        },
        None => {
            lemma_drop_header(h2, "x-b3-parentspanid"@);
            lemma_drop_header_keeps(h2, "x-b3-parentspanid"@, ("x-b3-traceid"@, t.trace_id@));
        },
    }
    lemma_set_header(h3, "x-b3-spanid"@, t.span_id@);
    lemma_set_header_keeps(h3, "x-b3-spanid"@, t.span_id@, ("x-b3-traceid"@, t.trace_id@));
    lemma_set_header_has(h3, "x-b3-spanid"@, t.span_id@);
    assert(traced(h, t) == set_header(h3, "x-b3-spanid"@, t.span_id@));
    assert forall|e: (Seq<char>, Seq<char>)| #[trigger] traced(h, t).contains(e) implies if is_trace_header(
        e.0,
    ) {
        trace_header_ok(e, t)
    } else {
        h.contains(e)
    } by {
        if e.0 != "x-b3-spanid"@ {
            assert(h3.contains(e));
            if e.0 != "x-b3-parentspanid"@ {
                assert(h2.contains(e));
                if e.0 != "x-b3-traceid"@ {
                    assert(s.contains(e));
                    if t.debug {
                        let f = set_header(h, "x-b3-flags"@, "1"@);
                        assert(s == drop_header(f, "x-b3-sampled"@));
                        assert(drop_header(f, "x-b3-sampled"@).contains(e));
                        assert(f.contains(e));
                    } else {
                        let d = drop_header(h, "x-b3-flags"@);
                        match t.sampled {
                            Some(true) => {
                                assert(s == set_header(d, "x-b3-sampled"@, "1"@));
                                assert(set_header(d, "x-b3-sampled"@, "1"@).contains(e));
                            },
                            Some(false) => {
                                assert(s == set_header(d, "x-b3-sampled"@, "0"@));
                                assert(set_header(d, "x-b3-sampled"@, "0"@).contains(e));
                            },
                            None => {
                                assert(s == drop_header(d, "x-b3-sampled"@));
                                assert(drop_header(d, "x-b3-sampled"@).contains(e));
                            },
                        }
                        if e.0 != "x-b3-sampled"@ {
                            assert(d.contains(e));
                        }
                    }
                }
            }
        }
    }
}

/// Whether header `e` may be among those a request is sent with, as far as the client controls
/// it: never `Connection`; each B3 header as the trace context `trace` gives it; `Host` only
/// through a mesh proxy, as the node's authority; `Proxy-Authorization` only on a plain HTTP
/// request through an HTTP proxy, as its credentials; `Content-Length` and `Content-Type` only
/// for a body, as its length and type.
pub open spec fn controlled_ok(
    e: (Seq<char>, Seq<char>),
    trace: TraceContext,
    proxy: Option<ProxyState>,
    is_http: bool,
    authority: Seq<char>,
    body: Option<(Option<u64>, Seq<char>)>,
) -> bool {
    &&& e.0 != "connection"@
    &&& is_trace_header(e.0) ==> trace_header_ok(e, trace)
    &&& e.0 == "host"@ ==> (proxy matches Some(ProxyState::Mesh { .. }) && e.1 == authority)
    &&& e.0 == "proxy-authorization"@ ==> (proxy matches Some(
        ProxyState::Http { authorization: Some(v) },
    ) && is_http && e.1 == v@)
    &&& e.0 == "content-length"@ ==> (body matches Some((Some(n), _)) && e.1 == decimal(n as nat))
    &&& e.0 == "content-type"@ ==> (body matches Some((_, t)) && e.1 == t)
}

/// The headers the client controls never carry a value of the caller's: every header a request
/// is sent with is as `controlled_ok` allows, and every request carries the trace ID and the span
/// ID of its trace context.
pub proof fn lemma_controlled_headers(
    user: HeaderList,
    trace: TraceContext,
    proxy: Option<ProxyState>,
    is_http: bool,
    authority: Seq<char>,
    body: Option<(Option<u64>, Seq<char>)>,
)
    ensures
        forall|e: (Seq<char>, Seq<char>)|
            #[trigger] sent_headers(user, trace, proxy, is_http, authority, body).contains(e)
                ==> controlled_ok(e, trace, proxy, is_http, authority, body),
        sent_headers(user, trace, proxy, is_http, authority, body).contains(
            ("x-b3-traceid"@, trace.trace_id@),
        ),
        sent_headers(user, trace, proxy, is_http, authority, body).contains(
            ("x-b3-spanid"@, trace.span_id@),
        ),
{
    lemma_header_names();
    let h0 = user;
    let h1 = drop_header(h0, "connection"@);
    let h2 = drop_header(h1, "host"@);
    let h3 = drop_header(h2, "proxy-authorization"@);
    let h4 = drop_header(h3, "content-length"@);
    let h5 = drop_header(h4, "content-type"@);
    lemma_drop_header(h0, "connection"@);
    lemma_drop_header(h1, "host"@);
    lemma_drop_header(h2, "proxy-authorization"@);
    lemma_drop_header(h3, "content-length"@);
    lemma_drop_header(h4, "content-type"@);
    assert(controlled(user) == h5);
    let tr = traced(h5, trace);
    lemma_traced(h5, trace);
    let tid = ("x-b3-traceid"@, trace.trace_id@);
    let sid = ("x-b3-spanid"@, trace.span_id@);
    assert forall|e: (Seq<char>, Seq<char>)| #[trigger] tr.contains(e) implies controlled_ok(
        e,
        trace,
        proxy,
        is_http,
        authority,
        body,
    ) && e.0 != "host"@ && e.0 != "proxy-authorization"@ && e.0 != "content-length"@ && e.0
        != "content-type"@ by {
        if !is_trace_header(e.0) {
            assert(h5.contains(e));
            assert(h4.contains(e));
            assert(h3.contains(e));
            assert(h2.contains(e));
            assert(h1.contains(e));
        }
    }
    let p = match proxy {
        Some(ProxyState::Http { authorization }) => match authorization {
            Some(v) => if is_http {
                set_header(tr, "proxy-authorization"@, v@)
            } else {
                tr
            },
            None => tr,
        },
        Some(ProxyState::Mesh { .. }) => set_header(tr, "host"@, authority),
        None => tr,
    };
    match proxy {
        Some(ProxyState::Http { authorization }) => match authorization {
            Some(v) => {
                if is_http {
                    lemma_set_header(tr, "proxy-authorization"@, v@);
                    lemma_set_header_keeps(tr, "proxy-authorization"@, v@, tid);
                    lemma_set_header_keeps(tr, "proxy-authorization"@, v@, sid);
                }
            },
            None => {},
        },
        Some(ProxyState::Mesh { .. }) => {
            lemma_set_header(tr, "host"@, authority);
            lemma_set_header_keeps(tr, "host"@, authority, tid);
            lemma_set_header_keeps(tr, "host"@, authority, sid);
        },
        None => {},
    }
    assert(p.contains(tid) && p.contains(sid));
    assert forall|e: (Seq<char>, Seq<char>)| #[trigger] p.contains(e) implies controlled_ok(
        e,
        trace,
        proxy,
        is_http,
        authority,
        body,
    ) && e.0 != "content-length"@ && e.0 != "content-type"@ by {
        match proxy {
            Some(ProxyState::Http { authorization }) => match authorization {
                Some(v) => {
                    if is_http {
                        if e != ("proxy-authorization"@, v@) {
                            assert(tr.contains(e));
                        }
                    } else {
                        assert(tr.contains(e));
                    }
                },
                None => {
                    assert(tr.contains(e));
                },
            },
            Some(ProxyState::Mesh { .. }) => {
                if e != ("host"@, authority) {
                    assert(tr.contains(e));
                }
            },
            None => {
                assert(tr.contains(e));
            },
        }
    }
    match body {
        Some((len, t)) => {
            let q = match len {
                Some(n) => set_header(p, "content-length"@, decimal(n as nat)),
                None => p,
            };
            match len {
                Some(n) => {
                    lemma_set_header(p, "content-length"@, decimal(n as nat));
                    lemma_set_header_keeps(p, "content-length"@, decimal(n as nat), tid);
                    lemma_set_header_keeps(p, "content-length"@, decimal(n as nat), sid);
                },
                None => {},
            }
            assert forall|e: (Seq<char>, Seq<char>)| #[trigger] q.contains(e) implies controlled_ok(
                e,
                trace,
                proxy,
                is_http,
                authority,
                body,
            ) && e.0 != "content-type"@ by {
                match len {
                    Some(n) => {
                        if e != ("content-length"@, decimal(n as nat)) {
                            assert(p.contains(e));
                        }
                    },
                    None => {
                        assert(p.contains(e));
                    },
                }
            }
            lemma_set_header(q, "content-type"@, t);
            lemma_set_header_keeps(q, "content-type"@, t, tid);
            lemma_set_header_keeps(q, "content-type"@, t, sid);
            assert forall|e: (Seq<char>, Seq<char>)| #[trigger] set_header(q, "content-type"@, t).contains(
                e,
            ) implies controlled_ok(e, trace, proxy, is_http, authority, body) by {
                if e != ("content-type"@, t) {
                    assert(q.contains(e));
                }
            }
        },
        None => {},
    }
}

} // verus!
