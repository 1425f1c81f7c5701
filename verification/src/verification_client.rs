use vstd::prelude::*;
use crate::cases::{PositiveAndNegativeTestCases, TestCase};
use crate::conjure_value::{decode, decode_value, same, same_values, ConjureValue, ConjureView, JsonValue, PrimitiveType, ResolvedType, TypeView};
use crate::retry::internal_safe_error;
use crate::config::{ServiceConfig, ServiceConfigView, ServiceDiscoveryConfig};
use crate::error::{Error, ErrorView};
use crate::outgoing::{default_headers, entries_view, insert_header, set_header, Method, RequestBuilder, RequestBuilderView};
use crate::request::name_index;
use crate::node::{trimmed_urls, url_serialization, url_trimmed};
use crate::service_client::{settings_match, Client};
use crate::text::str_eq;
use crate::user_agent::{valid_agent_name, valid_agent_version, version_state, Agent, UserAgent};
use crate::verification_error::{assert_content_type, get_test_case_at_index, lemma_verification_error_well_named, VerificationError};

verus! {

broadcast use vstd::string::group_string_axioms;

/// The test cases of each endpoint, by endpoint name.
pub struct ServerTestCases {
    pub auto_deserialize: Vec<(String, PositiveAndNegativeTestCases)>,
}

/// The position of the first entry for `endpoint`, if any.
pub open spec fn endpoint_index(cases: Seq<(String, PositiveAndNegativeTestCases)>, endpoint: Seq<char>) -> Option<int> {
    if exists|i: int| 0 <= i < cases.len() && cases[i].0@ == endpoint {
        Some(choose|i: int| 0 <= i < cases.len() && cases[i].0@ == endpoint && forall|j: int| 0 <= j < i ==> cases[j].0@ != endpoint)
    } else {
        None
    }
}

/// Looks up the test cases of `endpoint`; a missing endpoint is an `InvalidEndpointParameter`
/// error with the given safe cause.
fn lookup<'a>(cases: &'a ServerTestCases, endpoint: &str, cause: &str) -> (res: Result<&'a PositiveAndNegativeTestCases, Error>)
    ensures
        match endpoint_index(cases.auto_deserialize@, endpoint@) {
            Some(i) => 0 <= i < cases.auto_deserialize@.len() && (res matches Ok(c) && *c == cases.auto_deserialize@[i].1),
            None => res matches Err(e) && e@.cause == cause@ && e@.cause_safe && exists|name: String| name@ == endpoint@ && e@ == e@.with_type(VerificationError::InvalidEndpointParameter { endpoint_name: name }),
        },
{
    let entries = &cases.auto_deserialize;
    let mut i: usize = 0;
    while i < entries.len()
        invariant
            i <= entries@.len(),
            entries@ == cases.auto_deserialize@,
            forall|j: int| 0 <= j < i ==> entries@[j].0@ != endpoint@,
        decreases entries@.len() - i,
    {
        if str_eq(entries[i].0.as_str(), endpoint) {
            assert(0 <= i < entries@.len() && entries@[i as int].0@ == endpoint@ && forall|j: int| 0 <= j < i ==> entries@[j].0@ != endpoint@);
            let ghost k = choose|k: int| 0 <= k < entries@.len() && entries@[k].0@ == endpoint@ && forall|j: int| 0 <= j < k ==> entries@[j].0@ != endpoint@;
            assert(k == i) by {
                if k < i {
                    assert(entries@[k].0@ != endpoint@);
                } else if k > i {
                    assert(entries@[i as int].0@ != endpoint@);
                }
            }
            return Ok(&entries[i].1);
        }
        i = i + 1;
    }
    let name = endpoint.to_string();
    let kind = VerificationError::InvalidEndpointParameter { endpoint_name: name };
    proof {
        lemma_verification_error_well_named(kind);
    }
    let e = Error::new_safe(cause, kind);
    Err(e)
}

/// Finds the test cases of the endpoint a test run asks for; a missing endpoint is an
/// `InvalidEndpointParameter` error.
pub fn find_test_cases<'a>(cases: &'a ServerTestCases, endpoint: &str) -> (res: Result<&'a PositiveAndNegativeTestCases, Error>)
    ensures
        match endpoint_index(cases.auto_deserialize@, endpoint@) {
            Some(i) => 0 <= i < cases.auto_deserialize@.len() && (res matches Ok(c) && *c == cases.auto_deserialize@[i].1),
            None => res matches Err(e) && e@.cause == "Unable to find corresponding test case"@ && e@.cause_safe && exists|name: String| name@ == endpoint@ && e@ == e@.with_type(VerificationError::InvalidEndpointParameter { endpoint_name: name }),
        },
{
    lookup(cases, endpoint, "Unable to find corresponding test case")
}

/// Looks up the cases of an endpoint; a missing endpoint is an `InvalidEndpointParameter` error.
pub fn get_endpoint<'a>(cases: &'a ServerTestCases, endpoint: &str) -> (res: Result<&'a PositiveAndNegativeTestCases, Error>)
    ensures
        match endpoint_index(cases.auto_deserialize@, endpoint@) {
            Some(i) => 0 <= i < cases.auto_deserialize@.len() && (res matches Ok(c) && *c == cases.auto_deserialize@[i].1),
            None => res matches Err(e) && e@.cause == "No such endpoint"@ && e@.cause_safe && exists|name: String| name@ == endpoint@ && e@ == e@.with_type(VerificationError::InvalidEndpointParameter { endpoint_name: name }),
        },
{
    lookup(cases, endpoint, "No such endpoint")
}

/// Whether `url::Url::parse` accepts the text `text` as a URL.
pub uninterp spec fn url_parses(text: Seq<char>) -> bool;

/// The serialization of the URL that `url::Url::parse` reads from the text `text`.
pub uninterp spec fn url_parsed(text: Seq<char>) -> Seq<char>;

/// Parses a URL.
///
/// Calls `url::Url::parse`, whose outcome depends on the text alone: whether it succeeds is named
/// `url_parses`, and the serialization of the URL it reads is named `url_parsed`. On failure it
/// returns the parser's message.
#[verifier::external_body]
fn parse_url(text: &str) -> (res: Result<url::Url, String>)
    ensures
        res is Ok <==> url_parses(text@),
        res matches Ok(u) ==> url_serialization(u) == url_parsed(text@),
{
    url::Url::parse(text).map_err(|e| e.to_string())
}

/// `e` is the error made for a base URL `url` that does not parse.
pub open spec fn url_parse_failure(e: ErrorView, url: Seq<char>) -> bool {
    &&& e.cause_safe
    &&& exists|name: String| name@ == url && e == e.with_type(VerificationError::UrlParseFailure { url: name })
}

/// The name under which the server under test is configured.
pub open spec fn service_under_test() -> Seq<char> {
    "serviceUnderTest"@
}

/// Creates a client of the server under test at `base_url`, which never retries so that a
/// failure is reported as it happened: its one node is the URL parsed from `base_url`, without a
/// trailing empty path segment. A URL that does not parse is a `UrlParseFailure` error.
pub fn construct_client(base_url: &str) -> (res: Result<Client, Error>)
    ensures
        match res {
            Ok(c) => {
                &&& c.spec_service() == service_under_test()
                &&& c.settings().max_num_retries == 0
                &&& c.settings().nodes.nodes().len() == 1
                &&& url_serialization(c.settings().nodes.nodes()[0]) == url_trimmed(url_parsed(base_url@))
                &&& c.settings().proxy is None
                &&& url_parses(base_url@)
            },
            Err(e) => !url_parses(base_url@) && url_parse_failure(e@, base_url@),
        },
{
    let url = match parse_url(base_url) {
        Ok(u) => u,
        Err(cause) => {
            let kind = VerificationError::UrlParseFailure { url: base_url.to_string() };
            proof {
                lemma_verification_error_well_named(kind);
            }
            return Err(Error::new_safe(cause.as_str(), kind));
        },
    };
    proof {
        reveal_strlit("conjure-verification-client");
        reveal_strlit("0.0.0");
        assert(valid_agent_name("conjure-verification-client"@)) by {
            assert("conjure-verification-client"@[0] == 'c');
        }
        assert(valid_agent_version("0.0.0"@)) by {
            assert("0.0.0"@ =~= seq!['0', '.', '0', '.', '0']);
            reveal_with_fuel(version_state, 6);
        }
    }
    let user_agent = UserAgent::new(Agent::new("conjure-verification-client", "0.0.0"));
    let mut uris: Vec<url::Url> = Vec::new();
    uris.push(url);
    let mut service = ServiceConfig::builder();
    service.max_num_retries(0);
    service.uris(uris);
    let mut discovery = ServiceDiscoveryConfig::builder();
    discovery.service("serviceUnderTest", service.build());
    let config = discovery.build();
    proof {
        reveal_strlit("serviceUnderTest");
    }
    assert(config@.contains_key(service_under_test()));
    let ghost uris = config@[service_under_test()].uris;
    assert(uris =~= seq![url]);
    match Client::new_static("serviceUnderTest", user_agent, &config) {
        Ok(c) => {
            proof {
                let nodes = c.settings().nodes.nodes();
                let t = choose|t: Seq<url::Url>| trimmed_urls(t, uris) && #[trigger] t.to_multiset() == nodes.to_multiset();
                t.to_multiset_ensures();
                nodes.to_multiset_ensures();
                assert(nodes.contains(nodes[0]));
                assert(nodes.to_multiset().count(nodes[0]) > 0);
                assert(t.to_multiset().count(nodes[0]) > 0);
                assert(t.contains(nodes[0]));
                assert(t[0] == nodes[0]);
            }
            Ok(c)
        },
        Err(_) => {
            assert(false);
            Err(Error::internal_safe("unreachable"))
        },
    }
}

/// The request that sends a test case's body to `endpoint` of the server under test: a `POST` to
/// `/body/{endpoint}` that accepts any type, preferring JSON.
pub fn test_request(client: &Client, endpoint: &str) -> (res: RequestBuilder)
    ensures
        res@ == (RequestBuilderView {
            method: Method::Post,
            pattern: "/body/:endpoint"@,
            params: seq![("endpoint"@, seq![endpoint@])],
            headers: set_header(
                default_headers(client.spec_user_agent()),
                "accept"@,
                "*/*; q=0.5, application/json"@,
            ),
            idempotent: false,
        }),
{
    let mut builder = client.request(Method::Post, "/body/:endpoint");
    builder.param("endpoint", endpoint);
    let headers = builder.headers_mut();
    insert_header(headers, "accept", "*/*; q=0.5, application/json");
    builder
}

/// Checks the status of the server's answer to a body it must accept: any 2xx status; otherwise
/// an `UnexpectedResponseCode` error.
pub fn check_positive_status(status: u16) -> (res: Result<(), Error>)
    ensures
        200 <= status <= 299 ==> res is Ok,
        !(200 <= status <= 299) ==> (res matches Err(e) && e@.cause == "Wasn't successful"@ && e@.cause_safe
            && e@ == e@.with_type(VerificationError::UnexpectedResponseCode { code: status })),
{
    if 200 <= status && status <= 299 {
        Ok(())
    } else {
        let kind = VerificationError::UnexpectedResponseCode { code: status };
        proof {
            lemma_verification_error_well_named(kind);
        }
        Err(Error::new_safe("Wasn't successful", kind))
    }
}

/// Checks the status of the server's answer to a body it must reject: any 4xx status; otherwise
/// an `UnexpectedResponseCode` error.
pub fn check_negative_status(status: u16) -> (res: Result<(), Error>)
    ensures
        400 <= status <= 499 ==> res is Ok,
        !(400 <= status <= 499) ==> (res matches Err(e) && e@.cause
            == "Unexpected response, expected client error"@ && e@.cause_safe && e@ == e@.with_type(
            VerificationError::UnexpectedResponseCode { code: status },
        )),
{
    if 400 <= status && status <= 499 {
        Ok(())
    } else {
        let kind = VerificationError::UnexpectedResponseCode { code: status };
        proof {
            lemma_verification_error_well_named(kind);
        }
        Err(Error::new_safe("Unexpected response, expected client error", kind))
    }
}

/// The error reported when the server under test cannot be reached; `cause` says why.
pub fn server_connection_error(cause: &str) -> (res: Error)
    ensures
        res@.cause == "Failed to connect to server under test"@,
        res@.cause_safe,
        exists|c: String| c@ == cause@ && res@ == res@.with_type(VerificationError::ServerUnderTestConnectionError { cause: c }),
{
    let kind = VerificationError::ServerUnderTestConnectionError { cause: cause.to_string() };
    proof {
        lemma_verification_error_well_named(kind);
    }
    Error::new_safe("Failed to connect to server under test", kind)
}

/// What to do with the server's answer to a body it must accept.
pub enum PositiveCheck {
    /// Accept the answer: the expected value is an empty container and the server answered 204.
    AcceptEmpty,
    /// Read the body as JSON and compare it with the expected value.
    CompareJson,
    /// Read the body as raw bytes and compare them with the expected binary value.
    CompareBinary,
}

/// `e` is the error made for an answer whose content type, shown as `shown`, is not one expected.
pub open spec fn unexpected_content_type(e: ErrorView, shown: Seq<char>) -> bool {
    &&& e.cause == "Did not expect content type"@
    &&& e.cause_safe
    &&& exists|name: String| name@ == shown && e == e.with_type(VerificationError::UnexpectedContentType { content_type: name })
}

/// How a content type is shown in an error: as written, or `<empty>` where there is none.
pub open spec fn shown_content_type(content_type: Option<String>) -> Seq<char> {
    match content_type {
        Some(t) => t@,
        None => "<empty>"@,
    }
}

/// Decides how to check the server's answer, with `status` and content type `content_type`, to a
/// body it must accept. The status must be a success. An empty expected container may be
/// answered with 204 and nothing else. Otherwise the body must be JSON or a byte stream.
pub fn plan_positive_check(status: u16, content_type: &Option<String>, expected_is_empty: bool) -> (res: Result<PositiveCheck, Error>)
    ensures
        !(200 <= status <= 299) ==> (res matches Err(e) && e@.cause == "Wasn't successful"@ && e@
            == e@.with_type(VerificationError::UnexpectedResponseCode { code: status })),
        200 <= status <= 299 && expected_is_empty && status == 204 ==> res matches Ok(PositiveCheck::AcceptEmpty),
        200 <= status <= 299 && !(expected_is_empty && status == 204) ==> match content_type {
            Some(t) => if t@ == "application/json"@ {
                res matches Ok(PositiveCheck::CompareJson)
            } else if t@ == "application/octet-stream"@ {
                res matches Ok(PositiveCheck::CompareBinary)
            } else {
                res matches Err(e) && unexpected_content_type(e@, t@)
            },
            None => res matches Err(e) && unexpected_content_type(e@, "<empty>"@),
        },
{
    match check_positive_status(status) {
        Ok(()) => {},
        Err(e) => {
            return Err(e);
        },
    }
    if expected_is_empty && status == 204 {
        return Ok(PositiveCheck::AcceptEmpty);
    }
    let mut expected: Vec<Option<String>> = Vec::new();
    expected.push(Some("application/json".to_string()));
    expected.push(Some("application/octet-stream".to_string()));
    match assert_content_type(content_type, &expected) {
        Ok(()) => {},
        Err(e) => {
            proof {
                assert(crate::config::opt_view(expected@[0]) == Some("application/json"@));
                assert(crate::config::opt_view(expected@[1]) == Some("application/octet-stream"@));
            }
            return Err(e);
        },
    }
    match content_type {
        Some(t) => {
            if str_eq(t.as_str(), "application/json") {
                Ok(PositiveCheck::CompareJson)
            } else {
                proof {
                    let i = choose|i: int| 0 <= i < expected@.len() && crate::config::opt_view(expected@[i]) == crate::config::opt_view(*content_type);
                    assert(i == 0 || i == 1);
                }
                Ok(PositiveCheck::CompareBinary)
            }
        },
        None => {
            proof {
                let i = choose|i: int| 0 <= i < expected@.len() && crate::config::opt_view(expected@[i]) == crate::config::opt_view(*content_type);
                assert(i == 0 || i == 1);
                assert(false);
            }
            Err(Error::internal_safe("unreachable"))
        },
    }
}

/// `case` is the test case at `index` of `cases`, the positive cases counted first.
pub open spec fn case_at(case: TestCase, cases: PositiveAndNegativeTestCases, index: usize) -> bool {
    match case {
        TestCase::Positive(t) => index < cases.positive@.len() && t.0@ == cases.positive@[index as int]@,
        TestCase::Negative(t) => cases.positive@.len() <= index < cases.positive@.len()
            + cases.negative@.len() && t.0@ == cases.negative@[index - cases.positive@.len()]@,
    }
}

/// A test run that is ready to send: the test case, the client of the server under test, and the
/// request that carries the case's body.
pub struct TestRun {
    pub case: TestCase,
    pub client: Client,
    pub request: RequestBuilder,
}

/// Prepares the run of test case `index` of `endpoint` against the server at `base_url`: finds
/// the endpoint's cases and the case, and makes the client and the request. Each step fails as
/// it does on its own: an unknown endpoint, an index past the cases, a URL that does not parse.
pub fn prepare_test_run(cases: &ServerTestCases, endpoint: &str, index: usize, base_url: &str) -> (res: Result<TestRun, Error>)
    requires
        forall|i: int|
            0 <= i < cases.auto_deserialize@.len() ==> (#[trigger] cases.auto_deserialize@[i]).1.positive@.len()
                + cases.auto_deserialize@[i].1.negative@.len() <= usize::MAX,
    ensures
        match endpoint_index(cases.auto_deserialize@, endpoint@) {
            None => res matches Err(e) && e@.cause == "Unable to find corresponding test case"@
                && e@.cause_safe && exists|name: String| name@ == endpoint@ && e@ == e@.with_type(
                VerificationError::InvalidEndpointParameter { endpoint_name: name },
            ),
            Some(i) => {
                let c = cases.auto_deserialize@[i].1;
                let count = c.positive@.len() + c.negative@.len();
                if index >= count {
                    res matches Err(e) && e@.cause == "Index out of bounds"@ && e@.cause_safe && e@
                        == e@.with_type(VerificationError::IndexOutOfBounds { index, max_index: count as usize })
                } else if !url_parses(base_url@) {
                    res matches Err(e) && url_parse_failure(e@, base_url@)
                } else {
                    res matches Ok(run) && {
                        &&& case_at(run.case, c, index)
                        &&& run.client.spec_service() == service_under_test()
                        &&& run.client.settings().max_num_retries == 0
                        &&& run.client.settings().nodes.nodes().len() == 1
                        &&& url_serialization(run.client.settings().nodes.nodes()[0]) == url_trimmed(
                            url_parsed(base_url@),
                        )
                        &&& run.request@.pattern == "/body/:endpoint"@
                        &&& run.request@.params == seq![("endpoint"@, seq![endpoint@])]
                        &&& run.request@.method == Method::Post
                    }
                }
            },
        },
{
    let endpoint_cases = match find_test_cases(cases, endpoint) {
        Ok(c) => c,
        Err(e) => {
            return Err(e);
        },
    };
    proof {
        let i = endpoint_index(cases.auto_deserialize@, endpoint@)->0;
        assert(cases.auto_deserialize@[i].1 == *endpoint_cases);
    }
    let case = match get_test_case_at_index(endpoint_cases, index) {
        Ok(c) => c,
        Err(e) => {
            return Err(e);
        },
    };
    let client = match construct_client(base_url) {
        Ok(c) => c,
        Err(e) => {
            return Err(e);
        },
    };
    let request = test_request(&client, endpoint);
    Ok(TestRun { case, client, request })
}

/// The standard base64 encoding, with padding, of `bytes`.
pub uninterp spec fn base64_text(bytes: Seq<u8>) -> Seq<char>;

/// Encodes bytes as base64.
///
/// Calls `base64::Engine::encode` on `base64::engine::general_purpose::STANDARD`, the standard
/// alphabet with padding; the text depends on the bytes alone and is named. The call panics when
/// the length of the text would overflow a `usize`, which `requires` rules out.
#[verifier::external_body]
fn encode_base64(bytes: &[u8]) -> (res: String)
    requires
        bytes@.len() <= usize::MAX / 4,
    ensures
        res@ == base64_text(bytes@),
{
    base64::Engine::encode(&base64::engine::general_purpose::STANDARD, bytes)
}

/// Whether a value is an empty container, which a server may answer with `204 No Content`: an
/// empty optional, list, set or map.
pub open spec fn is_empty_value(c: ConjureView) -> bool {
    match c {
        ConjureView::Optional(None) => true,
        ConjureView::List(xs) => xs.len() == 0,
        ConjureView::SetOf(xs) => xs.len() == 0,
        ConjureView::MapOf(ps) => ps.len() == 0,
        _ => false,
    }
}

/// An empty optional, list, set or map is an empty container, and one that holds something is
/// not; no other value is one, an object without fields included.
pub proof fn lemma_empty_containers(
    x: ConjureView,
    xs: Seq<ConjureView>,
    ps: Seq<(ConjureView, ConjureView)>,
    i: int,
    s: Seq<char>,
)
    ensures
        is_empty_value(ConjureView::Optional(None)),
        !is_empty_value(ConjureView::Optional(Some(Box::new(x)))),
        is_empty_value(ConjureView::List(xs)) <==> xs.len() == 0,
        is_empty_value(ConjureView::SetOf(xs)) <==> xs.len() == 0,
        is_empty_value(ConjureView::MapOf(ps)) <==> ps.len() == 0,
        !is_empty_value(ConjureView::Object(xs)),
        !is_empty_value(ConjureView::Integer(i)),
        !is_empty_value(ConjureView::Text(s)),
        !is_empty_value(ConjureView::Enum(s)),
        !is_empty_value(ConjureView::Union(s, Box::new(x))),
{
}

/// Returns whether a value is an empty container.
pub fn is_empty_container(c: &ConjureValue) -> (res: bool)
    ensures
        res == is_empty_value(c@),
{
    match c {
        ConjureValue::Optional(o) => o.is_none(),
        ConjureValue::List(xs) => {
            assert(crate::conjure_value::values_view(xs@).len() == xs@.len());
            xs.len() == 0
        },
        ConjureValue::SetOf(xs) => {
            assert(crate::conjure_value::values_view(xs@).len() == xs@.len());
            xs.len() == 0
        },
        ConjureValue::MapOf(ps) => {
            assert(crate::conjure_value::pairs_view(ps@).len() == ps@.len());
            ps.len() == 0
        },
        _ => false,
    }
}

/// Why a server's answer to a body it must accept is not right.
pub enum PositiveFailure {
    /// The status or the content type is wrong, or the body does not read as a value of the
    /// endpoint's type; the error says which.
    Rejected(Error),
    /// The body reads as this value, which is not the one sent.
    Different(ConjureValue),
}

/// The value a byte-stream answer reads as: a binary value, written as its base64 text.
pub open spec fn binary_value(body: Seq<u8>) -> ConjureView {
    ConjureView::Text(base64_text(body))
}

/// What is said of an answer that does not read as a value of the endpoint's type.
pub open spec fn unparsable_cause() -> Seq<char> {
    "response body is not a value of the endpoint's type"@
}

/// `e` is the error made for an answer, written back out as `response_body`, that does not read
/// as a value of the endpoint's type.
pub open spec fn could_not_parse(e: ErrorView, response_body: Seq<char>) -> bool {
    &&& e.cause == unparsable_cause()
    &&& e.cause_safe
    &&& exists|body: String, cause: String|
        body@ == response_body && cause@ == unparsable_cause() && e == e.with_type(
            VerificationError::CouldNotParseServerResponse { response_body: body, cause },
        )
}

/// The error made for an answer, written back out as `response_body`, that does not read as a
/// value of the endpoint's type.
pub fn could_not_parse_error(response_body: &str) -> (res: Error)
    ensures
        could_not_parse(res@, response_body@),
{
    let cause = "response body is not a value of the endpoint's type";
    let kind = VerificationError::CouldNotParseServerResponse {
        response_body: response_body.to_string(),
        cause: cause.to_string(),
    };
    proof {
        lemma_verification_error_well_named(kind);
    }
    Error::new_safe(cause, kind)
}

/// Checks the server's answer to a body it must accept, of the endpoint's type `t`, whose value
/// is `expected`. The answer has `status`, the content type `content_type`, and the bytes `body`;
/// `parsed` is the body read as JSON, none where it is not JSON, and `response_text` is that
/// JSON written back out.
///
/// The status must be a success. An empty expected container may be answered with 204 and
/// nothing else. Otherwise a JSON body must read as a value of type `t` the same as `expected`,
/// and a byte stream is read as a binary value, which must be the same as `expected` for an
/// endpoint of the binary type.
pub fn check_positive_body(
    t: &ResolvedType,
    expected: &ConjureValue,
    status: u16,
    content_type: &Option<String>,
    body: &[u8],
    parsed: &Option<JsonValue>,
    response_text: &str,
) -> (res: Result<(), PositiveFailure>)
    requires
        body@.len() <= usize::MAX / 4,
    ensures
        !(200 <= status <= 299) ==> (res matches Err(PositiveFailure::Rejected(e)) && e@.cause
            == "Wasn't successful"@ && e@ == e@.with_type(VerificationError::UnexpectedResponseCode { code: status })),
        200 <= status <= 299 && is_empty_value(expected@) && status == 204 ==> res is Ok,
        200 <= status <= 299 && !(is_empty_value(expected@) && status == 204) ==> match content_type {
            Some(ct) => if ct@ == "application/json"@ {
                match parsed {
                    None => res matches Err(PositiveFailure::Rejected(e)) && internal_safe_error(e@, "response body is not JSON"@),
                    Some(j) => match decode(t@, j@) {
                        Err(_) => res matches Err(PositiveFailure::Rejected(e)) && could_not_parse(e@, response_text@),
                        Ok(c) => if same(c, expected@) {
                            res is Ok
                        } else {
                            res matches Err(PositiveFailure::Different(d)) && d@ == c
                        },
                    },
                }
            } else if ct@ == "application/octet-stream"@ {
                if t@ == TypeView::Primitive(PrimitiveType::Binary) && same(binary_value(body@), expected@) {
                    res is Ok
                } else {
                    res matches Err(PositiveFailure::Different(d)) && d@ == binary_value(body@)
                }
            } else {
                res matches Err(PositiveFailure::Rejected(e)) && unexpected_content_type(e@, ct@)
            },
            None => res matches Err(PositiveFailure::Rejected(e)) && unexpected_content_type(e@, "<empty>"@),
        },
{
    let plan = plan_positive_check(status, content_type, is_empty_container(expected));
    match plan {
        Err(e) => Err(PositiveFailure::Rejected(e)),
        Ok(PositiveCheck::AcceptEmpty) => Ok(()),
        Ok(PositiveCheck::CompareJson) => match parsed {
            None => Err(PositiveFailure::Rejected(Error::internal_safe("response body is not JSON"))),
            Some(j) => match decode_value(t, j) {
                Err(_) => Err(PositiveFailure::Rejected(could_not_parse_error(response_text))),
                Ok(c) => {
                    if same_values(&c, expected) {
                        Ok(())
                    } else {
                        Err(PositiveFailure::Different(c))
                    }
                },
            },
        },
        Ok(PositiveCheck::CompareBinary) => {
            let c = ConjureValue::Text(encode_base64(body));
            let is_binary = match t {
                ResolvedType::Primitive(PrimitiveType::Binary) => true,
                _ => false,
            };
            if is_binary && same_values(&c, expected) {
                Ok(())
            } else {
                Err(PositiveFailure::Different(c))
            }
        },
    }
}

/// The error reported when the server's answer does not hold the value sent: the test case as
/// written, and the expected value and the answer, each as written and as read (an answer that
/// does not read as the endpoint's type is `<undefined>`), and what went wrong.
pub fn confirmation_error(
    expected_body_raw: &str,
    expected_body_conjure: &str,
    response_body_raw: &str,
    response_body_conjure: Option<&str>,
    cause: &str,
) -> (res: Error)
    ensures
        res@.cause == "Body didn't match expected Conjure value"@,
        res@.cause_safe,
        exists|k: VerificationError|
            #![trigger res@.with_type(k)]
            res@ == res@.with_type(k) && k@ == (crate::verification_error::VerificationErrorView::ConfirmationFailure {
                expected_body_raw: expected_body_raw@,
                expected_body_conjure: expected_body_conjure@,
                response_body_raw: response_body_raw@,
                response_body_conjure: match response_body_conjure {
                    Some(r) => r@,
                    None => "<undefined>"@,
                },
                cause: cause@,
            }),
{
    let kind = VerificationError::confirmation_failure(
        expected_body_raw,
        expected_body_conjure,
        response_body_raw,
        response_body_conjure,
        cause,
    );
    proof {
        lemma_verification_error_well_named(kind);
    }
    Error::new_safe("Body didn't match expected Conjure value", kind)
}

} // verus!
