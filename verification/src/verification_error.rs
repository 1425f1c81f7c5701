use vstd::prelude::*;
use crate::error::{qualified, qualified_name, Code, Error, ErrorType, ErrorView, SerializableError, well_named};
use crate::cases::{
    AutoDeserializeNegativeTest, AutoDeserializePositiveTest, PositiveAndNegativeTestCases, TestCase,
};
use crate::params::Params;
use crate::text::{
    camel_from, decimal, digit_value, digit_char, is_upper_camel, lemma_parse_usize_decimal, parse_usize,
    push_decimal, spec_parse_usize, str_eq,
};

verus! {

broadcast use vstd::string::group_string_axioms;

/// The errors that the verification client reports.
pub enum VerificationError {
    /// No test cases exist for the endpoint.
    InvalidEndpointParameter { endpoint_name: String },
    /// A response had a body where none was expected.
    UnexpectedBody { body_size: usize },
    /// A response had a content type that was not expected.
    UnexpectedContentType { content_type: String },
    /// A response did not hold the expected value.
    ConfirmationFailure {
        expected_body_raw: String,
        expected_body_conjure: String,
        response_body_raw: String,
        response_body_conjure: String,
        cause: String,
    },
    /// A response did not read as a value of the endpoint's type.
    CouldNotParseServerResponse { response_body: String, cause: String },
    /// The server under test could not be reached.
    ServerUnderTestConnectionError { cause: String },
    /// A response had an unexpected status.
    UnexpectedResponseCode { code: u16 },
    /// A URL did not parse.
    UrlParseFailure { url: String },
    /// A test case index is out of range.
    IndexOutOfBounds { index: usize, max_index: usize },
    /// Talking to the server under test failed.
    ClientIo,
}

/// The content of a `VerificationError`.
pub enum VerificationErrorView {
    InvalidEndpointParameter { endpoint_name: Seq<char> },
    UnexpectedBody { body_size: usize },
    UnexpectedContentType { content_type: Seq<char> },
    ConfirmationFailure {
        expected_body_raw: Seq<char>,
        expected_body_conjure: Seq<char>,
        response_body_raw: Seq<char>,
        response_body_conjure: Seq<char>,
        cause: Seq<char>,
    },
    CouldNotParseServerResponse { response_body: Seq<char>, cause: Seq<char> },
    ServerUnderTestConnectionError { cause: Seq<char> },
    UnexpectedResponseCode { code: u16 },
    UrlParseFailure { url: Seq<char> },
    IndexOutOfBounds { index: usize, max_index: usize },
    ClientIo,
}

impl View for VerificationError {
    type V = VerificationErrorView;

    open spec fn view(&self) -> VerificationErrorView {
        match self {
            VerificationError::InvalidEndpointParameter { endpoint_name } => VerificationErrorView::InvalidEndpointParameter {
                endpoint_name: endpoint_name@,
            },
            VerificationError::UnexpectedBody { body_size } => VerificationErrorView::UnexpectedBody {
                body_size: *body_size,
            },
            VerificationError::UnexpectedContentType { content_type } => VerificationErrorView::UnexpectedContentType {
                content_type: content_type@,
            },
            VerificationError::ConfirmationFailure {
                expected_body_raw,
                expected_body_conjure,
                response_body_raw,
                response_body_conjure,
                cause,
            } => VerificationErrorView::ConfirmationFailure {
                expected_body_raw: expected_body_raw@,
                expected_body_conjure: expected_body_conjure@,
                response_body_raw: response_body_raw@,
                response_body_conjure: response_body_conjure@,
                cause: cause@,
            },
            VerificationError::CouldNotParseServerResponse { response_body, cause } => VerificationErrorView::CouldNotParseServerResponse {
                response_body: response_body@,
                cause: cause@,
            },
            VerificationError::ServerUnderTestConnectionError { cause } => VerificationErrorView::ServerUnderTestConnectionError {
                cause: cause@,
            },
            VerificationError::UnexpectedResponseCode { code } => VerificationErrorView::UnexpectedResponseCode {
                code: *code,
            },
            VerificationError::UrlParseFailure { url } => VerificationErrorView::UrlParseFailure { url: url@ },
            VerificationError::IndexOutOfBounds { index, max_index } => VerificationErrorView::IndexOutOfBounds {
                index: *index,
                max_index: *max_index,
            },
            VerificationError::ClientIo => VerificationErrorView::ClientIo,
        }
    }
}

impl VerificationError {
    /// The failure of a server's answer to hold the value sent: the test case as written, the
    /// expected value and the answer, each as written and as read (`<undefined>` where the answer
    /// did not read), and what went wrong.
    pub fn confirmation_failure(
        expected_body_raw: &str,
        expected_body_conjure: &str,
        response_body_raw: &str,
        response_body_conjure: Option<&str>,
        cause: &str,
    ) -> (res: VerificationError)
        ensures
            res@ == (VerificationErrorView::ConfirmationFailure {
                expected_body_raw: expected_body_raw@,
                expected_body_conjure: expected_body_conjure@,
                response_body_raw: response_body_raw@,
                response_body_conjure: match response_body_conjure {
                    Some(r) => r@,
                    None => "<undefined>"@,
                },
                cause: cause@,
            }),
    {
        let response_conjure = match response_body_conjure {
            Some(r) => r.to_string(),
            None => "<undefined>".to_string(),
        };
        VerificationError::ConfirmationFailure {
            expected_body_raw: expected_body_raw.to_string(),
            expected_body_conjure: expected_body_conjure.to_string(),
            response_body_raw: response_body_raw.to_string(),
            response_body_conjure: response_conjure,
            cause: cause.to_string(),
        }
    }
}

/// What an HTTP status code reads as: exactly three decimal digits, the first not zero.
pub open spec fn spec_parse_status(s: Seq<char>) -> Option<u16> {
    if s.len() == 3 && '1' <= s[0] && s[0] <= '9' && '0' <= s[1] && s[1] <= '9' && '0' <= s[2]
        && s[2] <= '9' {
        Some((digit_value(s[0]) * 100 + digit_value(s[1]) * 10 + digit_value(s[2])) as u16)
    } else {
        None
    }
}

/// Reads an HTTP status code.
fn parse_status_code(s: &str) -> (res: Option<u16>)
    ensures
        res == spec_parse_status(s@),
{
    let chars = crate::text::chars_of(s);
    if chars.len() != 3 {
        return None;
    }
    let (a, b, c) = (chars[0], chars[1], chars[2]);
    if !('1' <= a && a <= '9' && '0' <= b && b <= '9' && '0' <= c && c <= '9') {
        return None;
    }
    let value = ((a as u32 - '0' as u32) * 100 + (b as u32 - '0' as u32) * 10 + (c as u32 - '0' as u32)) as u16;
    Some(value)
}

/// The value of parameter `key`, if given.
pub open spec fn param(params: Map<Seq<char>, Seq<char>>, key: Seq<char>) -> Option<Seq<char>> {
    if params.contains_key(key) {
        Some(params[key])
    } else {
        None
    }
}

/// The error of the verification client that a serialized error denotes: its name is that of a
/// variant in the client's namespace, it has exactly that variant's parameters, and each reads
/// as the field's type.
pub open spec fn spec_parse_verification_error(e: crate::error::SerializableErrorView) -> Option<VerificationErrorView> {
    let ns = client_namespace();
    let p = e.params;
    if e.name == qualified_name(ns, "InvalidEndpointParameter"@) {
        match param(p, "endpointName"@) {
            Some(v) if p.len() == 1 => Some(VerificationErrorView::InvalidEndpointParameter { endpoint_name: v }),
            _ => None,
        }
    } else if e.name == qualified_name(ns, "UnexpectedBody"@) {
        match param(p, "bodySize"@) {
            Some(v) if p.len() == 1 => match spec_parse_usize(v) {
                Some(body_size) => Some(VerificationErrorView::UnexpectedBody { body_size }),
                None => None,
            },
            _ => None,
        }
    } else if e.name == qualified_name(ns, "UnexpectedContentType"@) {
        match param(p, "contentType"@) {
            Some(v) if p.len() == 1 => Some(VerificationErrorView::UnexpectedContentType { content_type: v }),
            _ => None,
        }
    } else if e.name == qualified_name(ns, "ConfirmationFailure"@) {
        if p.len() == 5 && p.contains_key("expectedBodyRaw"@) && p.contains_key("expectedBodyConjure"@)
            && p.contains_key("responseBodyRaw"@) && p.contains_key("responseBodyConjure"@)
            && p.contains_key("cause"@) {
            Some(
                VerificationErrorView::ConfirmationFailure {
                    expected_body_raw: p["expectedBodyRaw"@],
                    expected_body_conjure: p["expectedBodyConjure"@],
                    response_body_raw: p["responseBodyRaw"@],
                    response_body_conjure: p["responseBodyConjure"@],
                    cause: p["cause"@],
                },
            )
        } else {
            None
        }
    } else if e.name == qualified_name(ns, "CouldNotParseServerResponse"@) {
        if p.len() == 2 && p.contains_key("responseBody"@) && p.contains_key("cause"@) {
            Some(
                VerificationErrorView::CouldNotParseServerResponse {
                    response_body: p["responseBody"@],
                    cause: p["cause"@],
                },
            )
        } else {
            None
        }
    } else if e.name == qualified_name(ns, "ServerUnderTestConnectionError"@) {
        match param(p, "cause"@) {
            Some(v) if p.len() == 1 => Some(VerificationErrorView::ServerUnderTestConnectionError { cause: v }),
            _ => None,
        }
    } else if e.name == qualified_name(ns, "UnexpectedResponseCode"@) {
        match param(p, "code"@) {
            Some(v) if p.len() == 1 => match spec_parse_status(v) {
                Some(code) => Some(VerificationErrorView::UnexpectedResponseCode { code }),
                None => None,
            },
            _ => None,
        }
    } else if e.name == qualified_name(ns, "UrlParseFailure"@) {
        match param(p, "url"@) {
            Some(v) if p.len() == 1 => Some(VerificationErrorView::UrlParseFailure { url: v }),
            _ => None,
        }
    } else if e.name == qualified_name(ns, "IndexOutOfBounds"@) {
        if p.len() == 2 && p.contains_key("index"@) && p.contains_key("maxIndex"@) {
            match (spec_parse_usize(p["index"@]), spec_parse_usize(p["maxIndex"@])) {
                (Some(index), Some(max_index)) => Some(VerificationErrorView::IndexOutOfBounds { index, max_index }),
                _ => None,
            }
        } else {
            None
        }
    } else if e.name == qualified_name(ns, "ClientIo"@) {
        if p.len() == 0 {
            Some(VerificationErrorView::ClientIo)
        } else {
            None
        }
    } else {
        None
    }
}

/// The namespace of the verification client's errors.
pub open spec fn client_namespace() -> Seq<char> {
    "ConjureVerificationClient"@
}

impl ErrorType for VerificationError {
    const NAMESPACE: &'static str = "ConjureVerificationClient";

    open spec fn spec_code(&self) -> Code {
        match self {
            VerificationError::InvalidEndpointParameter { .. } => Code::InvalidArgument,
            VerificationError::UnexpectedBody { .. } => Code::FailedPrecondition,
            VerificationError::UnexpectedContentType { .. } => Code::FailedPrecondition,
            VerificationError::ConfirmationFailure { .. } => Code::FailedPrecondition,
            VerificationError::CouldNotParseServerResponse { .. } => Code::FailedPrecondition,
            VerificationError::ServerUnderTestConnectionError { .. } => Code::FailedPrecondition,
            VerificationError::UnexpectedResponseCode { .. } => Code::InvalidArgument,
            VerificationError::UrlParseFailure { .. } => Code::InvalidArgument,
            VerificationError::IndexOutOfBounds { .. } => Code::InvalidArgument,
            VerificationError::ClientIo => Code::CustomClient,
        }
    }

    open spec fn spec_name(&self) -> Seq<char> {
        match self {
            VerificationError::InvalidEndpointParameter { .. } => "InvalidEndpointParameter"@,
            VerificationError::UnexpectedBody { .. } => "UnexpectedBody"@,
            VerificationError::UnexpectedContentType { .. } => "UnexpectedContentType"@,
            VerificationError::ConfirmationFailure { .. } => "ConfirmationFailure"@,
            VerificationError::CouldNotParseServerResponse { .. } => "CouldNotParseServerResponse"@,
            VerificationError::ServerUnderTestConnectionError { .. } => "ServerUnderTestConnectionError"@,
            VerificationError::UnexpectedResponseCode { .. } => "UnexpectedResponseCode"@,
            VerificationError::UrlParseFailure { .. } => "UrlParseFailure"@,
            VerificationError::IndexOutOfBounds { .. } => "IndexOutOfBounds"@,
            VerificationError::ClientIo => "ClientIo"@,
        }
    }

    open spec fn spec_safe_params(&self) -> Map<Seq<char>, Seq<char>> {
        match self {
            VerificationError::InvalidEndpointParameter { endpoint_name } => map![
                "endpointName"@ => endpoint_name@,
            ],
            VerificationError::UnexpectedContentType { content_type } => map![
                "contentType"@ => content_type@,
            ],
            VerificationError::ConfirmationFailure {
                expected_body_raw,
                expected_body_conjure,
                response_body_raw,
                response_body_conjure,
                cause,
            } => map![
                "expectedBodyRaw"@ => expected_body_raw@,
                "expectedBodyConjure"@ => expected_body_conjure@,
                "responseBodyRaw"@ => response_body_raw@,
                "responseBodyConjure"@ => response_body_conjure@,
                "cause"@ => cause@,
            ],
            VerificationError::CouldNotParseServerResponse { response_body, cause } => map![
                "responseBody"@ => response_body@,
                "cause"@ => cause@,
            ],
            VerificationError::ServerUnderTestConnectionError { cause } => map!["cause"@ => cause@],
            VerificationError::UnexpectedResponseCode { code } => map![
                "code"@ => decimal(*code as nat),
            ],
            VerificationError::IndexOutOfBounds { index, max_index } => map![
                "index"@ => decimal(*index as nat),
                "maxIndex"@ => decimal(*max_index as nat),
            ],
            _ => Map::empty(),
        }
    }

    open spec fn spec_unsafe_params(&self) -> Map<Seq<char>, Seq<char>> {
        match self {
            VerificationError::UnexpectedBody { body_size } => map![
                "bodySize"@ => decimal(*body_size as nat),
            ],
            VerificationError::UrlParseFailure { url } => map!["url"@ => url@],
            _ => Map::empty(),
        }
    }

    fn code(&self) -> (res: Code) {
        match self {
            VerificationError::InvalidEndpointParameter { .. } => Code::InvalidArgument,
            VerificationError::UnexpectedBody { .. } => Code::FailedPrecondition,
            VerificationError::UnexpectedContentType { .. } => Code::FailedPrecondition,
            VerificationError::ConfirmationFailure { .. } => Code::FailedPrecondition,
            VerificationError::CouldNotParseServerResponse { .. } => Code::FailedPrecondition,
            VerificationError::ServerUnderTestConnectionError { .. } => Code::FailedPrecondition,
            VerificationError::UnexpectedResponseCode { .. } => Code::InvalidArgument,
            VerificationError::UrlParseFailure { .. } => Code::InvalidArgument,
            VerificationError::IndexOutOfBounds { .. } => Code::InvalidArgument,
            VerificationError::ClientIo => Code::CustomClient,
        }
    }

    fn name(&self) -> (res: &'static str) {
        match self {
            VerificationError::InvalidEndpointParameter { .. } => "InvalidEndpointParameter",
            VerificationError::UnexpectedBody { .. } => "UnexpectedBody",
            VerificationError::UnexpectedContentType { .. } => "UnexpectedContentType",
            VerificationError::ConfirmationFailure { .. } => "ConfirmationFailure",
            VerificationError::CouldNotParseServerResponse { .. } => "CouldNotParseServerResponse",
            VerificationError::ServerUnderTestConnectionError { .. } => "ServerUnderTestConnectionError",
            VerificationError::UnexpectedResponseCode { .. } => "UnexpectedResponseCode",
            VerificationError::UrlParseFailure { .. } => "UrlParseFailure",
            VerificationError::IndexOutOfBounds { .. } => "IndexOutOfBounds",
            VerificationError::ClientIo => "ClientIo",
        }
    }

    fn safe_params(&self) -> (res: Params) {
        let mut p = Params::new();
        match self {
            VerificationError::InvalidEndpointParameter { endpoint_name } => {
                p.insert("endpointName".to_string(), endpoint_name.clone());
            },
            VerificationError::UnexpectedContentType { content_type } => {
                p.insert("contentType".to_string(), content_type.clone());
            },
            VerificationError::ConfirmationFailure {
                expected_body_raw,
                expected_body_conjure,
                response_body_raw,
                response_body_conjure,
                cause,
            } => {
                p.insert("expectedBodyRaw".to_string(), expected_body_raw.clone());
                p.insert("expectedBodyConjure".to_string(), expected_body_conjure.clone());
                p.insert("responseBodyRaw".to_string(), response_body_raw.clone());
                p.insert("responseBodyConjure".to_string(), response_body_conjure.clone());
                p.insert("cause".to_string(), cause.clone());
            },
            VerificationError::CouldNotParseServerResponse { response_body, cause } => {
                p.insert("responseBody".to_string(), response_body.clone());
                p.insert("cause".to_string(), cause.clone());
            },
            VerificationError::ServerUnderTestConnectionError { cause } => {
                p.insert("cause".to_string(), cause.clone());
            },
            VerificationError::UnexpectedResponseCode { code } => {
                p.insert("code".to_string(), number_text(*code as u64));
            },
            VerificationError::IndexOutOfBounds { index, max_index } => {
                p.insert("index".to_string(), number_text(*index as u64));
                p.insert("maxIndex".to_string(), number_text(*max_index as u64));
            },
            _ => {},
        }
        p
    }

    fn unsafe_params(&self) -> (res: Params) {
        let mut p = Params::new();
        match self {
            VerificationError::UnexpectedBody { body_size } => {
                p.insert("bodySize".to_string(), number_text(*body_size as u64));
            },
            VerificationError::UrlParseFailure { url } => {
                p.insert("url".to_string(), url.clone());
            },
            _ => {},
        }
        p
    }

    fn parse(error: &SerializableError) -> (res: Option<VerificationError>)
        ensures
            match res {
                Some(v) => spec_parse_verification_error(error@) == Some(v@),
                None => spec_parse_verification_error(error@) is None,
            },
    {
        let ns = <VerificationError as ErrorType>::NAMESPACE;
        let name = error.name();
        let params = error.params();
        let n = params.len();
        if str_eq(name, qualified(ns, "InvalidEndpointParameter").as_str()) {
            if n != 1 {
                return None;
            }
            match params.get("endpointName") {
                Some(v) => Some(VerificationError::InvalidEndpointParameter { endpoint_name: v.clone() }),
                None => None,
            }
        } else if str_eq(name, qualified(ns, "UnexpectedBody").as_str()) {
            if n != 1 {
                return None;
            }
            match params.get("bodySize") {
                Some(v) => match parse_usize(v.as_str()) {
                    Some(body_size) => Some(VerificationError::UnexpectedBody { body_size }),
                    None => None,
                },
                None => None,
            }
        } else if str_eq(name, qualified(ns, "UnexpectedContentType").as_str()) {
            if n != 1 {
                return None;
            }
            match params.get("contentType") {
                Some(v) => Some(VerificationError::UnexpectedContentType { content_type: v.clone() }),
                None => None,
            }
        } else if str_eq(name, qualified(ns, "ConfirmationFailure").as_str()) {
            if n != 5 {
                return None;
            }
            let a = match params.get("expectedBodyRaw") {
                Some(v) => v.clone(),
                None => {
                    return None;
                },
            };
            let b = match params.get("expectedBodyConjure") {
                Some(v) => v.clone(),
                None => {
                    return None;
                },
            };
            let c = match params.get("responseBodyRaw") {
                Some(v) => v.clone(),
                None => {
                    return None;
                },
            };
            let d = match params.get("responseBodyConjure") {
                Some(v) => v.clone(),
                None => {
                    return None;
                },
            };
            let cause = match params.get("cause") {
                Some(v) => v.clone(),
                None => {
                    return None;
                },
            };
            Some(
                VerificationError::ConfirmationFailure {
                    expected_body_raw: a,
                    expected_body_conjure: b,
                    response_body_raw: c,
                    response_body_conjure: d,
                    cause,
                },
            )
        } else if str_eq(name, qualified(ns, "CouldNotParseServerResponse").as_str()) {
            if n != 2 {
                return None;
            }
            let response_body = match params.get("responseBody") {
                Some(v) => v.clone(),
                None => {
                    return None;
                },
            };
            match params.get("cause") {
                Some(v) => Some(VerificationError::CouldNotParseServerResponse { response_body, cause: v.clone() }),
                None => None,
            }
        } else if str_eq(name, qualified(ns, "ServerUnderTestConnectionError").as_str()) {
            if n != 1 {
                return None;
            }
            match params.get("cause") {
                Some(v) => Some(VerificationError::ServerUnderTestConnectionError { cause: v.clone() }),
                None => None,
            }
        } else if str_eq(name, qualified(ns, "UnexpectedResponseCode").as_str()) {
            if n != 1 {
                return None;
            }
            match params.get("code") {
                Some(v) => match parse_status_code(v.as_str()) {
                    Some(code) => Some(VerificationError::UnexpectedResponseCode { code }),
                    None => None,
                },
                None => None,
            }
        } else if str_eq(name, qualified(ns, "UrlParseFailure").as_str()) {
            if n != 1 {
                return None;
            }
            match params.get("url") {
                Some(v) => Some(VerificationError::UrlParseFailure { url: v.clone() }),
                None => None,
            }
        } else if str_eq(name, qualified(ns, "IndexOutOfBounds").as_str()) {
            if n != 2 {
                return None;
            }
            let index = match params.get("index") {
                Some(v) => match parse_usize(v.as_str()) {
                    Some(i) => i,
                    None => {
                        return None;
                    },
                },
                None => {
                    return None;
                },
            };
            match params.get("maxIndex") {
                Some(v) => match parse_usize(v.as_str()) {
                    Some(max_index) => Some(VerificationError::IndexOutOfBounds { index, max_index }),
                    None => None,
                },
                None => None,
            }
        } else if str_eq(name, qualified(ns, "ClientIo").as_str()) {
            if n != 0 {
                return None;
            }
            Some(VerificationError::ClientIo)
        } else {
            None
        }
    }
}

/// The decimal text of `n`.
fn number_text(n: u64) -> (res: String)
    ensures
        res@ == decimal(n as nat),
{
    let mut s = String::new();
    push_decimal(&mut s, n);
    assert(s@ =~= decimal(n as nat));
    s
}

/// The namespace and the names of the verification client's errors are upper camel case.
pub proof fn lemma_verification_error_well_named(e: VerificationError)
    ensures
        well_named(e),
{
    reveal_with_fuel(camel_from, 32);
    reveal_strlit("ConjureVerificationClient");
    assert(is_upper_camel("ConjureVerificationClient"@));
    match e {
        VerificationError::InvalidEndpointParameter { .. } => {
            reveal_strlit("InvalidEndpointParameter");
            assert(is_upper_camel("InvalidEndpointParameter"@));
        },
        VerificationError::UnexpectedBody { .. } => {
            reveal_strlit("UnexpectedBody");
            assert(is_upper_camel("UnexpectedBody"@));
        },
        VerificationError::UnexpectedContentType { .. } => {
            reveal_strlit("UnexpectedContentType");
            assert(is_upper_camel("UnexpectedContentType"@));
        },
        VerificationError::ConfirmationFailure { .. } => {
            reveal_strlit("ConfirmationFailure");
            assert(is_upper_camel("ConfirmationFailure"@));
        },
        VerificationError::CouldNotParseServerResponse { .. } => {
            reveal_strlit("CouldNotParseServerResponse");
            assert(is_upper_camel("CouldNotParseServerResponse"@));
        },
        VerificationError::ServerUnderTestConnectionError { .. } => {
            reveal_strlit("ServerUnderTestConnectionError");
            assert(is_upper_camel("ServerUnderTestConnectionError"@));
        },
        VerificationError::UnexpectedResponseCode { .. } => {
            reveal_strlit("UnexpectedResponseCode");
            assert(is_upper_camel("UnexpectedResponseCode"@));
        },
        VerificationError::UrlParseFailure { .. } => {
            reveal_strlit("UrlParseFailure");
            assert(is_upper_camel("UrlParseFailure"@));
        },
        VerificationError::IndexOutOfBounds { .. } => {
            reveal_strlit("IndexOutOfBounds");
            assert(is_upper_camel("IndexOutOfBounds"@));
        },
        VerificationError::ClientIo => {
            reveal_strlit("ClientIo");
            assert(is_upper_camel("ClientIo"@));
        },
    }
}

/// The test case at `index` among an endpoint's cases, the positive ones first and then the
/// negative ones; an index past them all is an `IndexOutOfBounds` error that names the number of
/// cases.
pub fn get_test_case_at_index(cases: &PositiveAndNegativeTestCases, index: usize) -> (res: Result<TestCase, Error>)
    requires
        cases.positive@.len() + cases.negative@.len() <= usize::MAX,
    ensures
        match res {
            Ok(TestCase::Positive(t)) => index < cases.positive@.len() && t.0@
                == cases.positive@[index as int]@,
            Ok(TestCase::Negative(t)) => cases.positive@.len() <= index < cases.positive@.len()
                + cases.negative@.len() && t.0@ == cases.negative@[index - cases.positive@.len()]@,
            Err(e) => {
                &&& index >= cases.positive@.len() + cases.negative@.len()
                &&& e@.cause == "Index out of bounds"@
                &&& e@.cause_safe
                &&& e@ == e@.with_type(
                    VerificationError::IndexOutOfBounds {
                        index,
                        max_index: (cases.positive@.len() + cases.negative@.len()) as usize,
                    },
                )
            },
        },
{
    let positives = cases.positive.len();
    let negatives = cases.negative.len();
    if index >= positives {
        if index - positives < negatives {
            Ok(TestCase::Negative(AutoDeserializeNegativeTest(cases.negative[index - positives].clone())))
        } else {
            let kind = VerificationError::IndexOutOfBounds { index, max_index: positives + negatives };
            proof {
                lemma_verification_error_well_named(kind);
            }
            Err(Error::new_safe("Index out of bounds", kind))
        }
    } else {
        Ok(TestCase::Positive(AutoDeserializePositiveTest(cases.positive[index].clone())))
    }
}

/// Checks that a response's content type is one of those expected; `None` stands for no content
/// type. Otherwise it is an `UnexpectedContentType` error naming the type, or `<empty>`.
pub fn assert_content_type(response: &Option<String>, expected: &Vec<Option<String>>) -> (res: Result<(), Error>)
    ensures
        match res {
            Ok(()) => exists|i: int|
                0 <= i < expected@.len() && crate::config::opt_view(#[trigger] expected@[i])
                    == crate::config::opt_view(*response),
            Err(e) => {
                &&& forall|i: int|
                    0 <= i < expected@.len() ==> crate::config::opt_view(#[trigger] expected@[i])
                        != crate::config::opt_view(*response)
                &&& e@.cause == "Did not expect content type"@
                &&& e@.cause_safe
                &&& exists|shown: String| {
                    &&& shown@ == match response {
                        Some(t) => t@,
                        None => "<empty>"@,
                    }
                    &&& e@ == e@.with_type(VerificationError::UnexpectedContentType { content_type: shown })
                }
            },
        },
{
    let mut i: usize = 0;
    while i < expected.len()
        invariant
            i <= expected@.len(),
            forall|j: int|
                0 <= j < i ==> crate::config::opt_view(#[trigger] expected@[j])
                    != crate::config::opt_view(*response),
        decreases expected@.len() - i,
    {
        let same = match (&expected[i], response) {
            (Some(a), Some(b)) => str_eq(a.as_str(), b.as_str()),
            (None, None) => true,
            _ => false,
        };
        if same {
            assert(crate::config::opt_view(expected@[i as int]) == crate::config::opt_view(*response));
            return Ok(());
        }
        i = i + 1;
    }
    let shown = match response {
        Some(t) => t.clone(),
        None => "<empty>".to_string(),
    };
    let ghost shown_view = shown@;
    let kind = VerificationError::UnexpectedContentType { content_type: shown };
    proof {
        lemma_verification_error_well_named(kind);
    }
    let e = Error::new_safe("Did not expect content type", kind);
    assert(e@ == e@.with_type(kind));
    Err(e)
}

/// A response code in `100..=999`, written in decimal, reads back as the same code.
proof fn lemma_status_round_trip(code: u16)
    requires
        100 <= code <= 999,
    ensures
        spec_parse_status(decimal(code as nat)) == Some(code),
{
    let n = code as nat;
    let d = decimal(n);
    assert(decimal(n / 10) == decimal(n / 100).push(digit_char((n / 10) % 10)));
    assert(decimal(n / 100) == seq![digit_char(n / 100)]);
    assert(d == decimal(n / 10).push(digit_char(n % 10)));
    assert(d.len() == 3);
    assert(d[0] == digit_char(n / 100));
    assert(d[1] == digit_char((n / 10) % 10));
    assert(d[2] == digit_char(n % 10));
    assert(digit_value(digit_char(n / 100)) == n / 100);
    assert(digit_value(digit_char((n / 10) % 10)) == (n / 10) % 10);
    assert(digit_value(digit_char(n % 10)) == n % 10);
}

/// An error of the verification client, serialized, parses back as the same error. A response
/// code outside `100..=999` is the one exception: a status code cannot hold it.
pub proof fn lemma_verification_error_round_trip(err: ErrorView, e: VerificationError)
    requires
        err == err.with_type(e),
        e matches VerificationError::UnexpectedResponseCode { code } ==> 100 <= code <= 999,
    ensures
        spec_parse_verification_error(err.serialized()) == Some(e@),
{
    reveal_strlit("ConjureVerificationClient");
    reveal_strlit("InvalidEndpointParameter");
    reveal_strlit("UnexpectedBody");
    reveal_strlit("UnexpectedContentType");
    reveal_strlit("ConfirmationFailure");
    reveal_strlit("CouldNotParseServerResponse");
    reveal_strlit("ServerUnderTestConnectionError");
    reveal_strlit("UnexpectedResponseCode");
    reveal_strlit("UrlParseFailure");
    reveal_strlit("IndexOutOfBounds");
    reveal_strlit("ClientIo");
    assert("InvalidEndpointParameter"@.len() == 24);
    assert("UnexpectedBody"@.len() == 14);
    assert("UnexpectedContentType"@.len() == 21);
    assert("ConfirmationFailure"@.len() == 19);
    assert("CouldNotParseServerResponse"@.len() == 27);
    assert("ServerUnderTestConnectionError"@.len() == 30);
    assert("UnexpectedResponseCode"@.len() == 22);
    assert("UrlParseFailure"@.len() == 15);
    assert("IndexOutOfBounds"@.len() == 16);
    assert("ClientIo"@.len() == 8);
    let s = err.serialized();
    let p = s.params;
    assert(s.name == qualified_name(client_namespace(), e.spec_name()));
    match e {
        VerificationError::InvalidEndpointParameter { endpoint_name } => {
            assert(p =~= map!["endpointName"@ => endpoint_name@]);
        },
        VerificationError::UnexpectedBody { body_size } => {
            assert(p =~= map!["bodySize"@ => decimal(body_size as nat)]);
            lemma_parse_usize_decimal(body_size);
        },
        VerificationError::UnexpectedContentType { content_type } => {
            assert(p =~= map!["contentType"@ => content_type@]);
        },
        VerificationError::ConfirmationFailure {
            expected_body_raw,
            expected_body_conjure,
            response_body_raw,
            response_body_conjure,
            cause,
        } => {
            reveal_strlit("expectedBodyRaw");
            reveal_strlit("expectedBodyConjure");
            reveal_strlit("responseBodyRaw");
            reveal_strlit("responseBodyConjure");
            reveal_strlit("cause");
            assert("expectedBodyRaw"@[0] == 'e' && "expectedBodyRaw"@.len() == 15);
            assert("expectedBodyConjure"@[0] == 'e' && "expectedBodyConjure"@.len() == 19);
            assert("responseBodyRaw"@[0] == 'r' && "responseBodyRaw"@.len() == 15);
            assert("responseBodyConjure"@[0] == 'r' && "responseBodyConjure"@.len() == 19);
            assert("cause"@.len() == 5);
            let m = map![
                "expectedBodyRaw"@ => expected_body_raw@,
                "expectedBodyConjure"@ => expected_body_conjure@,
                "responseBodyRaw"@ => response_body_raw@,
                "responseBodyConjure"@ => response_body_conjure@,
                "cause"@ => cause@,
            ];
            assert(p =~= m);
            assert(m.dom() =~= set![
                "expectedBodyRaw"@,
                "expectedBodyConjure"@,
                "responseBodyRaw"@,
                "responseBodyConjure"@,
                "cause"@,
            ]);
        },
        VerificationError::CouldNotParseServerResponse { response_body, cause } => {
            reveal_strlit("responseBody");
            reveal_strlit("cause");
            assert("responseBody"@.len() == 12 && "cause"@.len() == 5);
            let m = map!["responseBody"@ => response_body@, "cause"@ => cause@];
            assert(p =~= m);
            assert(m.dom() =~= set!["responseBody"@, "cause"@]);
        },
        VerificationError::ServerUnderTestConnectionError { cause } => {
            assert(p =~= map!["cause"@ => cause@]);
        },
        VerificationError::UnexpectedResponseCode { code } => {
            assert(p =~= map!["code"@ => decimal(code as nat)]);
            lemma_status_round_trip(code);
        },
        VerificationError::UrlParseFailure { url } => {
            assert(p =~= map!["url"@ => url@]);
        },
        VerificationError::IndexOutOfBounds { index, max_index } => {
            reveal_strlit("index");
            reveal_strlit("maxIndex");
            assert("index"@.len() == 5 && "maxIndex"@.len() == 8);
            assert(p =~= map!["index"@ => decimal(index as nat), "maxIndex"@ => decimal(max_index as nat)]);
            lemma_parse_usize_decimal(index);
            lemma_parse_usize_decimal(max_index);
        },
        VerificationError::ClientIo => {
            assert(p =~= Map::<Seq<char>, Seq<char>>::empty());
        },
    }
}

} // verus!
