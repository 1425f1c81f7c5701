use vstd::prelude::*;

use crate::params::{entries_map, keys_unique, Param, Params};
use vstd::string::StringExecFns;
use crate::text::{camel_from, is_upper_camel, lemma_prefix_cancel, str_eq};

verus! {

broadcast use vstd::string::group_string_axioms;

/// A high-level category of a Conjure error.
///
/// `Code` also implements `ErrorType`, and can be used to create generic errors that don't need
/// more specific information.
#[derive(Copy, Clone, Debug, PartialEq, Eq, Structural)]
pub enum Code {
    PermissionDenied,
    InvalidArgument,
    NotFound,
    Conflict,
    RequestEntityTooLarge,
    FailedPrecondition,
    Internal,
    Timeout,
    CustomClient,
    CustomServer,
    TooManyRequests,
    NotAcceptable,
    Unauthorized,
    ServiceUnavailable,
}

/// Every code, in declaration order.
pub open spec fn all_codes() -> Seq<Code> {
    seq![
        Code::PermissionDenied,
        Code::InvalidArgument,
        Code::NotFound,
        Code::Conflict,
        Code::RequestEntityTooLarge,
        Code::FailedPrecondition,
        Code::Internal,
        Code::Timeout,
        Code::CustomClient,
        Code::CustomServer,
        Code::TooManyRequests,
        Code::NotAcceptable,
        Code::Unauthorized,
        Code::ServiceUnavailable,
    ]
}

/// The name by which an error's namespace and its name are reported together.
pub open spec fn qualified_name(namespace: Seq<char>, name: Seq<char>) -> Seq<char> {
    namespace + ":"@ + name
}

/// The HTTP status an error is reported with says whose fault it is: a client's mistake
/// (permission denied, invalid argument, not found, conflict, a body too large, a custom client
/// error, too many requests, an unacceptable format, no authorization) is a 4xx status, and
/// every other code, the server's, is a 5xx one; throttling is 429 and unavailability 503.
pub proof fn lemma_http_status_classes(c: Code)
    ensures
        (400 <= c.spec_http_error_code() <= 499) <==> (c == Code::PermissionDenied || c == Code::InvalidArgument
            || c == Code::NotFound || c == Code::Conflict || c == Code::RequestEntityTooLarge || c
            == Code::CustomClient || c == Code::TooManyRequests || c == Code::NotAcceptable || c
            == Code::Unauthorized),
        (500 <= c.spec_http_error_code() <= 599) <==> !(400 <= c.spec_http_error_code() <= 499),
        c.spec_http_error_code() == 429 <==> c == Code::TooManyRequests,
        c.spec_http_error_code() == 503 <==> c == Code::ServiceUnavailable,
        c.spec_http_error_code() == 404 <==> c == Code::NotFound,
        c.spec_http_error_code() == 401 <==> c == Code::Unauthorized,
        c.spec_http_error_code() == 403 <==> c == Code::PermissionDenied,
        c == Code::Internal ==> c.spec_http_error_code() == 500,
{
}

impl Code {
    /// The HTTP status that an error of this code is reported with.
    pub open spec fn spec_http_error_code(self) -> u16 {
        match self {
            Code::PermissionDenied => 403,
            Code::InvalidArgument => 400,
            Code::NotFound => 404,
            Code::Conflict => 409,
            Code::RequestEntityTooLarge => 413,
            Code::FailedPrecondition => 500,
            Code::Internal => 500,
            Code::Timeout => 500,
            Code::CustomClient => 400,
            Code::CustomServer => 500,
            Code::TooManyRequests => 429,
            Code::NotAcceptable => 406,
            Code::Unauthorized => 401,
            Code::ServiceUnavailable => 503,
        }
    }

    /// The upper-camel name of the code.
    pub open spec fn spec_variant_name(self) -> Seq<char> {
        match self {
            Code::PermissionDenied => "PermissionDenied"@,
            Code::InvalidArgument => "InvalidArgument"@,
            Code::NotFound => "NotFound"@,
            Code::Conflict => "Conflict"@,
            Code::RequestEntityTooLarge => "RequestEntityTooLarge"@,
            Code::FailedPrecondition => "FailedPrecondition"@,
            Code::Internal => "Internal"@,
            Code::Timeout => "Timeout"@,
            Code::CustomClient => "CustomClient"@,
            Code::CustomServer => "CustomServer"@,
            Code::TooManyRequests => "TooManyRequests"@,
            Code::NotAcceptable => "NotAcceptable"@,
            Code::Unauthorized => "Unauthorized"@,
            Code::ServiceUnavailable => "ServiceUnavailable"@,
        }
    }

    /// The screaming-snake-case form in which the code is serialized.
    pub open spec fn spec_wire_name(self) -> Seq<char> {
        match self {
            Code::PermissionDenied => "PERMISSION_DENIED"@,
            Code::InvalidArgument => "INVALID_ARGUMENT"@,
            Code::NotFound => "NOT_FOUND"@,
            Code::Conflict => "CONFLICT"@,
            Code::RequestEntityTooLarge => "REQUEST_ENTITY_TOO_LARGE"@,
            Code::FailedPrecondition => "FAILED_PRECONDITION"@,
            Code::Internal => "INTERNAL"@,
            Code::Timeout => "TIMEOUT"@,
            Code::CustomClient => "CUSTOM_CLIENT"@,
            Code::CustomServer => "CUSTOM_SERVER"@,
            Code::TooManyRequests => "TOO_MANY_REQUESTS"@,
            Code::NotAcceptable => "NOT_ACCEPTABLE"@,
            Code::Unauthorized => "UNAUTHORIZED"@,
            Code::ServiceUnavailable => "SERVICE_UNAVAILABLE"@,
        }
    }

    /// Returns the HTTP status code that errors of this code are reported with.
    pub fn http_error_code(&self) -> (res: u16)
        ensures
            res == self.spec_http_error_code(),
    {
        match *self {
            Code::PermissionDenied => 403,
            Code::InvalidArgument => 400,
            Code::NotFound => 404,
            Code::Conflict => 409,
            Code::RequestEntityTooLarge => 413,
            Code::FailedPrecondition => 500,
            Code::Internal => 500,
            Code::Timeout => 500,
            Code::CustomClient => 400,
            Code::CustomServer => 500,
            Code::TooManyRequests => 429,
            Code::NotAcceptable => 406,
            Code::Unauthorized => 401,
            Code::ServiceUnavailable => 503,
        }
    }

    /// Returns the serialized form of the code, such as `PERMISSION_DENIED`.
    pub fn as_str(&self) -> (res: &'static str)
        ensures
            res@ == self.spec_wire_name(),
    {
        match *self {
            Code::PermissionDenied => "PERMISSION_DENIED",
            Code::InvalidArgument => "INVALID_ARGUMENT",
            Code::NotFound => "NOT_FOUND",
            Code::Conflict => "CONFLICT",
            Code::RequestEntityTooLarge => "REQUEST_ENTITY_TOO_LARGE",
            Code::FailedPrecondition => "FAILED_PRECONDITION",
            Code::Internal => "INTERNAL",
            Code::Timeout => "TIMEOUT",
            Code::CustomClient => "CUSTOM_CLIENT",
            Code::CustomServer => "CUSTOM_SERVER",
            Code::TooManyRequests => "TOO_MANY_REQUESTS",
            Code::NotAcceptable => "NOT_ACCEPTABLE",
            Code::Unauthorized => "UNAUTHORIZED",
            Code::ServiceUnavailable => "SERVICE_UNAVAILABLE",
        }
    }

    /// Returns the code at `index` in declaration order.
    fn at(index: usize) -> (res: Code)
        requires
            index < 14,
        ensures
            res == all_codes()[index as int],
    {
        match index {
            0 => Code::PermissionDenied,
            1 => Code::InvalidArgument,
            2 => Code::NotFound,
            3 => Code::Conflict,
            4 => Code::RequestEntityTooLarge,
            5 => Code::FailedPrecondition,
            6 => Code::Internal,
            7 => Code::Timeout,
            8 => Code::CustomClient,
            9 => Code::CustomServer,
            10 => Code::TooManyRequests,
            11 => Code::NotAcceptable,
            12 => Code::Unauthorized,
            _ => Code::ServiceUnavailable,
        }
    }
}

/// Every code lies among `all_codes()`.
pub proof fn lemma_all_codes_complete(c: Code)
    ensures
        all_codes().contains(c),
{
    let s = all_codes();
    match c {
        Code::PermissionDenied => assert(s[0] == c),
        Code::InvalidArgument => assert(s[1] == c),
        Code::NotFound => assert(s[2] == c),
        Code::Conflict => assert(s[3] == c),
        Code::RequestEntityTooLarge => assert(s[4] == c),
        Code::FailedPrecondition => assert(s[5] == c),
        Code::Internal => assert(s[6] == c),
        Code::Timeout => assert(s[7] == c),
        Code::CustomClient => assert(s[8] == c),
        Code::CustomServer => assert(s[9] == c),
        Code::TooManyRequests => assert(s[10] == c),
        Code::NotAcceptable => assert(s[11] == c),
        Code::Unauthorized => assert(s[12] == c),
        Code::ServiceUnavailable => assert(s[13] == c),
    }
}

/// The namespace and every variant name of `Code` are upper camel case.
pub proof fn lemma_code_names_upper_camel(c: Code)
    ensures
        is_upper_camel(<Code as ErrorType>::NAMESPACE@),
        is_upper_camel(c.spec_variant_name()),
{
    reveal_with_fuel(camel_from, 22);
    reveal_strlit("Default");
    assert(is_upper_camel("Default"@));
    match c {
        Code::PermissionDenied => {
            reveal_strlit("PermissionDenied");
            assert(is_upper_camel("PermissionDenied"@));
        },
        Code::InvalidArgument => {
            reveal_strlit("InvalidArgument");
            assert(is_upper_camel("InvalidArgument"@));
        },
        Code::NotFound => {
            reveal_strlit("NotFound");
            assert(is_upper_camel("NotFound"@));
        },
        Code::Conflict => {
            reveal_strlit("Conflict");
            assert(is_upper_camel("Conflict"@));
        },
        Code::RequestEntityTooLarge => {
            reveal_strlit("RequestEntityTooLarge");
            assert(is_upper_camel("RequestEntityTooLarge"@));
        },
        Code::FailedPrecondition => {
            reveal_strlit("FailedPrecondition");
            assert(is_upper_camel("FailedPrecondition"@));
        },
        Code::Internal => {
            reveal_strlit("Internal");
            assert(is_upper_camel("Internal"@));
        },
        Code::Timeout => {
            reveal_strlit("Timeout");
            assert(is_upper_camel("Timeout"@));
        },
        Code::CustomClient => {
            reveal_strlit("CustomClient");
            assert(is_upper_camel("CustomClient"@));
        },
        Code::CustomServer => {
            reveal_strlit("CustomServer");
            assert(is_upper_camel("CustomServer"@));
        },
        Code::TooManyRequests => {
            reveal_strlit("TooManyRequests");
            assert(is_upper_camel("TooManyRequests"@));
        },
        Code::NotAcceptable => {
            reveal_strlit("NotAcceptable");
            assert(is_upper_camel("NotAcceptable"@));
        },
        Code::Unauthorized => {
            reveal_strlit("Unauthorized");
            assert(is_upper_camel("Unauthorized"@));
        },
        Code::ServiceUnavailable => {
            reveal_strlit("ServiceUnavailable");
            assert(is_upper_camel("ServiceUnavailable"@));
        },
    }
}

/// Two codes with the same name are the same code.
pub proof fn lemma_code_names_distinct(a: Code, b: Code)
    requires
        a.spec_variant_name() == b.spec_variant_name(),
    ensures
        a == b,
{
    reveal_strlit("PermissionDenied");
    reveal_strlit("InvalidArgument");
    reveal_strlit("NotFound");
    reveal_strlit("Conflict");
    reveal_strlit("RequestEntityTooLarge");
    reveal_strlit("FailedPrecondition");
    reveal_strlit("Internal");
    reveal_strlit("Timeout");
    reveal_strlit("CustomClient");
    reveal_strlit("CustomServer");
    reveal_strlit("TooManyRequests");
    reveal_strlit("NotAcceptable");
    reveal_strlit("Unauthorized");
    reveal_strlit("ServiceUnavailable");
    if a != b {
        let x = a.spec_variant_name();
        let y = b.spec_variant_name();
        assert(x.len() != y.len() || x[0] != y[0] || x[6] != y[6]);
    }
}

/// A trait encapsulating the serializable information associated with a Conjure error.
///
/// An application will typically create a single enum implementing this trait with a variant for
/// each error in its API.
pub trait ErrorType: Sized {
    /// The namespace of the error.
    ///
    /// This must be upper-camel case.
    const NAMESPACE: &'static str;

    /// The code that `code` returns; an implementation states it.
    closed spec fn spec_code(&self) -> Code {
        vstd::pervasive::arbitrary()
    }

    /// The name that `name` returns; an implementation states it.
    closed spec fn spec_name(&self) -> Seq<char> {
        vstd::pervasive::arbitrary()
    }

    /// The parameters that `safe_params` returns; an implementation states them.
    closed spec fn spec_safe_params(&self) -> Map<Seq<char>, Seq<char>> {
        vstd::pervasive::arbitrary()
    }

    /// The parameters that `unsafe_params` returns; an implementation states them.
    closed spec fn spec_unsafe_params(&self) -> Map<Seq<char>, Seq<char>> {
        vstd::pervasive::arbitrary()
    }

    /// Returns the `Code` associated with the error.
    fn code(&self) -> (res: Code)
        ensures
            res == self.spec_code(),
    ;

    /// Returns the name of the error.
    ///
    /// This must be upper-camel case.
    fn name(&self) -> (res: &'static str)
        ensures
            res@ == self.spec_name(),
    ;

    /// Returns the safe parameters associated with the error.
    fn safe_params(&self) -> (res: Params)
        ensures
            res@ == self.spec_safe_params(),
    ;

    /// Returns the unsafe parameters associated with the error.
    ///
    /// These unsafe parameters *are* included in the serialized Conjure error.
    fn unsafe_params(&self) -> (res: Params)
        ensures
            res@ == self.spec_unsafe_params(),
    ;

    /// Attempts to parse a serialized Conjure error into an instance of this type. An error
    /// that parses has this type's namespace and the parsed value's name.
    fn parse(error: &SerializableError) -> (res: Option<Self>)
        ensures
            res matches Some(t) ==> error@.name == qualified_name(Self::NAMESPACE@, t.spec_name()),
    ;
}

/// A serialized Conjure error, as it is sent over the wire.
pub struct SerializableError {
    error_code: String,
    error_name: String,
    error_instance_id: String,
    parameters: Params,
}

/// The content of a serialized error.
pub struct SerializableErrorView {
    pub code: Seq<char>,
    pub name: Seq<char>,
    pub id: Seq<char>,
    pub params: Map<Seq<char>, Seq<char>>,
}

impl View for SerializableError {
    type V = SerializableErrorView;

    closed spec fn view(&self) -> SerializableErrorView {
        SerializableErrorView {
            code: self.error_code@,
            name: self.error_name@,
            id: self.error_instance_id@,
            params: self.parameters@,
        }
    }
}

impl SerializableError {
    /// Assembles a serialized error from its four parts.
    pub fn new(code: String, name: String, id: String, params: Params) -> (res: SerializableError)
        ensures
            res@ == (SerializableErrorView { code: code@, name: name@, id: id@, params: params@ }),
    {
        SerializableError {
            error_code: code,
            error_name: name,
            error_instance_id: id,
            parameters: params,
        }
    }

    /// Returns the error code, as its wire name.
    pub fn code(&self) -> (res: &str)
        ensures
            res@ == self@.code,
    {
        self.error_code.as_str()
    }

    /// Returns the error name, `namespace:name`.
    pub fn name(&self) -> (res: &str)
        ensures
            res@ == self@.name,
    {
        self.error_name.as_str()
    }

    /// Returns the error instance ID.
    pub fn id(&self) -> (res: &str)
        ensures
            res@ == self@.id,
    {
        self.error_instance_id.as_str()
    }

    /// Returns the error parameters.
    pub fn params(&self) -> (res: &Params)
        ensures
            res@ == self@.params,
    {
        &self.parameters
    }
}

/// The code that a serialized error names, if it is a parameterless error of the `Default`
/// namespace whose name is that of a code.
pub open spec fn spec_parse_code(error: SerializableErrorView) -> Option<Code> {
    if error.params == Map::<Seq<char>, Seq<char>>::empty() && exists|c: Code|
        error.name == qualified_name("Default"@, #[trigger] c.spec_variant_name()) {
        Some(choose|c: Code| error.name == qualified_name("Default"@, #[trigger] c.spec_variant_name()))
    } else {
        None
    }
}

impl ErrorType for Code {
    const NAMESPACE: &'static str = "Default";

    open spec fn spec_code(&self) -> Code {
        *self
    }

    open spec fn spec_name(&self) -> Seq<char> {
        self.spec_variant_name()
    }

    open spec fn spec_safe_params(&self) -> Map<Seq<char>, Seq<char>> {
        Map::empty()
    }

    open spec fn spec_unsafe_params(&self) -> Map<Seq<char>, Seq<char>> {
        Map::empty()
    }

    fn code(&self) -> (res: Code) {
        *self
    }

    fn name(&self) -> (res: &'static str) {
        match *self {
            Code::PermissionDenied => "PermissionDenied",
            Code::InvalidArgument => "InvalidArgument",
            Code::NotFound => "NotFound",
            Code::Conflict => "Conflict",
            Code::RequestEntityTooLarge => "RequestEntityTooLarge",
            Code::FailedPrecondition => "FailedPrecondition",
            Code::Internal => "Internal",
            Code::Timeout => "Timeout",
            Code::CustomClient => "CustomClient",
            Code::CustomServer => "CustomServer",
            Code::TooManyRequests => "TooManyRequests",
            Code::NotAcceptable => "NotAcceptable",
            Code::Unauthorized => "Unauthorized",
            Code::ServiceUnavailable => "ServiceUnavailable",
        }
    }

    fn safe_params(&self) -> (res: Params) {
        Params::new()
    }

    fn unsafe_params(&self) -> (res: Params) {
        Params::new()
    }

    fn parse(error: &SerializableError) -> (res: Option<Code>)
        ensures
            res == spec_parse_code(error@),
    {
        if !error.params().is_empty() {
            return None;
        }
        let mut i: usize = 0;
        while i < 14
            invariant
                i <= 14,
                error@.params == Map::<Seq<char>, Seq<char>>::empty(),
                forall|j: int|
                    0 <= j < i ==> error@.name != qualified_name(
                        "Default"@,
                        (#[trigger] all_codes()[j]).spec_variant_name(),
                    ),
            decreases 14 - i,
        {
            let c = Code::at(i);
            let expected = qualified(<Code as ErrorType>::NAMESPACE, c.name());
            if str_eq(error.name(), expected.as_str()) {
                proof {
                    assert(<Code as ErrorType>::NAMESPACE@ == "Default"@);
                    assert(error@.name == qualified_name("Default"@, c.spec_variant_name()));
                    let chosen = choose|d: Code|
                        error@.name == qualified_name("Default"@, #[trigger] d.spec_variant_name());
                    assert(qualified_name("Default"@, chosen.spec_variant_name()) == qualified_name(
                        "Default"@,
                        c.spec_variant_name(),
                    ));
                    lemma_prefix_cancel(
                        "Default"@ + ":"@,
                        chosen.spec_variant_name(),
                        c.spec_variant_name(),
                    );
                    lemma_code_names_distinct(chosen, c);
                }
                return Some(c);
            }
            i = i + 1;
        }
        proof {
            assert forall|c: Code|
                error@.name != qualified_name("Default"@, #[trigger] c.spec_variant_name()) by {
                lemma_all_codes_complete(c);
                let j = choose|j: int| 0 <= j < 14 && all_codes()[j] == c;
            }
        }
        None
    }
}

/// Builds `namespace:name`.
pub(crate) fn qualified(namespace: &str, name: &str) -> (res: String)
    ensures
        res@ == qualified_name(namespace@, name@),
{
    let mut s = namespace.to_string();
    s.append(":");
    s.append(name);
    s
}

/// A captured stack trace.
#[verifier::external_type_specification]
#[verifier::external_body]
pub struct ExBacktrace(backtrace::Backtrace);

/// Captures the current stack trace.
///
/// Calls `backtrace::Backtrace::new`; nothing is claimed of the trace it returns, which depends on
/// the running program.
#[verifier::external_body]
fn capture_backtrace() -> backtrace::Backtrace {
    backtrace::Backtrace::new()
}

/// Generates a fresh identifier for an error instance.
///
/// Calls `uuid::Uuid::new_v4` and formats the result with its `Display` impl. The identifier is
/// random; the contract claims only its length: `Display` writes the hyphenated form, which is 36
/// characters long.
#[verifier::external_body]
fn new_instance_id() -> (res: String)
    ensures
        res@.len() == 36,
{
    uuid::Uuid::new_v4().to_string()
}

/// A Conjure-compatible error type.
///
/// Conjure errors are created from a cause and an `ErrorType` containing the serializable
/// information for the error. They also contain a randomly generated ID and a backtrace generated
/// at the time of construction.
pub struct Error {
    backtraces: Vec<backtrace::Backtrace>,
    cause: String,
    cause_safe: bool,
    code: Code,
    name: String,
    id: String,
    body_params: Params,
    safe_params: Params,
    unsafe_params: Params,
}

/// The content of an error.
pub struct ErrorView {
    pub backtrace_count: nat,
    pub cause: Seq<char>,
    pub cause_safe: bool,
    pub code: Code,
    pub name: Seq<char>,
    pub id: Seq<char>,
    pub body_params: Map<Seq<char>, Seq<char>>,
    pub safe_params: Map<Seq<char>, Seq<char>>,
    pub unsafe_params: Map<Seq<char>, Seq<char>>,
}

impl View for Error {
    type V = ErrorView;

    closed spec fn view(&self) -> ErrorView {
        ErrorView {
            backtrace_count: self.backtraces@.len(),
            cause: self.cause@,
            cause_safe: self.cause_safe,
            code: self.code,
            name: self.name@,
            id: self.id@,
            body_params: self.body_params@,
            safe_params: self.safe_params@,
            unsafe_params: self.unsafe_params@,
        }
    }
}

impl ErrorView {
    /// The error after its type has been replaced by `error_type`: the code, the name and the
    /// parameters come from the type, and the serialized parameters are its safe parameters
    /// overridden by its unsafe ones.
    pub open spec fn with_type<T: ErrorType>(self, error_type: T) -> ErrorView {
        ErrorView {
            code: error_type.spec_code(),
            name: qualified_name(T::NAMESPACE@, error_type.spec_name()),
            body_params: error_type.spec_safe_params().union_prefer_right(
                error_type.spec_unsafe_params(),
            ),
            safe_params: error_type.spec_safe_params(),
            unsafe_params: error_type.spec_unsafe_params(),
            ..self
        }
    }

    /// The serialized form of the error.
    pub open spec fn serialized(self) -> SerializableErrorView {
        SerializableErrorView {
            code: self.code.spec_wire_name(),
            name: self.name,
            id: self.id,
            params: self.body_params,
        }
    }
}

/// The namespace and the name of `error_type` are upper camel case, as `Error` requires.
pub open spec fn well_named<T: ErrorType>(error_type: T) -> bool {
    is_upper_camel(T::NAMESPACE@) && is_upper_camel(error_type.spec_name())
}

impl Error {
    /// The error's backtraces, ordered from oldest to newest.
    pub closed spec fn backtrace_list(&self) -> Seq<backtrace::Backtrace> {
        self.backtraces@
    }

    /// Constructs a Conjure error from an unsafe cause.
    pub fn new<T: ErrorType>(cause: &str, error_type: T) -> (res: Error)
        requires
            well_named(error_type),
        ensures
            res@.backtrace_count == 1,
            res@.cause == cause@,
            !res@.cause_safe,
            res@.id.len() == 36,
            res@ == res@.with_type(error_type),
    {
        Error::new_inner(cause, false, error_type)
    }

    /// Constructs a Conjure error from a safe cause.
    pub fn new_safe<T: ErrorType>(cause: &str, error_type: T) -> (res: Error)
        requires
            well_named(error_type),
        ensures
            res@.backtrace_count == 1,
            res@.cause == cause@,
            res@.cause_safe,
            res@.id.len() == 36,
            res@ == res@.with_type(error_type),
    {
        Error::new_inner(cause, true, error_type)
    }

    fn new_inner<T: ErrorType>(cause: &str, cause_safe: bool, error_type: T) -> (res: Error)
        requires
            well_named(error_type),
        ensures
            res@.backtrace_count == 1,
            res@.cause == cause@,
            res@.cause_safe == cause_safe,
            res@.id.len() == 36,
            res@ == res@.with_type(error_type),
    {
        let error = Error {
            backtraces: Vec::new(),
            cause: cause.to_string(),
            cause_safe: false,
            code: Code::Internal,
            name: String::new(),
            id: String::new(),
            body_params: Params::new(),
            safe_params: Params::new(),
            unsafe_params: Params::new(),
        };
        let typed = error.with_type(error_type);
        Error { cause_safe, ..typed }.with_backtrace()
    }

    /// Constructs a `Code::Internal` error from an unsafe cause.
    pub fn internal(cause: &str) -> (res: Error)
        ensures
            res@.backtrace_count == 1,
            res@.cause == cause@,
            !res@.cause_safe,
            res@.id.len() == 36,
            res@ == res@.with_type(Code::Internal),
    {
        proof {
            lemma_code_names_upper_camel(Code::Internal);
        }
        Error::new(cause, Code::Internal)
    }

    /// Constructs a `Code::Internal` error from an unsafe cause.
    pub fn internal_safe(cause: &str) -> (res: Error)
        ensures
            res@.backtrace_count == 1,
            res@.cause == cause@,
            !res@.cause_safe,
            res@.id.len() == 36,
            res@ == res@.with_type(Code::Internal),
    {
        proof {
            lemma_code_names_upper_camel(Code::Internal);
        }
        Error::new(cause, Code::Internal)
    }

    /// Constructs a `Code::PermissionDenied` error from an unsafe cause.
    pub fn permission_denied(cause: &str) -> (res: Error)
        ensures
            res@.backtrace_count == 1,
            res@.cause == cause@,
            !res@.cause_safe,
            res@.id.len() == 36,
            res@ == res@.with_type(Code::PermissionDenied),
    {
        proof {
            lemma_code_names_upper_camel(Code::PermissionDenied);
        }
        Error::new(cause, Code::PermissionDenied)
    }

    /// Constructs a `Code::PermissionDenied` error from a safe cause.
    pub fn permission_denied_safe(cause: &str) -> (res: Error)
        ensures
            res@.backtrace_count == 1,
            res@.cause == cause@,
            res@.cause_safe,
            res@.id.len() == 36,
            res@ == res@.with_type(Code::PermissionDenied),
    {
        proof {
            lemma_code_names_upper_camel(Code::PermissionDenied);
        }
        Error::new_safe(cause, Code::PermissionDenied)
    }

    /// Replaces the error's `ErrorType` with another.
    ///
    /// Everything except the error's backtraces and cause will be reset: the error gets a new
    /// ID, and its cause is no longer taken as safe.
    pub fn with_type<T: ErrorType>(self, error_type: T) -> (res: Error)
        requires
            well_named(error_type),
        ensures
            res@ == (ErrorView { id: res@.id, cause_safe: false, ..self@.with_type(error_type) }),
            res@.id.len() == 36,
            res.backtrace_list() == self.backtrace_list(),
    {
        let namespace = T::NAMESPACE;
        let name = error_type.name();
        let code = error_type.code();
        let safe_params = error_type.safe_params();
        let unsafe_params = error_type.unsafe_params();
        let body_params = safe_params.union(&unsafe_params);
        Error {
            name: qualified(namespace, name),
            code,
            id: new_instance_id(),
            cause_safe: false,
            body_params,
            safe_params,
            unsafe_params,
            ..self
        }
    }

    /// Adds a new safe parameter to the error.
    ///
    /// The parameter will be logged, but not included in the serialized representation of the
    /// error.
    pub fn with_safe_param(self, key: &str, value: &str) -> (res: Error)
        ensures
            res@ == (ErrorView { safe_params: self@.safe_params.insert(key@, value@), ..self@ }),
            res.backtrace_list() == self.backtrace_list(),
    {
        let mut error = self;
        error.safe_params.insert(key.to_string(), value.to_string());
        error
    }

    /// Adds a new unsafe parameter to the error.
    ///
    /// The parameter will be logged, but not included in the serialized representation of the
    /// error.
    pub fn with_unsafe_param(self, key: &str, value: &str) -> (res: Error)
        ensures
            res@ == (ErrorView { unsafe_params: self@.unsafe_params.insert(key@, value@), ..self@ }),
            res.backtrace_list() == self.backtrace_list(),
    {
        let mut error = self;
        error.unsafe_params.insert(key.to_string(), value.to_string());
        error
    }

    /// Adds a new backtrace to the error.
    ///
    /// This is intended to use when, for example, transferring the error from one thread to
    /// another.
    pub fn with_backtrace(self) -> (res: Error)
        ensures
            res@ == (ErrorView { backtrace_count: self@.backtrace_count + 1, ..self@ }),
            res.backtrace_list().len() == self.backtrace_list().len() + 1,
            res.backtrace_list().take(self.backtrace_list().len() as int) == self.backtrace_list(),
    {
        let mut error = self;
        error.backtraces.push(capture_backtrace());
        error
    }

    /// Returns the error's ID.
    pub fn id(&self) -> (res: &str)
        ensures
            res@ == self@.id,
    {
        self.id.as_str()
    }

    /// Returns the error's backtraces, ordered from oldest to newest.
    pub fn backtraces(&self) -> (res: &Vec<backtrace::Backtrace>)
        ensures
            res@.len() == self@.backtrace_count,
            res@ == self.backtrace_list(),
    {
        &self.backtraces
    }

    /// Returns the error's cause.
    pub fn cause(&self) -> (res: &str)
        ensures
            res@ == self@.cause,
    {
        self.cause.as_str()
    }

    /// Returns whether or not the error's cause is considered safe for logging.
    pub fn cause_safe(&self) -> (res: bool)
        ensures
            res == self@.cause_safe,
    {
        self.cause_safe
    }

    /// Returns the error's `Code`.
    pub fn code(&self) -> (res: Code)
        ensures
            res == self@.code,
    {
        self.code
    }

    /// Returns the error's name.
    pub fn name(&self) -> (res: &str)
        ensures
            res@ == self@.name,
    {
        self.name.as_str()
    }

    /// Returns the error's safe parameters.
    pub fn safe_params(&self) -> (res: &Params)
        ensures
            res@ == self@.safe_params,
    {
        &self.safe_params
    }

    /// Returns the error's unsafe parameters.
    pub fn unsafe_params(&self) -> (res: &Params)
        ensures
            res@ == self@.unsafe_params,
    {
        &self.unsafe_params
    }

    /// Returns a serializable version of the error.
    pub fn serializable(&self) -> (res: SerializableError)
        ensures
            res@ == self@.serialized(),
    {
        SerializableError {
            error_code: self.code.as_str().to_string(),
            error_name: self.name.clone(),
            error_instance_id: self.id.clone(),
            parameters: self.body_params.copy(),
        }
    }
}

/// The parameters written as `key: value`, separated by `, `.
pub open spec fn params_text(entries: Seq<Param>) -> Seq<char>
    decreases entries.len(),
{
    if entries.len() == 0 {
        Seq::empty()
    } else if entries.len() == 1 {
        entries[0].key@ + ": "@ + entries[0].value@
    } else {
        params_text(entries.drop_last()) + ", "@ + entries.last().key@ + ": "@ + entries.last().value@
    }
}

/// The description of an error: its name, code and ID, its parameters, and its cause.
pub open spec fn error_text(e: ErrorView, params: Seq<Param>) -> Seq<char> {
    e.name + " ("@ + e.code.spec_wire_name() + ", id: "@ + e.id + ") ("@ + params_text(params)
        + ")\nCaused by: "@ + e.cause
}

impl Error {
    /// Describes the error: its name, code and ID, its safe and then its unsafe parameters as
    /// `key: value` pairs, and its cause. The parameters of each kind come in no set order.
    pub fn to_string(&self) -> (res: String)
        ensures
            exists|safe: Seq<Param>, unsafe_: Seq<Param>|
                {
                    &&& keys_unique(safe) && entries_map(safe) == self@.safe_params
                    &&& keys_unique(unsafe_) && entries_map(unsafe_) == self@.unsafe_params
                    &&& res@ == error_text(self@, safe + unsafe_)
                },
    {
        let safe = self.safe_params.entries();
        let unsafe_ = self.unsafe_params.entries();
        let ghost all = safe@ + unsafe_@;
        let mut text = String::new();
        let mut i: usize = 0;
        while i < safe.len()
            invariant
                all == safe@ + unsafe_@,
                i <= safe@.len(),
                text@ == params_text(all.take(i as int)),
            decreases safe@.len() - i,
        {
            let p = &safe[i];
            assert(*p == all[i as int]);
            if i > 0 {
                text.append(", ");
            }
            text.append(p.key.as_str());
            text.append(": ");
            text.append(p.value.as_str());
            assert(all.take(i + 1).drop_last() =~= all.take(i as int));
            i = i + 1;
        }
        let mut j: usize = 0;
        while j < unsafe_.len()
            invariant
                all == safe@ + unsafe_@,
                j <= unsafe_@.len(),
                text@ == params_text(all.take(safe@.len() + j)),
            decreases unsafe_@.len() - j,
        {
            let p = &unsafe_[j];
            let ghost k = safe@.len() + j;
            assert(*p == all[k]);
            if safe.len() > 0 || j > 0 {
                text.append(", ");
            }
            text.append(p.key.as_str());
            text.append(": ");
            text.append(p.value.as_str());
            assert(all.take(k + 1).drop_last() =~= all.take(k));
            j = j + 1;
        }
        assert(all.take(all.len() as int) =~= all);
        let mut out = self.name.clone();
        out.append(" (");
        out.append(self.code.as_str());
        out.append(", id: ");
        out.append(self.id.as_str());
        out.append(") (");
        out.append(text.as_str());
        out.append(")\nCaused by: ");
        out.append(self.cause.as_str());
        out
    }
}

/// An error built for a code, once serialized, parses back to that code.
pub proof fn lemma_code_round_trip(error: ErrorView, code: Code)
    requires
        error == error.with_type(code),
    ensures
        spec_parse_code(error.serialized()) == Some(code),
{
    let s = error.serialized();
    assert(s.params =~= Map::<Seq<char>, Seq<char>>::empty());
    assert(s.name == qualified_name("Default"@, code.spec_variant_name()));
    let chosen = choose|c: Code| s.name == qualified_name("Default"@, #[trigger] c.spec_variant_name());
    lemma_prefix_cancel("Default"@ + ":"@, chosen.spec_variant_name(), code.spec_variant_name());
    lemma_code_names_distinct(chosen, code);
}

/// Parameters added to an error after it was made are logged, not serialized: adding a safe or
/// an unsafe parameter, or a backtrace, leaves the serialized error as it was.
pub proof fn lemma_added_params_not_serialized(error: ErrorView, key: Seq<char>, value: Seq<char>)
    ensures
        (ErrorView { safe_params: error.safe_params.insert(key, value), ..error }).serialized()
            == error.serialized(),
        (ErrorView { unsafe_params: error.unsafe_params.insert(key, value), ..error }).serialized()
            == error.serialized(),
        (ErrorView { backtrace_count: error.backtrace_count + 1, ..error }).serialized()
            == error.serialized(),
{
}

/// Giving an error a type replaces whatever type it had: the last type given is all that counts.
pub proof fn lemma_with_type_replaces<A: ErrorType, B: ErrorType>(error: ErrorView, first: A, second: B)
    ensures
        error.with_type(first).with_type(second) == error.with_type(second),
{
}

} // verus!
