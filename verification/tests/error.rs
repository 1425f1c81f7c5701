use conjure_verification::error::{Code, Error, ErrorType, SerializableError};
use conjure_verification::params::Params;

struct TestType;

impl ErrorType for TestType {
    const NAMESPACE: &'static str = "Test";

    fn code(&self) -> Code {
        Code::CustomClient
    }

    fn name(&self) -> &'static str {
        "Name"
    }

    fn safe_params(&self) -> Params {
        let mut p = Params::new();
        p.insert("foo".to_string(), "bar".to_string());
        p
    }

    fn unsafe_params(&self) -> Params {
        let mut p = Params::new();
        p.insert("fizz".to_string(), "buzz".to_string());
        p
    }

    fn parse(_: &SerializableError) -> Option<TestType> {
        None
    }
}

#[test]
fn to_serializable() {
    let error = Error::new("", TestType);
    let serializable = error.serializable();

    assert_eq!(serializable.code(), "CUSTOM_CLIENT");
    assert_eq!(serializable.name(), "Test:Name");
    assert_eq!(serializable.id(), error.id().to_string());

    let params = serializable.params();
    assert_eq!(params.len(), 2);
    assert_eq!(params.get("foo").map(|s| s.as_str()), Some("bar"));
    assert_eq!(params.get("fizz").map(|s| s.as_str()), Some("buzz"));
}

#[derive(PartialEq, Debug, Clone)]
enum FoobarError {
    BadFuzz,
    InvalidFizz { the_count: u32, expected: String },
}

impl ErrorType for FoobarError {
    const NAMESPACE: &'static str = "Foobar";

    fn code(&self) -> Code {
        match *self {
            FoobarError::BadFuzz => Code::InvalidArgument,
            FoobarError::InvalidFizz { .. } => Code::NotFound,
        }
    }

    fn name(&self) -> &'static str {
        match *self {
            FoobarError::BadFuzz => "BadFuzz",
            FoobarError::InvalidFizz { .. } => "InvalidFizz",
        }
    }

    fn safe_params(&self) -> Params {
        let mut p = Params::new();
        if let FoobarError::InvalidFizz { ref expected, .. } = *self {
            p.insert("expected".to_string(), expected.to_string());
        }
        p
    }

    fn unsafe_params(&self) -> Params {
        let mut p = Params::new();
        if let FoobarError::InvalidFizz { the_count, .. } = *self {
            p.insert("theCount".to_string(), the_count.to_string());
        }
        p
    }

    fn parse(error: &SerializableError) -> Option<FoobarError> {
        let params = error.params();
        match error.name() {
            "Foobar:BadFuzz" => {
                if params.len() != 0 {
                    return None;
                }
                Some(FoobarError::BadFuzz)
            }
            "Foobar:InvalidFizz" => {
                if params.len() != 2 {
                    return None;
                }
                Some(FoobarError::InvalidFizz {
                    the_count: params.get("theCount").and_then(|s| s.parse().ok())?,
                    expected: params.get("expected").and_then(|s| s.parse().ok())?,
                })
            }
            _ => None,
        }
    }
}

fn round_trip<T>(error: T)
where
    T: Clone + ErrorType + PartialEq + std::fmt::Debug,
{
    let e = Error::new("", error.clone());
    let s = e.serializable();
    assert_eq!(T::parse(&s), Some(error));
}

#[test]
fn error_type_basic() {
    assert_eq!(FoobarError::NAMESPACE, "Foobar");
    let e = FoobarError::BadFuzz;
    assert_eq!(e.code(), Code::InvalidArgument);
    assert_eq!(e.name(), "BadFuzz");
    assert!(e.safe_params().is_empty());
    assert!(e.unsafe_params().is_empty());
    round_trip(e);

    let e = FoobarError::InvalidFizz {
        the_count: 10,
        expected: "foobar".to_string(),
    };
    assert_eq!(e.code(), Code::NotFound);
    assert_eq!(e.name(), "InvalidFizz");
    let safe = e.safe_params();
    assert_eq!(safe.len(), 1);
    assert_eq!(safe.get("expected").map(|s| s.as_str()), Some("foobar"));
    let unsafe_params = e.unsafe_params();
    assert_eq!(unsafe_params.len(), 1);
    assert_eq!(unsafe_params.get("theCount").map(|s| s.as_str()), Some("10"));
    round_trip(e);
}

#[test]
fn code_round_trip() {
    let e = Error::new("boom", Code::Timeout);
    let s = e.serializable();
    assert_eq!(s.code(), "TIMEOUT");
    assert_eq!(s.name(), "Default:Timeout");
    assert_eq!(Code::parse(&s), Some(Code::Timeout));
    assert_eq!(Code::Timeout.http_error_code(), 500);
    assert_eq!(Code::NotFound.http_error_code(), 404);
}

#[test]
fn error_builders() {
    let e = Error::internal_safe("cause")
        .with_safe_param("a", "1")
        .with_unsafe_param("b", "2")
        .with_backtrace();
    assert_eq!(e.cause(), "cause");
    assert!(!e.cause_safe());
    assert_eq!(e.code(), Code::Internal);
    assert_eq!(e.name(), "Default:Internal");
    assert_eq!(e.safe_params().get("a").map(|s| s.as_str()), Some("1"));
    assert_eq!(e.unsafe_params().get("b").map(|s| s.as_str()), Some("2"));
    assert_eq!(e.backtraces().len(), 2);
    assert_eq!(e.id().len(), 36);
    let p = Error::permission_denied("no").with_type(Code::Conflict);
    assert_eq!(p.code(), Code::Conflict);
    assert!(!p.cause_safe());
}

#[test]
fn error_description() {
    let e = Error::new_safe("it broke", Code::NotFound).with_safe_param("a", "1");
    let text = e.to_string();
    assert_eq!(
        text,
        format!("Default:NotFound (NOT_FOUND, id: {}) (a: 1)\nCaused by: it broke", e.id())
    );
    let plain = Error::internal("x");
    assert_eq!(
        plain.to_string(),
        format!("Default:Internal (INTERNAL, id: {}) ()\nCaused by: x", plain.id())
    );
}

#[test]
fn added_params_are_not_serialized() {
    let e = Error::new("", TestType);
    let before = e.serializable();
    let e = e.with_safe_param("extra", "x").with_unsafe_param("more", "y").with_backtrace();
    let after = e.serializable();
    assert_eq!(before.params().len(), after.params().len());
    assert_eq!(after.params().get("extra"), None);
    assert_eq!(after.params().get("more"), None);
    assert_eq!(before.name(), after.name());
}

#[test]
fn with_type_replaces_the_type() {
    let e = Error::new("", TestType).with_type(Code::Conflict);
    assert_eq!(e.code(), Code::Conflict);
    assert_eq!(e.name(), "Default:Conflict");
    assert!(e.safe_params().is_empty());
    assert!(e.serializable().params().is_empty());
    let safe = Error::new_safe("kept", Code::NotFound).with_backtrace();
    let id = safe.id().to_string();
    let retyped = safe.with_type(Code::Conflict);
    assert_ne!(retyped.id(), id);
    assert_eq!(retyped.id().len(), 36);
    assert_eq!(retyped.cause(), "kept");
    assert!(!retyped.cause_safe());
    assert_eq!(retyped.backtraces().len(), 2);
}
