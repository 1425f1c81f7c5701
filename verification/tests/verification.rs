use conjure_verification::cases::{PositiveAndNegativeTestCases, TestCase, TestType};
use conjure_verification::error::{Code, Error, ErrorType};
use conjure_verification::verification_client::{
    prepare_test_run, plan_positive_check, PositiveCheck, check_negative_status, check_positive_status, construct_client, find_test_cases, get_endpoint,
    server_connection_error, test_request, ServerTestCases,
};
use conjure_verification::verification_error::{
    assert_content_type, get_test_case_at_index, VerificationError,
};

fn cases() -> PositiveAndNegativeTestCases {
    PositiveAndNegativeTestCases {
        positive: vec!["1".to_string(), "2".to_string()],
        negative: vec!["x".to_string()],
    }
}

#[test]
fn test_case_lookup() {
    match get_test_case_at_index(&cases(), 1).ok().unwrap() {
        TestCase::Positive(t) => assert_eq!(t.0, "2"),
        TestCase::Negative(_) => panic!("expected a positive case"),
    }
    match get_test_case_at_index(&cases(), 2).ok().unwrap() {
        TestCase::Negative(t) => assert_eq!(t.0, "x"),
        TestCase::Positive(_) => panic!("expected a negative case"),
    }
    let err = get_test_case_at_index(&cases(), 3).err().unwrap();
    assert_eq!(err.cause(), "Index out of bounds");
    assert_eq!(err.code(), Code::InvalidArgument);
    assert_eq!(err.name(), "ConjureVerificationClient:IndexOutOfBounds");
    assert_eq!(err.safe_params().get("index").map(|s| s.as_str()), Some("3"));
    assert_eq!(err.safe_params().get("maxIndex").map(|s| s.as_str()), Some("3"));
}

#[test]
fn content_type_assertion() {
    let expected = vec![Some("application/json".to_string()), None];
    assert!(assert_content_type(&Some("application/json".to_string()), &expected).is_ok());
    assert!(assert_content_type(&None, &expected).is_ok());
    let err = assert_content_type(&Some("text/plain".to_string()), &vec![None]).err().unwrap();
    assert_eq!(err.cause(), "Did not expect content type");
    assert_eq!(err.safe_params().get("contentType").map(|s| s.as_str()), Some("text/plain"));
    let err = assert_content_type(&None, &vec![]).err().unwrap();
    assert_eq!(err.safe_params().get("contentType").map(|s| s.as_str()), Some("<empty>"));
}

fn round_trips(e: VerificationError) -> bool {
    let name = e.name();
    let s = Error::new("", e).serializable();
    match VerificationError::parse(&s) {
        Some(back) => back.name() == name && Error::new("", back).serializable().params().len() == s.params().len(),
        None => false,
    }
}

#[test]
fn verification_errors_parse_back() {
    assert!(round_trips(VerificationError::IndexOutOfBounds { index: 4, max_index: 3 }));
    assert!(round_trips(VerificationError::UnexpectedBody { body_size: 12 }));
    assert!(round_trips(VerificationError::ClientIo));
    assert!(round_trips(VerificationError::UnexpectedResponseCode { code: 404 }));
    assert!(round_trips(VerificationError::ConfirmationFailure {
        expected_body_raw: "a".to_string(),
        expected_body_conjure: "b".to_string(),
        response_body_raw: "c".to_string(),
        response_body_conjure: "d".to_string(),
        cause: "e".to_string(),
    }));
    let parsed = VerificationError::parse(
        &Error::new("", VerificationError::UrlParseFailure { url: "::".to_string() }).serializable(),
    );
    match parsed {
        Some(VerificationError::UrlParseFailure { url }) => assert_eq!(url, "::"),
        _ => panic!("expected the URL parse failure back"),
    }
    assert!(VerificationError::parse(&Error::new("", Code::Internal).serializable()).is_none());
    assert!(TestType::Body != TestType::SinglePathParam);
}

fn server_cases() -> ServerTestCases {
    ServerTestCases { auto_deserialize: vec![("receiveStringAliasExample".to_string(), cases())] }
}

#[test]
fn endpoint_lookup() {
    let all = server_cases();
    assert_eq!(find_test_cases(&all, "receiveStringAliasExample").ok().unwrap().positive.len(), 2);
    let err = find_test_cases(&all, "nope").err().unwrap();
    assert_eq!(err.cause(), "Unable to find corresponding test case");
    assert_eq!(err.name(), "ConjureVerificationClient:InvalidEndpointParameter");
    assert_eq!(err.safe_params().get("endpointName").map(|s| s.as_str()), Some("nope"));
    let err = get_endpoint(&all, "nope").err().unwrap();
    assert_eq!(err.cause(), "No such endpoint");
}

#[test]
fn verification_client_requests() {
    let client = construct_client("http://localhost:8000").ok().unwrap();
    let request = test_request(&client, "receiveStringAliasExample");
    let (segments, query) = request.target().ok().unwrap();
    assert_eq!(segments, vec!["body", "receiveStringAliasExample"]);
    assert!(query.is_empty());
    let mut with_path = construct_client("http://localhost:8000/api/").ok().unwrap();
    let node = with_path.get_refresh().nodes.iter().unwrap().get().as_str().to_string();
    assert_eq!(node, "http://localhost:8000/api");
    let err = construct_client("not a url").err().unwrap();
    assert_eq!(err.name(), "ConjureVerificationClient:UrlParseFailure");
    assert_eq!(err.unsafe_params().get("url").map(|s| s.as_str()), Some("not a url"));

    assert!(check_positive_status(200).is_ok());
    let err = check_positive_status(500).err().unwrap();
    assert_eq!(err.cause(), "Wasn't successful");
    assert_eq!(err.safe_params().get("code").map(|s| s.as_str()), Some("500"));
    assert!(check_negative_status(400).is_ok());
    assert_eq!(
        check_negative_status(200).err().unwrap().cause(),
        "Unexpected response, expected client error"
    );
    let err = server_connection_error("refused");
    assert_eq!(err.safe_params().get("cause").map(|s| s.as_str()), Some("refused"));
    assert_eq!(err.code(), Code::FailedPrecondition);
}

#[test]
fn positive_check_plans() {
    assert!(matches!(plan_positive_check(204, &None, true), Ok(PositiveCheck::AcceptEmpty)));
    assert!(matches!(
        plan_positive_check(200, &Some("application/json".to_string()), false),
        Ok(PositiveCheck::CompareJson)
    ));
    assert!(matches!(
        plan_positive_check(200, &Some("application/octet-stream".to_string()), true),
        Ok(PositiveCheck::CompareBinary)
    ));
    assert_eq!(
        plan_positive_check(204, &None, false).err().unwrap().cause(),
        "Did not expect content type"
    );
    assert_eq!(plan_positive_check(404, &None, true).err().unwrap().cause(), "Wasn't successful");
}

#[test]
fn test_runs_are_prepared() {
    let all = server_cases();
    let run = prepare_test_run(&all, "receiveStringAliasExample", 2, "http://localhost:8000").ok().unwrap();
    assert!(matches!(run.case, TestCase::Negative(ref t) if t.0 == "x"));
    assert!(run.request.target().is_ok());
    let err = prepare_test_run(&all, "missing", 0, "http://localhost:8000").err().unwrap();
    assert_eq!(err.cause(), "Unable to find corresponding test case");
    let err = prepare_test_run(&all, "receiveStringAliasExample", 9, "http://localhost:8000").err().unwrap();
    assert_eq!(err.cause(), "Index out of bounds");
    let err = prepare_test_run(&all, "receiveStringAliasExample", 0, "::").err().unwrap();
    assert_eq!(err.name(), "ConjureVerificationClient:UrlParseFailure");
}

#[test]
fn test_content_type_error() {
    let err = plan_positive_check(200, &Some("text/plain".to_string()), false).err().unwrap();
    assert_eq!(err.name(), "ConjureVerificationClient:UnexpectedContentType");
    let err = plan_positive_check(200, &None, false).err().unwrap();
    assert_eq!(err.name(), "ConjureVerificationClient:UnexpectedContentType");
}

#[test]
fn test_returns_204() {
    assert!(matches!(plan_positive_check(204, &None, true), Ok(PositiveCheck::AcceptEmpty)));
}
