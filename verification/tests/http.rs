use conjure_verification::client::{
    into_error, BytesBody, Body, ContentDecoding, Json, RemoteError, ResponseFormat,
};
use conjure_verification::error::{Code, Error};
use conjure_verification::media::{
    content_type, mime_matches, Format, MediaParam, MediaType, QualityItem, SerializableFormat,
};
use conjure_verification::params::Params;
use conjure_verification::quality::quality_order;
use conjure_verification::request::RequestParams;
use conjure_verification::server::{
    body_error, error_response, options, serialized_response, Body as ResponseBody, Header,
    NoContent, Request, RequestError, StreamedSerializable,
};
use std::cmp::Ordering;

fn mime(t: &str, s: &str, params: &[(&str, &str)]) -> MediaType {
    MediaType {
        type_: t.to_string(),
        subtype: s.to_string(),
        params: params
            .iter()
            .map(|(n, v)| MediaParam { name: n.to_string(), value: v.to_string() })
            .collect(),
    }
}

fn q(item: MediaType, quality: u16) -> QualityItem {
    QualityItem { item, quality }
}

fn headers(r: &conjure_verification::server::Response) -> Vec<(String, String)> {
    r.headers.iter().map(|h| (h.name.clone(), h.value.clone())).collect()
}

#[test]
fn mime_matching() {
    let json = mime("application", "json", &[("charset", "utf-8")]);
    assert!(mime_matches(&json, &mime("*", "*", &[])));
    assert!(mime_matches(&json, &mime("application", "*", &[])));
    assert!(mime_matches(&json, &mime("application", "json", &[("charset", "utf-8")])));
    assert!(!mime_matches(&json, &mime("application", "json", &[("charset", "latin1")])));
    assert!(mime_matches(&json, &mime("application", "json", &[("q", "1")])));
    assert!(!mime_matches(&json, &mime("text", "plain", &[])));
    assert!(SerializableFormat::Json.matches(&mime("application", "json", &[])));
}

#[test]
fn negotiation_picks_first_acceptable_format() {
    let accept = vec![q(mime("text", "plain", &[]), 1000), q(mime("*", "*", &[]), 500)];
    let formats = [SerializableFormat::Json];
    assert!(content_type(&accept, &formats).is_some());
    let none = vec![q(mime("text", "plain", &[]), 1000)];
    assert!(content_type(&none, &formats).is_none());
}

#[test]
fn quality_ordering() {
    let a = q(mime("*", "*", &[]), 500);
    let b = q(mime("application", "json", &[]), 500);
    let c = q(mime("application", "*", &[]), 900);
    assert_eq!(quality_order(&a, &b), Ordering::Less);
    assert_eq!(quality_order(&b, &a), Ordering::Greater);
    assert_eq!(quality_order(&b, &c), Ordering::Less);
    assert_eq!(quality_order(&a, &a), Ordering::Equal);
}

fn request(accept: Header<Vec<QualityItem>>, content: Header<MediaType>) -> Request {
    let mut path = Params::new();
    path.insert("id".to_string(), "42".to_string());
    let mut query = RequestParams::new();
    query.add("single", "one");
    query.add("multi", "a");
    query.add("multi", "b");
    Request::new(path, query, content, accept)
}

#[test]
fn request_parameters() {
    let r = request(Header::Absent, Header::Absent);
    assert_eq!(r.path_param("id"), "42");
    let text = |t: &str| Some(t.to_string());
    assert_eq!(r.query_param("single", text).ok(), Some("one".to_string()));
    assert_eq!(r.opt_query_param("absent", text).ok(), Some(None));
    assert!(matches!(
        r.query_param("absent", text),
        Err(RequestError::MissingQueryParameter { ref parameter }) if parameter == "absent"
    ));
    assert!(matches!(
        r.opt_query_param("multi", text),
        Err(RequestError::DuplicateQueryParameter { ref parameter }) if parameter == "multi"
    ));
    assert_eq!(r.multi_query_param("multi"), vec!["a".to_string(), "b".to_string()]);
    assert!(r.multi_query_param("absent").is_empty());
    let mut query = RequestParams::new();
    query.add("n", "17");
    query.add("bad", "x");
    let typed = Request::new(Params::new(), query, Header::Absent, Header::Absent);
    let number = |t: &str| t.parse::<u32>().ok();
    assert_eq!(typed.opt_query_param("n", number).ok(), Some(Some(17)));
    assert_eq!(typed.query_param("n", number).ok(), Some(17));
    assert_eq!(typed.opt_query_param("absent", number).ok(), Some(None));
    assert!(matches!(
        typed.opt_query_param("bad", number),
        Err(RequestError::InvalidQueryParameter { ref parameter }) if parameter == "bad"
    ));
    assert!(matches!(
        typed.query_param("bad", number),
        Err(RequestError::InvalidQueryParameter { ref parameter }) if parameter == "bad"
    ));
}

#[test]
fn request_formats() {
    let formats = [SerializableFormat::Json];
    let r = request(Header::Absent, Header::Present(mime("application", "json", &[])));
    assert!(r.response_format(&formats).is_ok());
    assert!(matches!(r.body_format(), Ok(SerializableFormat::Json)));

    let r = request(
        Header::Present(vec![q(mime("text", "html", &[]), 1000)]),
        Header::Present(mime("text", "plain", &[])),
    );
    assert!(matches!(r.response_format(&formats), Err(RequestError::NotAcceptable)));
    assert!(matches!(r.body_format(), Err(RequestError::UnsupportedContentType)));

    let r = request(Header::Malformed("bad".to_string()), Header::Absent);
    assert!(matches!(r.response_format(&formats), Err(RequestError::InvalidHeader)));
    assert!(matches!(r.body_format(), Err(RequestError::UnsupportedContentType)));

    assert!(matches!(body_error(true, true), RequestError::RequestEntityTooLarge));
    assert!(matches!(body_error(false, true), RequestError::ClientIo));
    assert!(matches!(body_error(false, false), RequestError::InvalidRequestBody));
}

#[test]
fn server_responses() {
    let r = NoContent.into_response();
    assert_eq!(r.status, 204);
    assert_eq!(headers(&r), vec![("access-control-allow-origin".to_string(), "*".to_string())]);

    let o = options();
    assert_eq!(o.status, 200);
    assert_eq!(headers(&o)[1].1, "POST, GET, OPTIONS");
    assert_eq!(headers(&o)[2].1, "Content-Type, Some-Header, Fetch-User-Agent");

    let s = serialized_response(SerializableFormat::Json, b"{}".to_vec());
    assert_eq!(s.status, 200);
    assert_eq!(
        headers(&s),
        vec![
            ("content-type".to_string(), "application/json".to_string()),
            ("content-length".to_string(), "2".to_string()),
            ("access-control-allow-origin".to_string(), "*".to_string()),
        ]
    );

    let e = Error::new("missing", Code::NotFound);
    let er = error_response(&e, b"abc".to_vec());
    assert_eq!(er.status, 404);
    assert!(matches!(er.body, ResponseBody::Fixed(ref b) if b == b"abc"));

    let req = request(Header::Absent, Header::Absent);
    let (resp, value) = StreamedSerializable(5u32).into_response(&req).ok().unwrap();
    assert_eq!(value, 5);
    assert!(matches!(resp.body, ResponseBody::Streaming(SerializableFormat::Json)));
}

#[test]
fn client_response_formats() {
    assert!(matches!(
        ResponseFormat::new(&Header::Present(mime("application", "json", &[])), "json"),
        Ok(ResponseFormat::Json)
    ));
    assert!(matches!(
        ResponseFormat::new(&Header::Present(mime("application", "cbor", &[])), "cbor"),
        Ok(ResponseFormat::Cbor)
    ));
    assert!(matches!(
        ResponseFormat::new(&Header::Present(mime("application", "octet-stream", &[])), "o"),
        Ok(ResponseFormat::OctetStream)
    ));
    let err = ResponseFormat::new(&Header::Present(mime("text", "plain", &[])), "ContentType(text/plain)")
        .err()
        .unwrap();
    assert_eq!(err.cause(), "unsupported Content-Type");
    assert_eq!(err.safe_params().get("type").map(|s| s.as_str()), Some("ContentType(text/plain)"));
    let missing = ResponseFormat::new(&Header::Absent, "").err().unwrap();
    assert_eq!(missing.cause(), "Content-Type header missing");
}

#[test]
fn client_content_decoding() {
    assert!(matches!(ContentDecoding::of(&Header::Absent, ""), Ok(ContentDecoding::Identity)));
    assert!(matches!(
        ContentDecoding::of(&Header::Present(vec!["gzip".to_string()]), ""),
        Ok(ContentDecoding::Gzip)
    ));
    assert!(matches!(
        ContentDecoding::of(&Header::Present(vec!["deflate".to_string()]), ""),
        Ok(ContentDecoding::Deflate)
    ));
    let err = ContentDecoding::of(&Header::Present(vec!["br".to_string()]), "[br]")
        .err()
        .unwrap();
    assert_eq!(err.cause(), "unsupported Content-Encoding");
    assert_eq!(err.safe_params().get("encoding").map(|s| s.as_str()), Some("[br]"));
}

#[test]
fn remote_errors() {
    let r = RemoteError::new(503, None);
    assert_eq!(r.to_string(), "remote error: 503 Service Unavailable");
    assert_eq!(r.status(), 503);
    assert_eq!(RemoteError::new(599, None).to_string(), "remote error: 599 <unknown status code>");
    let e = into_error(500, None, b"oops \xff");
    assert_eq!(e.cause(), "remote error: 500 Internal Server Error");
    assert_eq!(e.code(), Code::Internal);
    assert_eq!(
        e.unsafe_params().get("body").map(|s| s.as_str()),
        Some("oops \u{FFFD}")
    );
    let remote = Error::new("x", Code::NotFound).serializable();
    let id = remote.id().to_string();
    let e = into_error(404, Some(remote), b"ignored");
    assert_eq!(
        e.cause(),
        format!("remote error: NOT_FOUND (Default:NotFound) with instance ID {}", id)
    );
    assert!(e.unsafe_params().is_empty());
    let long = vec![b'a'; 10 * 1024 + 5];
    let e = into_error(502, None, &long);
    assert_eq!(e.cause(), "remote error: 502 Bad Gateway");
    assert_eq!(e.unsafe_params().get("body").map(|s| s.len()), Some(10 * 1024));
}

#[test]
fn request_bodies() {
    let mut body = Json(()).into_body(b"{\"a\":1}".to_vec());
    assert_eq!(body.content_length(), Some(7));
    assert_eq!(body.content_type().subtype, "json");
    assert_eq!(body.full_body(), Some(b"{\"a\":1}".to_vec()));
    assert!(body.reset());
    let raw = BytesBody::new(vec![1, 2, 3], mime("application", "octet-stream", &[]));
    assert_eq!(raw.content_length(), Some(3));
}
