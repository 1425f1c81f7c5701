use vstd::prelude::*;
use crate::error::Error;
use crate::media::{
    content_type, media_matches, json_mime, Format, MediaType, QualityItem,
    SerializableFormat, acceptable, accepted_types,
};
use crate::params::Params;
use crate::request::{name_index, RequestParams};
use crate::text::{decimal, lemma_views_push, push_decimal, views};

verus! {

broadcast use vstd::string::group_string_axioms;

/// What a request header holds: nothing, text that does not parse (with the parser's message),
/// or a parsed value.
pub enum Header<T> {
    Absent,
    Malformed(String),
    Present(T),
}

/// Why a request cannot be served as asked.
pub enum RequestError {
    /// The body has no content type, or one this library does not read.
    UnsupportedContentType,
    /// A header does not parse.
    InvalidHeader,
    /// No format the client accepts can be produced.
    NotAcceptable,
    /// A required query parameter is missing.
    MissingQueryParameter { parameter: String },
    /// A single-valued query parameter was given other than once.
    DuplicateQueryParameter { parameter: String },
    /// A query parameter does not parse.
    InvalidQueryParameter { parameter: String },
    /// The body is longer than the limit.
    RequestEntityTooLarge,
    /// Reading the body failed.
    ClientIo,
    /// The body does not parse.
    InvalidRequestBody,
}

/// The longest body a request may have, in bytes.
pub const BODY_SIZE_LIMIT_BYTES: u64 = 1024 * 1024;

/// An incoming request, as far as the library reads it: its path and query parameters and the
/// headers that choose the body formats.
pub struct Request {
    path_params: Params,
    query_params: RequestParams,
    content_type: Header<MediaType>,
    accept: Header<Vec<QualityItem>>,
}

impl Request {
    /// Creates a request.
    pub fn new(
        path_params: Params,
        query_params: RequestParams,
        content_type: Header<MediaType>,
        accept: Header<Vec<QualityItem>>,
    ) -> (res: Request)
        ensures
            res.spec_path_params() == path_params@,
            res.spec_query_params() == query_params@,
            res.spec_content_type() == content_type,
            res.spec_accept() == accept,
    {
        Request { path_params, query_params, content_type, accept }
    }

    /// The path parameters.
    pub closed spec fn spec_path_params(&self) -> Map<Seq<char>, Seq<char>> {
        self.path_params@
    }

    /// The query parameters.
    pub closed spec fn spec_query_params(&self) -> Seq<(Seq<char>, Seq<Seq<char>>)> {
        self.query_params@
    }

    /// The `Content-Type` header.
    pub closed spec fn spec_content_type(&self) -> Header<MediaType> {
        self.content_type
    }

    /// The `Accept` header.
    pub closed spec fn spec_accept(&self) -> Header<Vec<QualityItem>> {
        self.accept
    }

    /// The values given for query parameter `name`, none if it was not given.
    pub open spec fn query_values(&self, name: Seq<char>) -> Seq<Seq<char>> {
        match name_index(self.spec_query_params(), name) {
            Some(i) => self.spec_query_params()[i].1,
            None => Seq::empty(),
        }
    }

    /// Returns the value of the path parameter `name`, which the route must define.
    pub fn path_param(&self, name: &str) -> (res: &str)
        requires
            self.spec_path_params().contains_key(name@),
        ensures
            res@ == self.spec_path_params()[name@],
    {
        match self.path_params.get(name) {
            Some(v) => v.as_str(),
            None => {
                assert(false);
                ""
            },
        }
    }

    /// Returns the query parameters.
    pub fn query_params(&self) -> (res: &RequestParams)
        ensures
            res@ == self.spec_query_params(),
    {
        &self.query_params
    }

    /// Returns every value given for query parameter `name`, in order; none if it was not given.
    pub fn multi_query_param(&self, name: &str) -> (res: Vec<String>)
        ensures
            views(res@) == self.query_values(name@),
    {
        match self.query_params.get(name) {
            Some(values) => {
                let mut out: Vec<String> = Vec::new();
                let mut i: usize = 0;
                while i < values.len()
                    invariant
                        i <= values@.len(),
                        views(out@) == views(values@).take(i as int),
                    decreases values@.len() - i,
                {
                    let c = values[i].clone();
                    let ghost before = out@;
                    out.push(c);
                    proof {
                        lemma_views_push(before, c);
                    }
                    assert(views(out@) =~= views(values@).take(i + 1));
                    i = i + 1;
                }
                assert(views(values@).take(values@.len() as int) =~= views(values@));
                out
            },
            None => {
                let out: Vec<String> = Vec::new();
                assert(views(out@) =~= Seq::<Seq<char>>::empty());
                out
            },
        }
    }

    /// Returns the text of the single-valued query parameter `name`, if it was given; it is an
    /// error to give it more than once.
    fn single_query_text(&self, name: &str) -> (res: Result<Option<String>, RequestError>)
        ensures
            match name_index(self.spec_query_params(), name@) {
                None => res matches Ok(None),
                Some(i) => if self.spec_query_params()[i].1.len() == 1 {
                    res matches Ok(Some(v)) && v@ == self.spec_query_params()[i].1[0]
                } else {
                    res matches Err(RequestError::DuplicateQueryParameter { parameter }) && parameter@
                        == name@
                },
            },
    {
        match self.query_params.get(name) {
            Some(values) => {
                if values.len() == 1 {
                    Ok(Some(values[0].clone()))
                } else {
                    Err(RequestError::DuplicateQueryParameter { parameter: name.to_string() })
                }
            },
            None => Ok(None),
        }
    }

    /// Returns the value of the single-valued query parameter `name`, if it was given, read by
    /// `parse`: it is an error to give it more than once (or with an empty list of values), or a
    /// value that `parse` does not read.
    pub fn opt_query_param<T, F: Fn(&str) -> Option<T>>(&self, name: &str, parse: F) -> (res: Result<Option<T>, RequestError>)
        requires
            forall|text: &str| parse.requires((text,)),
        ensures
            match name_index(self.spec_query_params(), name@) {
                None => res matches Ok(None),
                Some(i) => if self.spec_query_params()[i].1.len() == 1 {
                    exists|text: &str|
                        text@ == self.spec_query_params()[i].1[0] && match res {
                            Ok(Some(v)) => parse.ensures((text,), Some(v)),
                            Err(RequestError::InvalidQueryParameter { parameter }) => parameter@ == name@
                                && parse.ensures((text,), None),
                            _ => false,
                        }
                } else {
                    res matches Err(RequestError::DuplicateQueryParameter { parameter }) && parameter@
                        == name@
                },
            },
    {
        match self.single_query_text(name) {
            Ok(Some(text)) => match parse(text.as_str()) {
                Some(v) => Ok(Some(v)),
                None => Err(RequestError::InvalidQueryParameter { parameter: name.to_string() }),
            },
            Ok(None) => Ok(None),
            Err(e) => Err(e),
        }
    }

    /// Returns the value of the single-valued query parameter `name`, read by `parse`, which
    /// must be given exactly once, with a value that `parse` reads.
    pub fn query_param<T, F: Fn(&str) -> Option<T>>(&self, name: &str, parse: F) -> (res: Result<T, RequestError>)
        requires
            forall|text: &str| parse.requires((text,)),
        ensures
            match name_index(self.spec_query_params(), name@) {
                None => res matches Err(RequestError::MissingQueryParameter { parameter }) && parameter@
                    == name@,
                Some(i) => if self.spec_query_params()[i].1.len() == 1 {
                    exists|text: &str|
                        text@ == self.spec_query_params()[i].1[0] && match res {
                            Ok(v) => parse.ensures((text,), Some(v)),
                            Err(RequestError::InvalidQueryParameter { parameter }) => parameter@ == name@
                                && parse.ensures((text,), None),
                            _ => false,
                        }
                } else {
                    res matches Err(RequestError::DuplicateQueryParameter { parameter }) && parameter@
                        == name@
                },
            },
    {
        match self.opt_query_param(name, parse) {
            Ok(Some(v)) => Ok(v),
            Ok(None) => Err(RequestError::MissingQueryParameter { parameter: name.to_string() }),
            Err(e) => Err(e),
        }
    }

    /// Chooses the format of the response body among `formats`: the first when the client
    /// states no preference, else the first that the client accepts.
    pub fn response_format<'f, T: Format>(&self, formats: &'f [T]) -> (res: Result<&'f T, RequestError>)
        requires
            formats@.len() > 0,
        ensures
            match self.spec_accept() {
                Header::Absent => res matches Ok(f) && *f == formats@[0],
                Header::Malformed(_) => res matches Err(RequestError::InvalidHeader),
                Header::Present(accept) => match res {
                    Ok(f) => exists|i: int|
                        0 <= i < formats@.len() && formats@[i] == *f && acceptable(
                            formats@[i],
                            accepted_types(accept@),
                        ) && forall|k: int|
                            0 <= k < i ==> !acceptable(
                                #[trigger] formats@[k],
                                accepted_types(accept@),
                            ),
                    Err(e) => e is NotAcceptable && forall|i: int|
                        0 <= i < formats@.len() ==> !acceptable(
                            #[trigger] formats@[i],
                            accepted_types(accept@),
                        ),
                },
            },
    {
        match &self.accept {
            Header::Absent => Ok(&formats[0]),
            Header::Malformed(_) => Err(RequestError::InvalidHeader),
            Header::Present(accept) => match content_type(accept.as_slice(), formats) {
                Some(f) => Ok(f),
                None => Err(RequestError::NotAcceptable),
            },
        }
    }

    /// Chooses the format in which to read the request body from its content type.
    pub fn body_format(&self) -> (res: Result<SerializableFormat, RequestError>)
        ensures
            match self.spec_content_type() {
                Header::Absent => res matches Err(RequestError::UnsupportedContentType),
                Header::Malformed(_) => res matches Err(RequestError::InvalidHeader),
                Header::Present(mime) => if media_matches(json_mime(), mime@) {
                    res matches Ok(SerializableFormat::Json)
                } else {
                    res matches Err(RequestError::UnsupportedContentType)
                },
            },
    {
        match &self.content_type {
            Header::Absent => Err(RequestError::UnsupportedContentType),
            Header::Malformed(_) => Err(RequestError::InvalidHeader),
            Header::Present(mime) => {
                if SerializableFormat::Json.matches(mime) {
                    Ok(SerializableFormat::Json)
                } else {
                    Err(RequestError::UnsupportedContentType)
                }
            },
        }
    }
}

/// Why reading a request body failed: the size limit was used up, the read itself failed, or the
/// text did not parse.
pub fn body_error(limit_exhausted: bool, is_io: bool) -> (res: RequestError)
    ensures
        limit_exhausted ==> res is RequestEntityTooLarge,
        !limit_exhausted && is_io ==> res is ClientIo,
        !limit_exhausted && !is_io ==> res is InvalidRequestBody,
{
    if limit_exhausted {
        RequestError::RequestEntityTooLarge
    } else if is_io {
        RequestError::ClientIo
    } else {
        RequestError::InvalidRequestBody
    }
}

/// One header of a response.
pub struct HeaderEntry {
    pub name: String,
    pub value: String,
}

/// The body of a response.
pub enum Body {
    /// No body.
    Empty,
    /// The given bytes.
    Fixed(Vec<u8>),
    /// A value that the server writes out in the given format as the body is sent.
    Streaming(SerializableFormat),
}

/// A response of the server.
pub struct Response {
    pub status: u16,
    pub headers: Vec<HeaderEntry>,
    pub body: Body,
}

/// The headers of a response, in order.
pub open spec fn header_list(r: Response) -> Seq<(Seq<char>, Seq<char>)> {
    r.headers@.map_values(|h: HeaderEntry| (h.name@, h.value@))
}

/// The header that lets a page of any origin read the response.
pub open spec fn any_origin() -> (Seq<char>, Seq<char>) {
    ("access-control-allow-origin"@, "*"@)
}

/// The `Content-Type` header of a JSON body.
pub open spec fn json_content_type() -> (Seq<char>, Seq<char>) {
    ("content-type"@, "application/json"@)
}

/// The `Content-Length` header of a body of `len` bytes.
pub open spec fn content_length(len: nat) -> (Seq<char>, Seq<char>) {
    ("content-length"@, decimal(len))
}

fn header(name: &str, value: &str) -> (res: HeaderEntry)
    ensures
        res.name@ == name@,
        res.value@ == value@,
{
    HeaderEntry { name: name.to_string(), value: value.to_string() }
}

fn content_length_header(len: usize) -> (res: HeaderEntry)
    ensures
        (res.name@, res.value@) == content_length(len as nat),
{
    let mut value = String::new();
    push_decimal(&mut value, len as u64);
    assert(value@ =~= decimal(len as nat));
    HeaderEntry { name: "content-length".to_string(), value }
}

impl Response {
    /// Creates a response with the given status, no headers and no body.
    pub fn new(status: u16) -> (res: Response)
        ensures
            res.status == status,
            header_list(res) == Seq::<(Seq<char>, Seq<char>)>::empty(),
            res.body is Empty,
    {
        let res = Response { status, headers: Vec::new(), body: Body::Empty };
        assert(header_list(res) =~= Seq::<(Seq<char>, Seq<char>)>::empty());
        res
    }

    /// Appends a header.
    fn append(&mut self, h: HeaderEntry)
        ensures
            final(self).status == old(self).status,
            final(self).body == old(self).body,
            header_list(*final(self)) == header_list(*old(self)).push((h.name@, h.value@)),
    {
        let ghost before = header_list(*self);
        self.headers.push(h);
        assert(header_list(*self) =~= before.push((h.name@, h.value@)));
    }
}

/// A response with status 200 whose body is `body`, written in `format`.
pub fn serialized_response(format: SerializableFormat, body: Vec<u8>) -> (res: Response)
    ensures
        res.status == 200,
        header_list(res) == seq![json_content_type(), content_length(body@.len()), any_origin()],
        res.body == Body::Fixed(body),
{
    let mut response = Response::new(200);
    match format {
        SerializableFormat::Json => response.append(header("content-type", "application/json")),
    }
    response.append(content_length_header(body.len()));
    response.append(header("access-control-allow-origin", "*"));
    response.body = Body::Fixed(body);
    assert(header_list(response) =~= seq![json_content_type(), content_length(body@.len()), any_origin()]);
    response
}

/// A response body that is written out as the response is sent, in the format the request asks
/// for.
pub struct StreamedSerializable<T>(pub T);

impl<T> StreamedSerializable<T> {
    /// Answers `request` with status 200 and a body streamed in the format the request asks for;
    /// the value to write is handed back with the response.
    pub fn into_response(self, request: &Request) -> (res: Result<(Response, T), RequestError>)
        ensures
            match res {
                Ok((response, value)) => {
                    &&& value == self.0
                    &&& response.status == 200
                    &&& header_list(response) == seq![json_content_type(), any_origin()]
                    &&& response.body == Body::Streaming(SerializableFormat::Json)
                },
                Err(e) => match request.spec_accept() {
                    Header::Malformed(_) => e is InvalidHeader,
                    Header::Present(accept) => e is NotAcceptable && !acceptable(
                        SerializableFormat::Json,
                        accepted_types(accept@),
                    ),
                    Header::Absent => false,
                },
            },
    {
        let formats = [SerializableFormat::Json];
        let format = match request.response_format(&formats) {
            Ok(f) => *f,
            Err(e) => {
                return Err(e);
            },
        };
        let mut response = Response::new(200);
        match format {
            SerializableFormat::Json => response.append(header("content-type", "application/json")),
        }
        response.append(header("access-control-allow-origin", "*"));
        response.body = Body::Streaming(format);
        assert(header_list(response) =~= seq![json_content_type(), any_origin()]);
        Ok((response, self.0))
    }
}

/// A response with no body.
pub struct NoContent;

impl NoContent {
    /// Answers with status 204 and no body.
    pub fn into_response(self) -> (res: Response)
        ensures
            res.status == 204,
            header_list(res) == seq![any_origin()],
            res.body is Empty,
    {
        let mut response = Response::new(204);
        response.append(header("access-control-allow-origin", "*"));
        assert(header_list(response) =~= seq![any_origin()]);
        response
    }
}

/// The answer to a browser's pre-flight `OPTIONS` request: any origin may send `POST`, `GET`
/// and `OPTIONS` requests with the `Content-Type`, `Some-Header` and `Fetch-User-Agent` headers.
pub fn options() -> (res: Response)
    ensures
        res.status == 200,
        header_list(res) == seq![
            any_origin(),
            ("access-control-allow-methods"@, "POST, GET, OPTIONS"@),
            ("access-control-allow-headers"@, "Content-Type, Some-Header, Fetch-User-Agent"@),
        ],
        res.body is Empty,
{
    let mut response = Response::new(200);
    response.append(header("access-control-allow-origin", "*"));
    response.append(header("access-control-allow-methods", "POST, GET, OPTIONS"));
    response.append(header("access-control-allow-headers", "Content-Type, Some-Header, Fetch-User-Agent"));
    assert(header_list(response) =~= seq![
        any_origin(),
        ("access-control-allow-methods"@, "POST, GET, OPTIONS"@),
        ("access-control-allow-headers"@, "Content-Type, Some-Header, Fetch-User-Agent"@),
    ]);
    response
}

/// The response that reports `error` to the client: the HTTP status of its code, and as body
/// `body`, the error serialized as JSON.
pub fn error_response(error: &Error, body: Vec<u8>) -> (res: Response)
    ensures
        res.status == error@.code.spec_http_error_code(),
        header_list(res) == seq![json_content_type(), content_length(body@.len())],
        res.body == Body::Fixed(body),
{
    let mut response = Response::new(error.code().http_error_code());
    response.append(header("content-type", "application/json"));
    response.append(content_length_header(body.len()));
    response.body = Body::Fixed(body);
    assert(header_list(response) =~= seq![json_content_type(), content_length(body@.len())]);
    response
}

/// A route being registered, which can be told more about itself.
pub trait NewRoute {
    /// Marks the path parameter `param` as safe to log.
    fn safe_param(&mut self, param: &str) -> &mut Self;
}

} // verus!
