use vstd::prelude::*;
use crate::error::{Error, ErrorView, SerializableError};
use crate::media::{MediaType, MediaTypeView};
use crate::retry::internal_safe_error;
use crate::server::Header;
use crate::text::str_eq;
use vstd::string::StringExecFns;

verus! {

broadcast use vstd::string::group_string_axioms;

/// A request body.
pub trait Body {
    /// The length of the body, if known.
    spec fn spec_content_length(&self) -> Option<u64>;

    /// Whether the body can be sent again from its start.
    spec fn spec_resettable(&self) -> bool;

    /// Returns the length of the body, if known.
    fn content_length(&self) -> (res: Option<u64>)
        ensures
            res == self.spec_content_length();

    /// Returns the media type of the body.
    fn content_type(&self) -> MediaType;

    /// Returns the whole body, if it is held in memory. Unless a body says otherwise, it is not.
    fn full_body(&self) -> (res: Option<Vec<u8>>)
        default_ensures
            res is None,
    {
        None
    }

    /// Rewinds the body to its start; returns whether that succeeded. A request whose body
    /// cannot be rewound is not retried.
    fn reset(&mut self) -> (res: bool)
        ensures
            res == old(self).spec_resettable();
}

/// A body held in memory with its media type; it knows its length and can always be rewound.
pub struct BytesBody {
    body: Vec<u8>,
    mime: MediaType,
}

impl BytesBody {
    /// Creates a body from bytes and a media type.
    pub fn new(body: Vec<u8>, mime: MediaType) -> (res: BytesBody)
        ensures
            res.bytes() == body@,
            res.mime() == mime@,
    {
        BytesBody { body, mime }
    }

    /// The bytes of the body.
    pub closed spec fn bytes(&self) -> Seq<u8> {
        self.body@
    }

    /// The media type of the body.
    pub closed spec fn mime(&self) -> MediaTypeView {
        self.mime@
    }
}

fn copy_media_type(m: &MediaType) -> (res: MediaType)
    ensures
        res@ == m@,
{
    let mut params: Vec<crate::media::MediaParam> = Vec::new();
    let mut i: usize = 0;
    while i < m.params.len()
        invariant
            i <= m.params@.len(),
            params@.map_values(|p: crate::media::MediaParam| (p.name@, p.value@)) == m@.params.take(
                i as int,
            ),
        decreases m.params@.len() - i,
    {
        let p = &m.params[i];
        let q = crate::media::MediaParam { name: p.name.clone(), value: p.value.clone() };
        let ghost before = params@;
        params.push(q);
        assert(params@.map_values(|p: crate::media::MediaParam| (p.name@, p.value@)) =~= before.map_values(
            |p: crate::media::MediaParam| (p.name@, p.value@),
        ).push((q.name@, q.value@)));
        assert(m@.params[i as int] == (p.name@, p.value@));
        assert(params@.map_values(|p: crate::media::MediaParam| (p.name@, p.value@)) =~= m@.params.take(
            i + 1,
        ));
        i = i + 1;
    }
    assert(m@.params.take(m.params@.len() as int) =~= m@.params);
    MediaType { type_: m.type_.clone(), subtype: m.subtype.clone(), params }
}

fn copy_bytes(b: &Vec<u8>) -> (res: Vec<u8>)
    ensures
        res@ == b@,
{
    let mut out: Vec<u8> = Vec::new();
    let mut i: usize = 0;
    while i < b.len()
        invariant
            i <= b@.len(),
            out@ == b@.take(i as int),
        decreases b@.len() - i,
    {
        out.push(b[i]);
        assert(out@ =~= b@.take(i + 1));
        i = i + 1;
    }
    assert(b@.take(b@.len() as int) =~= b@);
    out
}

impl Body for BytesBody {
    open spec fn spec_content_length(&self) -> Option<u64> {
        Some(self.bytes().len() as u64)
    }

    open spec fn spec_resettable(&self) -> bool {
        true
    }

    fn content_length(&self) -> (res: Option<u64>) {
        Some(self.body.len() as u64)
    }

    fn content_type(&self) -> (res: MediaType)
        ensures
            res@ == self.mime(),
    {
        copy_media_type(&self.mime)
    }

    fn full_body(&self) -> (res: Option<Vec<u8>>)
        ensures
            res matches Some(b) && b@ == self.bytes(),
    {
        Some(copy_bytes(&self.body))
    }

    fn reset(&mut self) -> (res: bool) {
        true
    }
}

/// A media type with no parameters.
pub open spec fn plain_mime(type_: Seq<char>, subtype: Seq<char>) -> MediaTypeView {
    MediaTypeView { type_, subtype, params: Seq::empty() }
}

fn make_mime(type_: &str, subtype: &str) -> (res: MediaType)
    ensures
        res@ == plain_mime(type_@, subtype@),
{
    let res = MediaType { type_: type_.to_string(), subtype: subtype.to_string(), params: Vec::new() };
    assert(res@.params =~= Seq::<(Seq<char>, Seq<char>)>::empty());
    res
}

/// A value sent as a CBOR body.
pub struct Cbor<T>(pub T);

/// A value sent as a JSON body.
pub struct Json<T>(pub T);

/// A value sent as an `application/x-www-form-urlencoded` body.
pub struct Urlencoded<T>(pub T);

impl<T> Cbor<T> {
    /// Makes the body from the value encoded as CBOR.
    pub fn into_body(self, encoded: Vec<u8>) -> (res: BytesBody)
        ensures
            res.bytes() == encoded@,
            res.mime() == plain_mime("application"@, "cbor"@),
    {
        BytesBody::new(encoded, make_mime("application", "cbor"))
    }
}

impl<T> Json<T> {
    /// Makes the body from the value encoded as JSON.
    pub fn into_body(self, encoded: Vec<u8>) -> (res: BytesBody)
        ensures
            res.bytes() == encoded@,
            res.mime() == plain_mime("application"@, "json"@),
    {
        BytesBody::new(encoded, make_mime("application", "json"))
    }
}

impl<T> Urlencoded<T> {
    /// Makes the body from the value encoded as a form.
    pub fn into_body(self, encoded: Vec<u8>) -> (res: BytesBody)
        ensures
            res.bytes() == encoded@,
            res.mime() == plain_mime("application"@, "x-www-form-urlencoded"@),
    {
        BytesBody::new(encoded, make_mime("application", "x-www-form-urlencoded"))
    }
}

/// The formats in which a response body can be read.
pub enum ResponseFormat {
    Json,
    Cbor,
    Urlencoded,
    OctetStream,
}

/// The format a response's media type names: exactly one of `application/json`,
/// `application/cbor`, `application/x-www-form-urlencoded` and `application/octet-stream`,
/// without parameters.
pub open spec fn format_of(m: MediaTypeView) -> Option<ResponseFormat> {
    if m == plain_mime("application"@, "json"@) {
        Some(ResponseFormat::Json)
    } else if m == plain_mime("application"@, "cbor"@) {
        Some(ResponseFormat::Cbor)
    } else if m == plain_mime("application"@, "x-www-form-urlencoded"@) {
        Some(ResponseFormat::Urlencoded)
    } else if m == plain_mime("application"@, "octet-stream"@) {
        Some(ResponseFormat::OctetStream)
    } else {
        None
    }
}

fn is_plain(m: &MediaType, type_: &str, subtype: &str) -> (res: bool)
    ensures
        res == (m@ == plain_mime(type_@, subtype@)),
{
    assert(m@.params.len() == m.params@.len());
    let res = m.params.len() == 0 && str_eq(m.type_.as_str(), type_) && str_eq(m.subtype.as_str(), subtype);
    if res {
        assert(m@.params =~= Seq::<(Seq<char>, Seq<char>)>::empty());
    }
    res
}

impl ResponseFormat {
    /// Chooses the format of a response body from its `Content-Type` header; `description`
    /// describes the header for the error that an unsupported type gives.
    pub fn new(content_type: &Header<MediaType>, description: &str) -> (res: Result<ResponseFormat, Error>)
        ensures
            match content_type {
                Header::Absent => res matches Err(e) && internal_safe_error(
                    e@,
                    "Content-Type header missing"@,
                ),
                Header::Malformed(cause) => res matches Err(e) && internal_safe_error(e@, cause@),
                Header::Present(m) => match format_of(m@) {
                    Some(f) => res == Ok::<ResponseFormat, Error>(f),
                    None => res matches Err(e) && e@.safe_params == map![
                        "type"@ => description@,
                    ] && internal_safe_error(
                        ErrorView { safe_params: Map::empty(), ..e@ },
                        "unsupported Content-Type"@,
                    ),
                },
            },
    {
        match content_type {
            Header::Absent => Err(Error::internal_safe("Content-Type header missing")),
            Header::Malformed(cause) => Err(Error::internal_safe(cause.as_str())),
            Header::Present(m) => {
                if is_plain(m, "application", "json") {
                    Ok(ResponseFormat::Json)
                } else if is_plain(m, "application", "cbor") {
                    Ok(ResponseFormat::Cbor)
                } else if is_plain(m, "application", "x-www-form-urlencoded") {
                    Ok(ResponseFormat::Urlencoded)
                } else if is_plain(m, "application", "octet-stream") {
                    Ok(ResponseFormat::OctetStream)
                } else {
                    let e = Error::internal_safe("unsupported Content-Type");
                    let ghost before = e@;
                    let e = e.with_safe_param("type", description);
                    assert(e@.safe_params =~= map!["type"@ => description@]);
                    assert(ErrorView { safe_params: Map::empty(), ..e@ } == before);
                    Err(e)
                }
            },
        }
    }
}

/// How a response body is encoded on the wire.
pub enum ContentDecoding {
    Identity,
    Gzip,
    Deflate,
}

fn is_single(v: &Vec<String>, name: &str) -> (res: bool)
    ensures
        res == (v@.len() == 1 && v@[0]@ == name@),
{
    v.len() == 1 && str_eq(v[0].as_str(), name)
}

impl ContentDecoding {
    /// Chooses how to decode a response body from its `Content-Encoding` header, given as its
    /// list of codings; `description` describes the header for the error that an unsupported
    /// encoding gives.
    pub fn of(encoding: &Header<Vec<String>>, description: &str) -> (res: Result<ContentDecoding, Error>)
        ensures
            match encoding {
                Header::Absent => res matches Ok(ContentDecoding::Identity),
                Header::Malformed(cause) => res matches Err(e) && internal_safe_error(e@, cause@),
                Header::Present(v) => if v@.len() == 1 && v@[0]@ == "identity"@ {
                    res matches Ok(ContentDecoding::Identity)
                } else if v@.len() == 1 && v@[0]@ == "gzip"@ {
                    res matches Ok(ContentDecoding::Gzip)
                } else if v@.len() == 1 && v@[0]@ == "deflate"@ {
                    res matches Ok(ContentDecoding::Deflate)
                } else {
                    res matches Err(e) && e@.safe_params == map!["encoding"@ => description@]
                        && internal_safe_error(
                        ErrorView { safe_params: Map::empty(), ..e@ },
                        "unsupported Content-Encoding"@,
                    )
                },
            },
    {
        match encoding {
            Header::Absent => Ok(ContentDecoding::Identity),
            Header::Malformed(cause) => Err(Error::internal_safe(cause.as_str())),
            Header::Present(v) => {
                if is_single(v, "identity") {
                    Ok(ContentDecoding::Identity)
                } else if is_single(v, "gzip") {
                    Ok(ContentDecoding::Gzip)
                } else if is_single(v, "deflate") {
                    Ok(ContentDecoding::Deflate)
                } else {
                    let e = Error::internal_safe("unsupported Content-Encoding");
                    let ghost before = e@;
                    let e = e.with_safe_param("encoding", description);
                    assert(e@.safe_params =~= map!["encoding"@ => description@]);
                    assert(ErrorView { safe_params: Map::empty(), ..e@ } == before);
                    Err(e)
                }
            },
        }
    }
}

/// How the status `status` displays: its code and its canonical reason phrase.
pub uninterp spec fn status_display(status: u16) -> Seq<char>;

/// Describes the status `status`.
///
/// Calls `http::StatusCode::from_u16` and the status's `Display`, which writes the code and its
/// canonical reason phrase (`<unknown status code>` for a code without one); the text depends on
/// the code alone and is named. `from_u16` refuses a code outside 100 to 999, which `requires`
/// rules out.
#[verifier::external_body]
pub(crate) fn status_text(status: u16) -> (res: String)
    requires
        100 <= status <= 999,
    ensures
        res@ == status_display(status),
{
    match http::StatusCode::from_u16(status) {
        Ok(code) => code.to_string(),
        Err(_) => String::new(),
    }
}

/// The description of a remote error: the code, name and instance ID of the error the body
/// held, or else the status as it displays.
pub open spec fn remote_error_text(status: u16, error: Option<SerializableError>) -> Seq<char> {
    match error {
        Some(e) => "remote error: "@ + e@.code + " ("@ + e@.name + ") with instance ID "@ + e@.id,
        None => "remote error: "@ + status_display(status),
    }
}

/// An error response of a remote service.
pub struct RemoteError {
    status: u16,
    error: Option<SerializableError>,
}

impl RemoteError {
    #[verifier::type_invariant]
    closed spec fn inv(self) -> bool {
        100 <= self.status <= 999
    }

    /// Creates the error for a response with status `status`, a code from 100 to 999, and the
    /// error its body held, if it could be read.
    pub fn new(status: u16, error: Option<SerializableError>) -> (res: RemoteError)
        requires
            100 <= status <= 999,
        ensures
            res.spec_status() == status,
            res.spec_error() == error,
    {
        RemoteError { status, error }
    }

    /// The status of the response.
    pub closed spec fn spec_status(&self) -> u16 {
        self.status
    }

    /// The error the body held.
    pub closed spec fn spec_error(&self) -> Option<SerializableError> {
        self.error
    }

    /// Returns the status of the response.
    pub fn status(&self) -> (res: u16)
        ensures
            res == self.spec_status(),
    {
        self.status
    }

    /// Returns the error the body held, if it could be read.
    pub fn error(&self) -> (res: Option<&SerializableError>)
        ensures
            match self.spec_error() {
                Some(e) => res matches Some(r) && *r == e,
                None => res is None,
            },
    {
        match &self.error {
            Some(e) => Some(e),
            None => None,
        }
    }

    /// The description of the error.
    pub open spec fn text(&self) -> Seq<char> {
        remote_error_text(self.spec_status(), self.spec_error())
    }

    /// Describes the error.
    pub fn to_string(&self) -> (res: String)
        ensures
            res@ == self.text(),
    {
        proof {
            use_type_invariant(self);
        }
        let mut s = String::from_str("remote error: ");
        match &self.error {
            Some(e) => {
                s.append(e.code());
                s.append(" (");
                s.append(e.name());
                s.append(") with instance ID ");
                s.append(e.id());
            },
            None => {
                let status = status_text(self.status);
                s.append(status.as_str());
            },
        }
        s
    }
}

/// The most bytes of an error response's body that are read.
pub const ERROR_BODY_LIMIT: usize = 10 * 1024;

/// The part of an error response's body that is read: at most its first `ERROR_BODY_LIMIT` bytes.
pub open spec fn read_error_body(body: Seq<u8>) -> Seq<u8> {
    if body.len() <= ERROR_BODY_LIMIT {
        body
    } else {
        body.take(ERROR_BODY_LIMIT as int)
    }
}

/// The text of bytes read as UTF-8, with each invalid sequence replaced by U+FFFD.
pub uninterp spec fn lossy_utf8(bytes: Seq<u8>) -> Seq<char>;

/// Calls `String::from_utf8_lossy`, which std documents as decoding UTF-8 and replacing invalid
/// sequences with U+FFFD; the text is only named here.
#[verifier::external_body]
pub(crate) fn from_utf8_lossy(bytes: &[u8]) -> (res: String)
    ensures
        res@ == lossy_utf8(bytes@),
{
    String::from_utf8_lossy(bytes).into_owned()
}

/// The error that a failed response of a remote service, with status `status`, becomes: an
/// internal error whose safe cause describes the remote error; where the body held no readable
/// error, the text of the first `ERROR_BODY_LIMIT` bytes of the body is attached as the unsafe
/// parameter `body`.
pub fn into_error(status: u16, error: Option<SerializableError>, body: &[u8]) -> (res: Error)
    requires
        100 <= status <= 999,
    ensures
        internal_safe_error(
            ErrorView { unsafe_params: Map::empty(), ..res@ },
            remote_error_text(status, error),
        ),
        error is Some ==> res@.unsafe_params == Map::<Seq<char>, Seq<char>>::empty(),
        error is None ==> res@.unsafe_params == map!["body"@ => lossy_utf8(read_error_body(body@))],
{
    let log_body = error.is_none();
    let remote = RemoteError::new(status, error);
    let text = remote.to_string();
    let e = Error::internal_safe(text.as_str());
    if log_body {
        let ghost before = e@;
        let read = if body.len() <= ERROR_BODY_LIMIT {
            body
        } else {
            vstd::slice::slice_subrange(body, 0, ERROR_BODY_LIMIT)
        };
        assert(read@ == read_error_body(body@));
        let lossy = from_utf8_lossy(read);
        let e = e.with_unsafe_param("body", lossy.as_str());
        assert(e@.unsafe_params =~= map!["body"@ => lossy_utf8(read_error_body(body@))]);
        assert(ErrorView { unsafe_params: Map::empty(), ..e@ } == before);
        e
    } else {
        e
    }
}

} // verus!
