//! Requests in the form in which they are signed, and in the form in which
//! they are sent.

use crate::signing::{
    authorization_header, authorization_value, build_canonical_string, canonical_string,
    generate_signature, signature, CanonicalFields, Credentials,
};
use crate::digest::is_base64_char;
use std::fmt::Write;
use vstd::prelude::*;
use vstd::utf8::{encode_scalar, encode_utf8, is_ascii_chars};

verus! {

/// The pattern of the `Date` header: an RFC 1123 date in GMT.
pub const HTTP_DATE_FORMAT: &'static str = "%a, %d %b %Y %H:%M:%S GMT";

/// The HTTP methods that the service is called with.
#[derive(Debug, Clone, Copy, PartialEq, Eq, Structural)]
pub enum Method {
    Get,
    Put,
    Post,
    Delete,
}

impl Method {
    /// The verb in upper case, as it stands in the canonical string.
    pub open spec fn verb(self) -> Seq<char> {
        match self {
            Method::Get => "GET"@,
            Method::Put => "PUT"@,
            Method::Post => "POST"@,
            Method::Delete => "DELETE"@,
        }
    }

    /// The verb in upper case.
    pub fn as_str(&self) -> (r: &'static str)
        ensures
            r@ == self.verb(),
    {
        match self {
            Method::Get => "GET",
            Method::Put => "PUT",
            Method::Post => "POST",
            Method::Delete => "DELETE",
        }
    }
}

/// The media types that a request body can have.
#[derive(Debug, Clone, Copy, PartialEq, Eq, Structural)]
pub enum ContentType {
    ApplicationXml,
    ApplicationOctetStream,
}

impl ContentType {
    /// The media type as it stands in the `Content-Type` header.
    pub open spec fn media_type(self) -> Seq<char> {
        match self {
            ContentType::ApplicationXml => "application/xml"@,
            ContentType::ApplicationOctetStream => "application/octet-stream"@,
        }
    }

    /// The media type as text.
    pub fn as_str(&self) -> (r: &'static str)
        ensures
            r@ == self.media_type(),
    {
        match self {
            ContentType::ApplicationXml => "application/xml",
            ContentType::ApplicationOctetStream => "application/octet-stream",
        }
    }
}

/// The media type of a request, or the empty text where it has none.
pub open spec fn content_type_text(content_type: Option<ContentType>) -> Seq<char> {
    match content_type {
        Some(t) => t.media_type(),
        None => Seq::empty(),
    }
}

/// A request body: text or raw bytes.
#[derive(Debug)]
pub enum Body {
    Text(String),
    Binary(Vec<u8>),
}

/// Mathematical value of a `Body`.
pub enum BodyView {
    Text(Seq<char>),
    Binary(Seq<u8>),
}

impl View for Body {
    type V = BodyView;

    open spec fn view(&self) -> BodyView {
        match self {
            Body::Text(s) => BodyView::Text(s@),
            Body::Binary(b) => BodyView::Binary(b@),
        }
    }
}

/// One request to the service, before it is signed.
#[derive(Debug)]
pub struct CanonicalRequest {
    pub method: Method,
    pub url: String,
    pub content_type: Option<ContentType>,
    pub content_md5: String,
    pub canonical_resource: String,
    pub body: Body,
}

/// Mathematical value of a `CanonicalRequest`.
pub struct CanonicalRequestView {
    pub method: Method,
    pub url: Seq<char>,
    pub content_type: Option<ContentType>,
    pub content_md5: Seq<char>,
    pub canonical_resource: Seq<char>,
    pub body: BodyView,
}

impl View for CanonicalRequest {
    type V = CanonicalRequestView;

    open spec fn view(&self) -> CanonicalRequestView {
        CanonicalRequestView {
            method: self.method,
            url: self.url@,
            content_type: self.content_type,
            content_md5: self.content_md5@,
            canonical_resource: self.canonical_resource@,
            body: self.body@,
        }
    }
}

/// One header line of a request.
#[derive(Debug)]
pub struct Header {
    pub name: String,
    pub value: String,
}

/// Mathematical value of a `Header`.
pub struct HeaderView {
    pub name: Seq<char>,
    pub value: Seq<char>,
}

impl View for Header {
    type V = HeaderView;

    open spec fn view(&self) -> HeaderView {
        HeaderView { name: self.name@, value: self.value@ }
    }
}

/// A request with the headers that authenticate it, ready to be sent.
#[derive(Debug)]
pub struct SignedRequest {
    pub method: Method,
    pub url: String,
    pub headers: Vec<Header>,
    pub body: Body,
}

/// Mathematical value of a `SignedRequest`.
pub struct SignedRequestView {
    pub method: Method,
    pub url: Seq<char>,
    pub headers: Seq<HeaderView>,
    pub body: BodyView,
}

impl View for SignedRequest {
    type V = SignedRequestView;

    open spec fn view(&self) -> SignedRequestView {
        SignedRequestView {
            method: self.method,
            url: self.url@,
            headers: Seq::new(self.headers@.len(), |i: int| self.headers@[i]@),
            body: self.body@,
        }
    }
}

/// Why a request could not be prepared for sending.
#[derive(Debug, Clone, Copy, PartialEq, Eq, Structural)]
pub enum RequestError {
    /// The second at which the request is sent cannot be written as a date.
    DateUnavailable,
    /// The date holds a character that is neither visible ASCII, a space nor
    /// a tab.
    InvalidDate,
    /// The content hash holds a character that is neither visible ASCII, a
    /// space nor a tab.
    InvalidContentMd5,
    /// The access key holds a character that is neither visible ASCII, a
    /// space nor a tab.
    InvalidAccessKey,
    /// The signature could not be computed.
    Signature,
}

/// A character that the value of a header may hold: a visible ASCII
/// character, a space or a tab.
pub open spec fn is_header_text_char(c: char) -> bool {
    32 <= c as u32 <= 126 || c as u32 == 9
}

/// Whether `text` can be the value of a header: it holds no control character
/// but the tab, and no character outside ASCII.
pub open spec fn is_header_text(text: Seq<char>) -> bool {
    forall|i: int| 0 <= i < text.len() ==> is_header_text_char(#[trigger] text[i])
}

/// A byte that the header type of the HTTP client takes: no control character
/// but the tab.
pub open spec fn is_header_value_byte(b: u8) -> bool {
    (b >= 32 && b != 127) || b == 9
}

/// A character whose UTF-8 bytes the header type of the HTTP client takes.
pub open spec fn is_header_value_char(c: char) -> bool {
    (c as u32 >= 32 && c as u32 != 127) || c as u32 == 9
}

/// Whether the header type of the HTTP client takes `text`: each byte of its
/// UTF-8 form is one that it takes. This is less than `is_header_text` asks:
/// bytes outside ASCII pass.
pub open spec fn is_header_value(text: Seq<char>) -> bool {
    forall|i: int|
        0 <= i < encode_utf8(text).len() ==> is_header_value_byte(#[trigger] encode_utf8(text)[i])
}

/// The date that `pattern` gives for the second `unix_seconds` after the start
/// of 1970 in UTC, as the `chrono` crate writes it; `None` where the second
/// lies outside the years it can represent or the pattern is not one.
pub uninterp spec fn formatted_time(unix_seconds: int, pattern: Seq<char>) -> Option<Seq<char>>;

/// Calls `HeaderValue::from_str` and tells whether it accepted the text.
///
/// Trusted: it accepts exactly the texts whose bytes are all at least 32 and
/// not 127, or a tab.
#[verifier::external_body]
pub(crate) fn header_value_accepts(text: &str) -> (r: bool)
    ensures
        r == is_header_value(text@),
{
    reqwest::header::HeaderValue::from_str(text).is_ok()
}

/// Calls `DateTime::from_timestamp` and `format`.
///
/// Trusted: the text is the one named `formatted_time`.
#[verifier::external_body]
pub(crate) fn format_time(unix_seconds: i64, pattern: &str) -> (r: Option<String>)
    ensures
        r is Some <==> formatted_time(unix_seconds as int, pattern@) is Some,
        r matches Some(s) ==> formatted_time(unix_seconds as int, pattern@) == Some(s@),
{
    let time = chrono::DateTime::from_timestamp(unix_seconds, 0)?;
    let mut text = String::new();
    write!(text, "{}", time.format(pattern)).ok()?;
    Some(text)
}

/// The five signed fields of a request that is sent at `date`.
pub open spec fn request_fields(req: CanonicalRequestView, date: Seq<char>) -> CanonicalFields {
    CanonicalFields {
        method: req.method.verb(),
        content_md5: req.content_md5,
        content_type: content_type_text(req.content_type),
        date,
        resource: req.canonical_resource,
    }
}

/// The headers of a signed request, in the order in which they are set:
/// `Date` always, `Content-Type` where the request has a media type,
/// `Content-MD5` where it has a content hash, `Authorization` always.
pub open spec fn signed_headers(
    req: CanonicalRequestView,
    access_key: Seq<char>,
    secret_key: Seq<char>,
    date: Seq<char>,
) -> Seq<HeaderView> {
    seq![HeaderView { name: "Date"@, value: date }] + (match req.content_type {
        Some(t) => seq![HeaderView { name: "Content-Type"@, value: t.media_type() }],
        None => Seq::empty(),
    }) + (if req.content_md5.len() > 0 {
        seq![HeaderView { name: "Content-MD5"@, value: req.content_md5 }]
    } else {
        Seq::empty()
    }) + seq![
        HeaderView {
            name: "Authorization"@,
            value: authorization_value(
                access_key,
                signature(secret_key, canonical_string(request_fields(req, date))),
            ),
        },
    ]
}

/// Every signed request carries the date first and the authorization last;
/// between them the media type, exactly where the request has one, and then
/// the content hash, exactly where it is not empty.
pub proof fn lemma_signed_headers_shape(
    req: CanonicalRequestView,
    access_key: Seq<char>,
    secret_key: Seq<char>,
    date: Seq<char>,
)
    ensures
        ({
            let headers = signed_headers(req, access_key, secret_key, date);
            let media = if req.content_type is Some {
                1int
            } else {
                0int
            };
            let hash = if req.content_md5.len() > 0 {
                1int
            } else {
                0int
            };
            &&& headers.len() == 2 + media + hash
            &&& headers[0] == HeaderView { name: "Date"@, value: date }
            &&& headers.last().name == "Authorization"@
            &&& req.content_type matches Some(t) ==> headers[1] == HeaderView {
                name: "Content-Type"@,
                value: t.media_type(),
            }
            &&& req.content_md5.len() > 0 ==> headers[1 + media] == HeaderView {
                name: "Content-MD5"@,
                value: req.content_md5,
            }
        }),
{
}

/// What signing `req` at `date` gives: the request with its headers, or the
/// first header value that cannot be built.
pub open spec fn signed_request(
    req: CanonicalRequestView,
    access_key: Seq<char>,
    secret_key: Seq<char>,
    date: Seq<char>,
) -> Result<SignedRequestView, RequestError> {
    if !is_header_text(date) {
        Err(RequestError::InvalidDate)
    } else if req.content_md5.len() > 0 && !is_header_text(req.content_md5) {
        Err(RequestError::InvalidContentMd5)
    } else if !is_header_text(access_key) {
        Err(RequestError::InvalidAccessKey)
    } else {
        Ok(
            SignedRequestView {
                method: req.method,
                url: req.url,
                headers: signed_headers(req, access_key, secret_key, date),
                body: req.body,
            },
        )
    }
}

/// The result of signing, by its mathematical value.
pub open spec fn signing_outcome(r: Result<SignedRequest, RequestError>) -> Result<
    SignedRequestView,
    RequestError,
> {
    match r {
        Ok(s) => Ok(s@),
        Err(e) => Err(e),
    }
}

/// Signs `req` for sending at `date`: the same date stands in the signed
/// string and in the `Date` header.
///
/// Fails where the date, a content hash that is not empty, or the access key
/// cannot be a header value, in that order: where it holds a control
/// character other than the tab, or a character outside ASCII. The signature
/// itself always can.
pub fn sign_request(req: CanonicalRequest, credentials: &Credentials, date: &str) -> (r: Result<
    SignedRequest,
    RequestError,
>)
    ensures
        signing_outcome(r) == signed_request(req@, credentials.ak@, credentials.sk@, date@),
{
    proof {
        reveal_strlit("");
        assert(""@ =~= Seq::<char>::empty());
    }
    let ghost spec_headers = signed_headers(req@, credentials.ak@, credentials.sk@, date@);
    let media: &str = match req.content_type {
        Some(t) => t.as_str(),
        None => "",
    };
    let canonical = build_canonical_string(
        req.method.as_str(),
        req.content_md5.as_str(),
        media,
        date,
        req.canonical_resource.as_str(),
    );
    assert(canonical@ == canonical_string(request_fields(req@, date@)));
    let sig = match generate_signature(credentials, canonical.as_str()) {
        Ok(sig) => sig,
        Err(_) => { return Err(RequestError::Signature); },
    };
    if !header_text_accepts(date) {
        return Err(RequestError::InvalidDate);
    }
    let mut headers: Vec<Header> = Vec::new();
    headers.push(Header { name: "Date".to_owned(), value: date.to_owned() });
    if let Some(t) = req.content_type {
        headers.push(Header { name: "Content-Type".to_owned(), value: t.as_str().to_owned() });
    }
    if !req.content_md5.as_str().is_empty() {
        if !header_text_accepts(req.content_md5.as_str()) {
            return Err(RequestError::InvalidContentMd5);
        }
        headers.push(Header { name: "Content-MD5".to_owned(), value: req.content_md5.clone() });
    }
    let authorization = authorization_header(credentials.ak.as_str(), sig.as_str());
    proof {
        reveal_strlit("OBS ");
        reveal_strlit(":");
        assert(is_header_text("OBS "@));
        assert(is_header_text(":"@));
        assert forall|i: int| 0 <= i < sig@.len() implies is_header_text_char(
            #[trigger] sig@[i],
        ) by {
            assert(is_base64_char(sig@[i]));
        }
        lemma_header_text_concat("OBS "@, credentials.ak@);
        lemma_header_text_concat("OBS "@ + credentials.ak@, ":"@);
        lemma_header_text_concat("OBS "@ + credentials.ak@ + ":"@, sig@);
        assert(is_header_text(authorization@) <==> is_header_text(credentials.ak@));
    }
    if !header_text_accepts(authorization.as_str()) {
        return Err(RequestError::InvalidAccessKey);
    }
    headers.push(Header { name: "Authorization".to_owned(), value: authorization });
    let signed = SignedRequest { method: req.method, url: req.url, headers, body: req.body };
    proof {
        assert(signed@.headers =~= spec_headers);
    }
    Ok(signed)
}

/// Writes the second `unix_seconds` after the start of 1970 as the date of a
/// request; `None` where the second lies outside the years that can be
/// written.
pub fn http_date(unix_seconds: i64) -> (r: Option<String>)
    ensures
        match r {
            Some(date) => formatted_time(unix_seconds as int, HTTP_DATE_FORMAT@) == Some(date@),
            None => formatted_time(unix_seconds as int, HTTP_DATE_FORMAT@) is None,
        },
{
    format_time(unix_seconds, HTTP_DATE_FORMAT)
}

/// What signing `req` at the second `unix_seconds` after the start of 1970
/// gives: the request signed with the date of that second, or
/// `DateUnavailable` where the second has no date.
pub open spec fn signed_at(
    req: CanonicalRequestView,
    access_key: Seq<char>,
    secret_key: Seq<char>,
    unix_seconds: int,
) -> Result<SignedRequestView, RequestError> {
    match formatted_time(unix_seconds, HTTP_DATE_FORMAT@) {
        Some(date) => signed_request(req, access_key, secret_key, date),
        None => Err(RequestError::DateUnavailable),
    }
}

/// Signs `req` for sending at the second `unix_seconds` after the start of
/// 1970: writes that second as the date, once, and signs with it, so that the
/// same date stands in the signed string and in the `Date` header.
///
/// The caller reads the clock. Fails with `DateUnavailable` where the second
/// has no date, and as `sign_request` does.
pub fn generate_request(req: CanonicalRequest, credentials: &Credentials, unix_seconds: i64) -> (r:
    Result<SignedRequest, RequestError>)
    ensures
        signing_outcome(r) == signed_at(
            req@,
            credentials.ak@,
            credentials.sk@,
            unix_seconds as int,
        ),
{
    match http_date(unix_seconds) {
        Some(date) => sign_request(req, credentials, date.as_str()),
        None => Err(RequestError::DateUnavailable),
    }
}

/// Tells whether `text` can be the value of a header.
///
/// The header type of the HTTP client is asked first, as it is when the
/// request is sent; text that it takes is refused all the same where it holds a
/// character outside ASCII.
pub fn header_text_accepts(text: &str) -> (r: bool)
    ensures
        r == is_header_text(text@),
{
    proof {
        lemma_header_text_is_ascii_header_value(text@);
    }
    header_value_accepts(text) && text.is_ascii()
}

/// A character may stand in a header value exactly when the header type of
/// the HTTP client takes it and it is an ASCII character.
pub proof fn lemma_header_text_char(c: char)
    ensures
        is_header_text_char(c) <==> is_header_value_char(c) && '\0' <= c <= '\u{7f}',
{
}

/// A text can be a header value exactly when the header type of the HTTP
/// client takes it and it holds no character outside ASCII.
pub proof fn lemma_header_text_is_ascii_header_value(text: Seq<char>)
    ensures
        is_header_text(text) <==> is_header_value(text) && is_ascii_chars(text),
{
    lemma_header_value_chars(text);
    assert forall|i: int| 0 <= i < text.len() implies (is_header_text_char(#[trigger] text[i])
        <==> is_header_value_char(text[i]) && '\0' <= text[i] <= '\u{7f}') by {
        lemma_header_text_char(text[i]);
    }
}

/// A concatenation can be a header value exactly when both halves can.
pub proof fn lemma_header_text_concat(a: Seq<char>, b: Seq<char>)
    ensures
        is_header_text(a + b) <==> is_header_text(a) && is_header_text(b),
{
    if is_header_text(a + b) {
        assert forall|i: int| 0 <= i < a.len() implies is_header_text_char(#[trigger] a[i]) by {
            assert((a + b)[i] == a[i]);
        }
        assert forall|i: int| 0 <= i < b.len() implies is_header_text_char(#[trigger] b[i]) by {
            assert((a + b)[a.len() + i] == b[i]);
        }
    }
}

/// The bytes of a character outside ASCII all have their highest bit set.
proof fn lemma_high_bytes(x: u8)
    ensures
        0xC0u8 | x >= 0x80,
        0xE0u8 | x >= 0x80,
        0xF0u8 | x >= 0x80,
        0x80u8 | x >= 0x80,
{
    assert(0xC0u8 | x >= 0x80) by (bit_vector);
    assert(0xE0u8 | x >= 0x80) by (bit_vector);
    assert(0xF0u8 | x >= 0x80) by (bit_vector);
    assert(0x80u8 | x >= 0x80) by (bit_vector);
}

/// The header type of the HTTP client takes the UTF-8 bytes of a character
/// exactly when the character is no control character but the tab.
pub proof fn lemma_header_value_char_bytes(c: char)
    ensures
        is_header_value_char(c) <==> forall|j: int|
            0 <= j < encode_scalar(c as u32).len() ==> is_header_value_byte(
                #[trigger] encode_scalar(c as u32)[j],
            ),
{
    let v = c as u32;
    let bytes = encode_scalar(v);
    vstd::utf8::char_is_scalar(c);
    if v <= 0x7F {
        assert(v & 0x7F == v) by (bit_vector)
            requires
                v <= 0x7F,
        ;
        assert(bytes[0] == v);
        if is_header_value_char(c) {
            assert forall|j: int| 0 <= j < bytes.len() implies is_header_value_byte(
                #[trigger] bytes[j],
            ) by {
                assert(j == 0);
            }
        }
    } else {
        lemma_high_bytes(((v >> 6) & 0x1F) as u8);
        lemma_high_bytes(((v >> 12) & 0x0F) as u8);
        lemma_high_bytes(((v >> 18) & 0x7) as u8);
        lemma_high_bytes((v & 0x3F) as u8);
        lemma_high_bytes(((v >> 6) & 0x3F) as u8);
        lemma_high_bytes(((v >> 12) & 0x3F) as u8);
        assert forall|j: int| 0 <= j < bytes.len() implies is_header_value_byte(
            #[trigger] bytes[j],
        ) by {
            assert(bytes[j] >= 0x80);
        }
    }
}

/// The header type of the HTTP client takes a text exactly when it holds no
/// control character but the tab; it takes characters outside ASCII.
pub proof fn lemma_header_value_chars(text: Seq<char>)
    ensures
        is_header_value(text) <==> forall|i: int|
            0 <= i < text.len() ==> is_header_value_char(#[trigger] text[i]),
    decreases text.len(),
{
    if text.len() == 0 {
    } else {
        let head = encode_scalar(text[0] as u32);
        let rest = text.drop_first();
        let tail = encode_utf8(rest);
        lemma_header_value_char_bytes(text[0]);
        lemma_header_value_chars(rest);
        assert(encode_utf8(text) == head + tail);
        if is_header_value(text) {
            assert forall|j: int| 0 <= j < head.len() implies is_header_value_byte(
                #[trigger] head[j],
            ) by {
                assert(encode_utf8(text)[j] == head[j]);
            }
            assert forall|j: int| 0 <= j < tail.len() implies is_header_value_byte(
                #[trigger] tail[j],
            ) by {
                assert(encode_utf8(text)[head.len() + j] == tail[j]);
            }
            assert forall|i: int| 0 <= i < text.len() implies is_header_value_char(
                #[trigger] text[i],
            ) by {
                if i > 0 {
                    assert(text[i] == rest[i - 1]);
                }
            }
        }
        if forall|i: int| 0 <= i < text.len() ==> is_header_value_char(#[trigger] text[i]) {
            assert(is_header_value_char(text[0]));
            assert forall|i: int| 0 <= i < rest.len() implies is_header_value_char(
                #[trigger] rest[i],
            ) by {
                assert(rest[i] == text[i + 1]);
            }
            assert(is_header_value(rest));
            assert forall|j: int| 0 <= j < encode_utf8(text).len() implies is_header_value_byte(
                #[trigger] encode_utf8(text)[j],
            ) by {
                if j < head.len() {
                    assert(encode_utf8(text)[j] == head[j]);
                } else {
                    assert(encode_utf8(text)[j] == tail[j - head.len()]);
                }
            }
        }
    }
}

} // verus!
