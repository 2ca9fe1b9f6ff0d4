//! The requests of a multipart upload and what is read from their answers.

use crate::digest::{base64_encode, base64_standard, md5_digest, md5_of};
use crate::manifest::{manifest_xml, CompleteMultipartUpload, Part, PartView};
use crate::operations::{make_object_resource, make_object_url, object_resource, object_url};
use crate::path::{file_name, file_name_of};
use crate::request::{Body, BodyView, CanonicalRequest, CanonicalRequestView, ContentType, Method};
use crate::text::{
    append_decimal, chars_of, decimal, find_between, option_text, text_after, text_before,
};
use vstd::prelude::*;
use vstd::string::{StrSliceExecFns, StringExecFns};
use vstd::utf8::encode_utf8;

verus! {

/// Why a multipart upload failed.
#[derive(Debug, Clone, Copy, PartialEq, Eq, Structural)]
pub enum UploadError {
    /// The path of the source file ends in no file name.
    InvalidFileName,
    /// The file needs more parts than one upload may have.
    TooManyParts,
    /// The service answered the opening request with this status.
    InitiateRejected { status: u16 },
    /// The answer to the opening request names no upload.
    MissingUploadId,
    /// The service answered the upload of a part with this status.
    PartRejected { part_number: u32, status: u16 },
    /// The answer to the upload of a part carries no entity tag.
    MissingEtag { part_number: u32 },
    /// The entity tag of a part cannot be read as text.
    UnreadableEtag { part_number: u32 },
    /// A part could not be read from the file or sent.
    PartTransfer { part_number: u32 },
    /// The service answered the closing request with this status.
    CompleteRejected { status: u16 },
    /// The opening or the closing request could not be sent.
    Transport,
    /// An answer arrived that the upload was not waiting for.
    OutOfTurn,
}

/// The `ETag` header of an answer, as far as it could be read.
#[derive(Debug)]
pub enum EtagHeader {
    Missing,
    Unreadable,
    Value(String),
}

/// Whether `status` is one of the HTTP statuses of success, 200 to 299.
pub open spec fn is_success_status(status: u16) -> bool {
    200 <= status <= 299
}

/// Whether `status` is one of the HTTP statuses of success.
pub fn is_success(status: u16) -> (r: bool)
    ensures
        r == is_success_status(status),
{
    200 <= status && status <= 299
}

/// The object key of an upload: the one given, or the file name of the source
/// file.
pub open spec fn object_key(file_path: Seq<char>, object_path: Option<Seq<char>>) -> Option<
    Seq<char>,
> {
    match object_path {
        Some(key) => Some(key),
        None => file_name(file_path),
    }
}

/// Chooses the object key of an upload; fails where none is given and the
/// path of the file ends in no file name.
pub fn object_key_for(file_path: &str, object_path: &Option<String>) -> (r: Result<
    String,
    UploadError,
>)
    ensures
        match r {
            Ok(key) => object_key(file_path@, option_text(*object_path)) == Some(key@),
            Err(e) => e == UploadError::InvalidFileName && object_key(
                file_path@,
                option_text(*object_path),
            ) is None,
        },
{
    match object_path {
        Some(key) => Ok(key.clone()),
        None => match file_name_of(file_path) {
            Some(name) => Ok(name),
            None => Err(UploadError::InvalidFileName),
        },
    }
}

/// The upload id in the answer to the opening request: what stands behind the
/// first `<UploadId>`, up to the next `<UploadId>` and up to the first
/// `</UploadId>`, whichever comes first, or to the end.
pub open spec fn upload_id_in(body: Seq<char>) -> Option<Seq<char>> {
    match text_after(body, "<UploadId>"@) {
        Some(rest) => Some(text_before(text_before(rest, "<UploadId>"@), "</UploadId>"@)),
        None => None,
    }
}

/// Reads the upload id from the answer to the opening request.
pub fn extract_upload_id(body: &str) -> (r: Option<String>)
    ensures
        option_text(r) == upload_id_in(body@),
{
    let chars = chars_of(body);
    let open = chars_of("<UploadId>");
    let close = chars_of("</UploadId>");
    let n = chars.len();
    proof {
        assert(chars@.subrange(0, n as int) =~= body@);
    }
    match find_between(&chars, 0, n, &open) {
        None => None,
        Some(at) => {
            let start = at + open.len();
            let ghost rest = body@.skip(start as int);
            proof {
                assert(chars@.subrange(start as int, n as int) =~= rest);
            }
            let piece_end = match find_between(&chars, start, n, &open) {
                Some(next) => start + next,
                None => n,
            };
            let ghost piece = text_before(rest, "<UploadId>"@);
            proof {
                assert(chars@.subrange(start as int, piece_end as int) =~= piece);
            }
            let id_end = match find_between(&chars, start, piece_end, &close) {
                Some(stop) => start + stop,
                None => piece_end,
            };
            proof {
                assert(body@.subrange(start as int, id_end as int) =~= text_before(
                    piece,
                    "</UploadId>"@,
                ));
            }
            Some(body.substring_char(start, id_end).to_owned())
        },
    }
}

/// The request that opens an upload of the object `key`.
pub open spec fn initiate_request_of(
    bucket: Seq<char>,
    region: Seq<char>,
    key: Seq<char>,
) -> CanonicalRequestView {
    CanonicalRequestView {
        method: Method::Post,
        url: object_url(bucket, region, key) + "?uploads"@,
        content_type: None,
        content_md5: Seq::empty(),
        canonical_resource: object_resource(bucket, key) + "?uploads"@,
        body: BodyView::Text(Seq::empty()),
    }
}

/// The sub-resource of one part of an upload.
pub open spec fn part_query(part_number: nat, upload_id: Seq<char>) -> Seq<char> {
    "?partNumber="@ + decimal(part_number) + "&uploadId="@ + upload_id
}

/// The request that uploads `data`, whose content hash is `content_md5`, as
/// part `part_number`.
pub open spec fn part_request_of(
    bucket: Seq<char>,
    region: Seq<char>,
    key: Seq<char>,
    upload_id: Seq<char>,
    part_number: nat,
    content_md5: Seq<char>,
    data: Seq<u8>,
) -> CanonicalRequestView {
    CanonicalRequestView {
        method: Method::Put,
        url: object_url(bucket, region, key) + part_query(part_number, upload_id),
        content_type: Some(ContentType::ApplicationOctetStream),
        content_md5,
        canonical_resource: object_resource(bucket, key) + part_query(part_number, upload_id),
        body: BodyView::Binary(data),
    }
}

/// The content hash of a part: the base64 text of the MD5 digest of its
/// bytes.
pub open spec fn content_md5_of(data: Seq<u8>) -> Seq<char> {
    base64_standard(md5_digest(data))
}

/// The request that closes an upload with the manifest `parts`.
pub open spec fn complete_request_of(
    bucket: Seq<char>,
    region: Seq<char>,
    key: Seq<char>,
    upload_id: Seq<char>,
    parts: Seq<PartView>,
) -> CanonicalRequestView {
    CanonicalRequestView {
        method: Method::Post,
        url: object_url(bucket, region, key) + "?uploadId="@ + upload_id,
        content_type: Some(ContentType::ApplicationXml),
        content_md5: Seq::empty(),
        canonical_resource: object_resource(bucket, key) + "?uploadId="@ + upload_id,
        body: BodyView::Binary(encode_utf8(manifest_xml(parts))),
    }
}

/// Builds the request that opens an upload.
pub fn initiate_request(bucket_name: &str, region: &str, key: &str) -> (r: CanonicalRequest)
    ensures
        r@ == initiate_request_of(bucket_name@, region@, key@),
{
    let mut url = make_object_url(bucket_name, region, key);
    url.append("?uploads");
    let mut resource = make_object_resource(bucket_name, key);
    resource.append("?uploads");
    CanonicalRequest {
        method: Method::Post,
        url,
        content_type: None,
        content_md5: String::new(),
        canonical_resource: resource,
        body: Body::Text(String::new()),
    }
}

/// Builds the request that uploads `data` as one part, given its content
/// hash.
pub fn part_request_with_hash(
    bucket_name: &str,
    region: &str,
    key: &str,
    upload_id: &str,
    part_number: u32,
    content_md5: String,
    data: Vec<u8>,
) -> (r: CanonicalRequest)
    ensures
        r@ == part_request_of(
            bucket_name@,
            region@,
            key@,
            upload_id@,
            part_number as nat,
            content_md5@,
            data@,
        ),
{
    let mut query = String::new();
    query.append("?partNumber=");
    append_decimal(&mut query, part_number as u64);
    query.append("&uploadId=");
    query.append(upload_id);
    assert(query@ =~= part_query(part_number as nat, upload_id@));
    let mut url = make_object_url(bucket_name, region, key);
    url.append(query.as_str());
    let mut resource = make_object_resource(bucket_name, key);
    resource.append(query.as_str());
    CanonicalRequest {
        method: Method::Put,
        url,
        content_type: Some(ContentType::ApplicationOctetStream),
        content_md5,
        canonical_resource: resource,
        body: Body::Binary(data),
    }
}

/// Builds the request that uploads `data` as one part. Its content hash is
/// the base64 text of the MD5 digest of `data`.
pub fn part_request(
    bucket_name: &str,
    region: &str,
    key: &str,
    upload_id: &str,
    part_number: u32,
    data: Vec<u8>,
) -> (r: CanonicalRequest)
    ensures
        r@ == part_request_of(
            bucket_name@,
            region@,
            key@,
            upload_id@,
            part_number as nat,
            content_md5_of(data@),
            data@,
        ),
{
    let digest = md5_of(data.as_slice());
    let content_md5 = base64_encode(digest.as_slice());
    part_request_with_hash(bucket_name, region, key, upload_id, part_number, content_md5, data)
}

/// Builds the request that closes an upload; its body is the manifest as XML.
pub fn complete_request(
    bucket_name: &str,
    region: &str,
    key: &str,
    upload_id: &str,
    manifest: &CompleteMultipartUpload,
) -> (r: CanonicalRequest)
    ensures
        r@ == complete_request_of(bucket_name@, region@, key@, upload_id@, manifest@),
{
    let mut url = make_object_url(bucket_name, region, key);
    url.append("?uploadId=");
    url.append(upload_id);
    let mut resource = make_object_resource(bucket_name, key);
    resource.append("?uploadId=");
    resource.append(upload_id);
    let xml = manifest.to_xml();
    CanonicalRequest {
        method: Method::Post,
        url,
        content_type: Some(ContentType::ApplicationXml),
        content_md5: String::new(),
        canonical_resource: resource,
        body: Body::Binary(xml.as_str().as_bytes_vec()),
    }
}

/// The text of an `ETag` header, where it has one.
pub open spec fn etag_text(etag: EtagHeader) -> Option<Seq<char>> {
    match etag {
        EtagHeader::Value(s) => Some(s@),
        _ => None,
    }
}

/// What the answer to the upload of a part means: the part with its entity
/// tag where the status is one of success and the tag is there, else the
/// reason of the failure, the status before the tag.
pub open spec fn part_outcome_of(part_number: u32, status: u16, etag: EtagHeader) -> Result<
    PartView,
    UploadError,
> {
    if !is_success_status(status) {
        Err(UploadError::PartRejected { part_number, status })
    } else {
        match etag {
            EtagHeader::Missing => Err(UploadError::MissingEtag { part_number }),
            EtagHeader::Unreadable => Err(UploadError::UnreadableEtag { part_number }),
            EtagHeader::Value(s) => Ok(PartView { part_number: part_number as nat, etag: s@ }),
        }
    }
}

/// Reads the answer to the upload of a part.
pub fn part_outcome(part_number: u32, status: u16, etag: EtagHeader) -> (r: Result<
    Part,
    UploadError,
>)
    ensures
        match r {
            Ok(part) => part_outcome_of(part_number, status, etag) == Ok::<PartView, UploadError>(
                part@,
            ),
            Err(e) => part_outcome_of(part_number, status, etag) == Err::<PartView, UploadError>(e),
        },
{
    if !is_success(status) {
        return Err(UploadError::PartRejected { part_number, status });
    }
    match etag {
        EtagHeader::Missing => Err(UploadError::MissingEtag { part_number }),
        EtagHeader::Unreadable => Err(UploadError::UnreadableEtag { part_number }),
        EtagHeader::Value(s) => Ok(Part { part_number, etag: s }),
    }
}

} // verus!
