//! The bucket and object operations: which request each of them sends.
//!
//! Each operation maps its arguments to one request. Sending it and reading
//! the answer is left to the caller.

use crate::path::{file_name, file_name_of, strip_leading_slash, without_leading_slash};
use crate::request::{Body, BodyView, CanonicalRequest, CanonicalRequestView, ContentType, Method};
use crate::text::option_text;
use vstd::prelude::*;
use vstd::string::StringExecFns;

verus! {

/// Address of the service in `region`, for calls that name no bucket.
pub open spec fn service_url(region: Seq<char>) -> Seq<char> {
    "http://obs."@ + region + ".myhuaweicloud.com"@
}

/// Address of `bucket` in `region`.
pub open spec fn bucket_url(bucket: Seq<char>, region: Seq<char>) -> Seq<char> {
    "http://"@ + bucket + ".obs."@ + region + ".myhuaweicloud.com"@
}

/// Address of the object `key` of `bucket` in `region`.
pub open spec fn object_url(bucket: Seq<char>, region: Seq<char>, key: Seq<char>) -> Seq<char> {
    bucket_url(bucket, region) + "/"@ + key
}

/// Canonical resource of `bucket` itself.
pub open spec fn bucket_resource(bucket: Seq<char>) -> Seq<char> {
    "/"@ + bucket + "/"@
}

/// Canonical resource of the object `key` of `bucket`.
pub open spec fn object_resource(bucket: Seq<char>, key: Seq<char>) -> Seq<char> {
    "/"@ + bucket + "/"@ + key
}

/// The query string of a listing: the parameters that are given, `prefix`
/// before `marker`, or nothing where neither is.
pub open spec fn listing_query(prefix: Option<Seq<char>>, marker: Option<Seq<char>>) -> Seq<char> {
    match (prefix, marker) {
        (None, None) => Seq::empty(),
        (Some(p), None) => "?prefix="@ + p,
        (None, Some(m)) => "?marker="@ + m,
        (Some(p), Some(m)) => "?prefix="@ + p + "&marker="@ + m,
    }
}

/// The body that asks for a bucket in `region`.
pub open spec fn create_bucket_body(region: Seq<char>) -> Seq<char> {
    "<CreateBucketConfiguration><Location>"@ + region
        + "</Location></CreateBucketConfiguration>"@
}

/// A request without body, media type or content hash.
pub open spec fn bodiless_request(
    method: Method,
    url: Seq<char>,
    canonical_resource: Seq<char>,
) -> CanonicalRequestView {
    CanonicalRequestView {
        method,
        url,
        content_type: None,
        content_md5: Seq::empty(),
        canonical_resource,
        body: BodyView::Text(Seq::empty()),
    }
}

/// The request that creates `bucket` in `region`.
pub open spec fn create_bucket_request(bucket: Seq<char>, region: Seq<char>) -> CanonicalRequestView {
    CanonicalRequestView {
        method: Method::Put,
        url: bucket_url(bucket, region),
        content_type: Some(ContentType::ApplicationXml),
        content_md5: Seq::empty(),
        canonical_resource: bucket_resource(bucket),
        body: BodyView::Text(create_bucket_body(region)),
    }
}

/// The request that lists the buckets of the account.
pub open spec fn list_buckets_request(region: Seq<char>) -> CanonicalRequestView {
    bodiless_request(Method::Get, service_url(region), "/"@)
}

/// The request that lists the objects of `bucket`.
pub open spec fn list_objects_request(
    bucket: Seq<char>,
    prefix: Option<Seq<char>>,
    marker: Option<Seq<char>>,
    region: Seq<char>,
) -> CanonicalRequestView {
    bodiless_request(
        Method::Get,
        bucket_url(bucket, region) + "/"@ + listing_query(prefix, marker),
        bucket_resource(bucket),
    )
}

/// The request that deletes `bucket`.
pub open spec fn delete_bucket_request(bucket: Seq<char>, region: Seq<char>) -> CanonicalRequestView {
    bodiless_request(Method::Delete, bucket_url(bucket, region) + "/"@, bucket_resource(bucket))
}

/// The request that deletes the object `key` of `bucket`.
pub open spec fn delete_object_request(
    bucket: Seq<char>,
    region: Seq<char>,
    key: Seq<char>,
) -> CanonicalRequestView {
    bodiless_request(Method::Delete, object_url(bucket, region, key), object_resource(bucket, key))
}

/// The request that fetches the object at `object_path`, a leading `/` of
/// which is ignored.
pub open spec fn download_request(
    bucket: Seq<char>,
    region: Seq<char>,
    object_path: Seq<char>,
) -> CanonicalRequestView {
    let key = without_leading_slash(object_path);
    bodiless_request(Method::Get, object_url(bucket, region, key), object_resource(bucket, key))
}

/// An empty text.
fn empty_text() -> (r: String)
    ensures
        r@ == Seq::<char>::empty(),
{
    String::new()
}

/// Builds the address of a bucket.
fn make_bucket_url(bucket_name: &str, region: &str) -> (r: String)
    ensures
        r@ == bucket_url(bucket_name@, region@),
{
    let mut url = String::new();
    url.append("http://");
    url.append(bucket_name);
    url.append(".obs.");
    url.append(region);
    url.append(".myhuaweicloud.com");
    assert(url@ =~= bucket_url(bucket_name@, region@));
    url
}

/// Builds the address of an object.
pub(crate) fn make_object_url(bucket_name: &str, region: &str, key: &str) -> (r: String)
    ensures
        r@ == object_url(bucket_name@, region@, key@),
{
    let mut url = make_bucket_url(bucket_name, region);
    url.append("/");
    url.append(key);
    url
}

/// Builds the canonical resource of a bucket.
fn make_bucket_resource(bucket_name: &str) -> (r: String)
    ensures
        r@ == bucket_resource(bucket_name@),
{
    let mut resource = String::new();
    resource.append("/");
    resource.append(bucket_name);
    resource.append("/");
    assert(resource@ =~= bucket_resource(bucket_name@));
    resource
}

/// Builds the canonical resource of an object.
pub(crate) fn make_object_resource(bucket_name: &str, key: &str) -> (r: String)
    ensures
        r@ == object_resource(bucket_name@, key@),
{
    let mut resource = make_bucket_resource(bucket_name);
    resource.append(key);
    resource
}

/// Builds a request without body, media type or content hash.
fn make_bodiless(method: Method, url: String, canonical_resource: String) -> (r: CanonicalRequest)
    ensures
        r@ == bodiless_request(method, url@, canonical_resource@),
{
    CanonicalRequest {
        method,
        url,
        content_type: None,
        content_md5: empty_text(),
        canonical_resource,
        body: Body::Text(empty_text()),
    }
}

/// Builds the query string of a listing.
pub fn query_params(prefix: &Option<String>, marker: &Option<String>) -> (r: String)
    ensures
        r@ == listing_query(option_text(*prefix), option_text(*marker)),
{
    let mut query = String::new();
    match prefix {
        Some(p) => {
            query.append("?prefix=");
            query.append(p.as_str());
        },
        None => {},
    }
    match marker {
        Some(m) => {
            if prefix.is_some() {
                query.append("&marker=");
            } else {
                query.append("?marker=");
            }
            query.append(m.as_str());
        },
        None => {},
    }
    assert(query@ =~= listing_query(option_text(*prefix), option_text(*marker)));
    query
}

/// The request that creates the bucket `bucket_name` in `region`.
pub fn create_bucket(bucket_name: &str, region: String) -> (r: CanonicalRequest)
    ensures
        r@ == create_bucket_request(bucket_name@, region@),
{
    let mut body = String::new();
    body.append("<CreateBucketConfiguration><Location>");
    body.append(region.as_str());
    body.append("</Location></CreateBucketConfiguration>");
    assert(body@ =~= create_bucket_body(region@));
    CanonicalRequest {
        method: Method::Put,
        url: make_bucket_url(bucket_name, region.as_str()),
        content_type: Some(ContentType::ApplicationXml),
        content_md5: empty_text(),
        canonical_resource: make_bucket_resource(bucket_name),
        body: Body::Text(body),
    }
}

/// The request that lists the buckets of the account in `region`.
pub fn list_buckets(region: String) -> (r: CanonicalRequest)
    ensures
        r@ == list_buckets_request(region@),
{
    let mut url = String::new();
    url.append("http://obs.");
    url.append(region.as_str());
    url.append(".myhuaweicloud.com");
    assert(url@ =~= service_url(region@));
    make_bodiless(Method::Get, url, "/".to_owned())
}

/// The request that lists the objects of `bucket_name`, optionally only those
/// under `prefix` and those after `marker`.
pub fn list_objects(
    bucket_name: &str,
    prefix: &Option<String>,
    marker: &Option<String>,
    region: String,
) -> (r: CanonicalRequest)
    ensures
        r@ == list_objects_request(
            bucket_name@,
            option_text(*prefix),
            option_text(*marker),
            region@,
        ),
{
    let mut url = make_bucket_url(bucket_name, region.as_str());
    url.append("/");
    let query = query_params(prefix, marker);
    url.append(query.as_str());
    make_bodiless(Method::Get, url, make_bucket_resource(bucket_name))
}

/// The request that deletes the bucket `bucket_name`.
pub fn delete_bucket(bucket_name: &str, region: String) -> (r: CanonicalRequest)
    ensures
        r@ == delete_bucket_request(bucket_name@, region@),
{
    let mut url = make_bucket_url(bucket_name, region.as_str());
    url.append("/");
    make_bodiless(Method::Delete, url, make_bucket_resource(bucket_name))
}

/// The requests that delete `buckets`: one for each name, in the order of the
/// names, whatever becomes of the others.
pub fn delete_multiple_buckets(buckets: &Vec<String>, region: String) -> (r: Vec<CanonicalRequest>)
    ensures
        r@.len() == buckets@.len(),
        forall|i: int|
            0 <= i < r@.len() ==> (#[trigger] r@[i])@ == delete_bucket_request(
                buckets@[i]@,
                region@,
            ),
{
    let mut requests: Vec<CanonicalRequest> = Vec::new();
    let mut i: usize = 0;
    while i < buckets.len()
        invariant
            i <= buckets@.len(),
            requests@.len() == i,
            forall|k: int|
                0 <= k < i ==> (#[trigger] requests@[k])@ == delete_bucket_request(
                    buckets@[k]@,
                    region@,
                ),
        decreases buckets@.len() - i,
    {
        let request = delete_bucket(buckets[i].as_str(), region.clone());
        requests.push(request);
        i = i + 1;
    }
    requests
}

/// The request that deletes the object at `object_path` of `bucket_name`.
pub fn delete_object(bucket_name: &str, region: String, object_path: &str) -> (r: CanonicalRequest)
    ensures
        r@ == delete_object_request(bucket_name@, region@, object_path@),
{
    make_bodiless(
        Method::Delete,
        make_object_url(bucket_name, region.as_str(), object_path),
        make_object_resource(bucket_name, object_path),
    )
}

/// The positions of the units of a batch that failed, in ascending order.
pub open spec fn failed_positions(succeeded: Seq<bool>) -> Seq<usize>
    decreases succeeded.len(),
{
    if succeeded.len() == 0 {
        Seq::empty()
    } else if succeeded.last() {
        failed_positions(succeeded.drop_last())
    } else {
        failed_positions(succeeded.drop_last()).push((succeeded.len() - 1) as usize)
    }
}

/// Reports a batch: the positions of the units that failed. Every unit is
/// looked at, whatever became of the ones before it.
pub fn failed_units(succeeded: &Vec<bool>) -> (r: Vec<usize>)
    ensures
        r@ == failed_positions(succeeded@),
{
    let mut failed: Vec<usize> = Vec::new();
    let mut i: usize = 0;
    while i < succeeded.len()
        invariant
            i <= succeeded@.len(),
            failed@ == failed_positions(succeeded@.take(i as int)),
        decreases succeeded@.len() - i,
    {
        proof {
            assert(succeeded@.take(i + 1).drop_last() =~= succeeded@.take(i as int));
        }
        if !succeeded[i] {
            failed.push(i);
        }
        i = i + 1;
    }
    proof {
        assert(succeeded@.take(succeeded@.len() as int) =~= succeeded@);
    }
    failed
}

/// What a download does: the request it sends, the directory it writes into,
/// and the name of the file it writes, taken from the end of the object path.
#[derive(Debug)]
pub struct DownloadPlan {
    pub request: CanonicalRequest,
    pub directory: String,
    /// `None` where the object path ends in no file name; the download then
    /// fails once the object has been fetched.
    pub file_name: Option<String>,
}

/// The directory that a download writes into: the one given, or the current
/// one.
pub open spec fn download_directory(output_dir: Option<Seq<char>>) -> Seq<char> {
    match output_dir {
        Some(d) => d,
        None => "."@,
    }
}

/// Plans the download of the object at `object_path` of `bucket_name` into
/// `output_dir`.
///
/// One leading `/` of the object path is ignored, in the request as in the
/// file name.
pub fn download_object(
    bucket_name: &str,
    region: String,
    object_path: &str,
    output_dir: &Option<String>,
) -> (r: DownloadPlan)
    ensures
        r.request@ == download_request(bucket_name@, region@, object_path@),
        r.directory@ == download_directory(option_text(*output_dir)),
        option_text(r.file_name) == file_name(without_leading_slash(object_path@)),
{
    let key = strip_leading_slash(object_path);
    let request = make_bodiless(
        Method::Get,
        make_object_url(bucket_name, region.as_str(), key),
        make_object_resource(bucket_name, key),
    );
    let directory = match output_dir {
        Some(d) => d.clone(),
        None => ".".to_owned(),
    };
    DownloadPlan { request, directory, file_name: file_name_of(key) }
}

/// A leading `/` of the object path changes nothing of a download: the
/// request, the canonical resource in it and the file name are those of the
/// path without it.
pub proof fn lemma_download_ignores_leading_slash(
    bucket: Seq<char>,
    region: Seq<char>,
    object_path: Seq<char>,
)
    requires
        object_path.len() == 0 || object_path[0] != '/',
    ensures
        download_request(bucket, region, seq!['/'] + object_path) == download_request(
            bucket,
            region,
            object_path,
        ),
        file_name(without_leading_slash(seq!['/'] + object_path)) == file_name(
            without_leading_slash(object_path),
        ),
        download_request(bucket, region, object_path).canonical_resource == object_resource(
            bucket,
            object_path,
        ),
{
    let slashed = seq!['/'] + object_path;
    assert(without_leading_slash(slashed) =~= object_path);
    assert(without_leading_slash(object_path) =~= object_path);
}

} // verus!
