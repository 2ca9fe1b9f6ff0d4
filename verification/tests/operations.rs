use obsctl::operations::{
    create_bucket, delete_bucket, delete_multiple_buckets, delete_object, download_object,
    failed_units, list_buckets, list_objects, query_params,
};
use obsctl::request::{Body, CanonicalRequest, ContentType, Method};

fn region() -> String {
    "la-south-2".to_string()
}

fn assert_bodiless(req: &CanonicalRequest) {
    assert_eq!(req.content_type, None);
    assert_eq!(req.content_md5, "");
    assert!(matches!(req.body, Body::Text(ref s) if s.is_empty()));
}

#[test]
fn create_bucket_request() {
    let req = create_bucket("photos", region());
    assert_eq!(req.method, Method::Put);
    assert_eq!(req.url, "http://photos.obs.la-south-2.myhuaweicloud.com");
    assert_eq!(req.content_type, Some(ContentType::ApplicationXml));
    assert_eq!(req.content_md5, "");
    assert_eq!(req.canonical_resource, "/photos/");
    assert!(matches!(
        req.body,
        Body::Text(ref s) if s == "<CreateBucketConfiguration><Location>la-south-2</Location>\
                                  </CreateBucketConfiguration>"
    ));
}

#[test]
fn list_buckets_request() {
    let req = list_buckets(region());
    assert_eq!(req.method, Method::Get);
    assert_eq!(req.url, "http://obs.la-south-2.myhuaweicloud.com");
    assert_eq!(req.canonical_resource, "/");
    assert_bodiless(&req);
}

#[test]
fn list_objects_request_without_parameters() {
    let req = list_objects("photos", &None, &None, region());
    assert_eq!(req.method, Method::Get);
    assert_eq!(req.url, "http://photos.obs.la-south-2.myhuaweicloud.com/");
    assert_eq!(req.canonical_resource, "/photos/");
    assert_bodiless(&req);
}

#[test]
fn list_objects_request_with_parameters() {
    let prefix = Some("2024/".to_string());
    let marker = Some("2024/a.jpg".to_string());
    let req = list_objects("photos", &prefix, &None, region());
    assert_eq!(req.url, "http://photos.obs.la-south-2.myhuaweicloud.com/?prefix=2024/");
    let req = list_objects("photos", &None, &marker, region());
    assert_eq!(req.url, "http://photos.obs.la-south-2.myhuaweicloud.com/?marker=2024/a.jpg");
    let req = list_objects("photos", &prefix, &marker, region());
    assert_eq!(
        req.url,
        "http://photos.obs.la-south-2.myhuaweicloud.com/?prefix=2024/&marker=2024/a.jpg"
    );
    // The parameters are no part of what is signed.
    assert_eq!(req.canonical_resource, "/photos/");
}

#[test]
fn query_string_of_a_listing() {
    assert_eq!(query_params(&None, &None), "");
    assert_eq!(query_params(&Some("p".to_string()), &None), "?prefix=p");
    assert_eq!(query_params(&None, &Some("m".to_string())), "?marker=m");
    assert_eq!(query_params(&Some("p".to_string()), &Some("m".to_string())), "?prefix=p&marker=m");
    assert_eq!(query_params(&Some(String::new()), &Some(String::new())), "?prefix=&marker=");
}

#[test]
fn delete_bucket_request() {
    let req = delete_bucket("photos", region());
    assert_eq!(req.method, Method::Delete);
    assert_eq!(req.url, "http://photos.obs.la-south-2.myhuaweicloud.com/");
    assert_eq!(req.canonical_resource, "/photos/");
    assert_bodiless(&req);
}

#[test]
fn delete_object_request() {
    let req = delete_object("photos", region(), "2024/a.jpg");
    assert_eq!(req.method, Method::Delete);
    assert_eq!(req.url, "http://photos.obs.la-south-2.myhuaweicloud.com/2024/a.jpg");
    assert_eq!(req.canonical_resource, "/photos/2024/a.jpg");
    assert_bodiless(&req);
    // Deleting does not strip a leading separator.
    let req = delete_object("photos", region(), "/a.jpg");
    assert_eq!(req.url, "http://photos.obs.la-south-2.myhuaweicloud.com//a.jpg");
    assert_eq!(req.canonical_resource, "/photos//a.jpg");
}

#[test]
fn download_ignores_one_leading_separator() {
    let with = download_object("bucket", region(), "/a/b.txt", &None);
    let without = download_object("bucket", region(), "a/b.txt", &None);
    for plan in [&with, &without] {
        assert_eq!(plan.request.method, Method::Get);
        assert_eq!(plan.request.url, "http://bucket.obs.la-south-2.myhuaweicloud.com/a/b.txt");
        assert_eq!(plan.request.canonical_resource, "/bucket/a/b.txt");
        assert_bodiless(&plan.request);
        assert_eq!(plan.file_name.as_deref(), Some("b.txt"));
        assert_eq!(plan.directory, ".");
    }
}

#[test]
fn download_strips_only_one_separator() {
    let plan = download_object("bucket", region(), "//a/b.txt", &None);
    assert_eq!(plan.request.canonical_resource, "/bucket//a/b.txt");
    assert_eq!(plan.file_name.as_deref(), Some("b.txt"));
}

#[test]
fn download_into_a_given_directory() {
    let plan = download_object("bucket", region(), "b.txt", &Some("out/dir".to_string()));
    assert_eq!(plan.directory, "out/dir");
    assert_eq!(plan.file_name.as_deref(), Some("b.txt"));
}

#[test]
fn download_of_a_path_without_file_name() {
    for path in ["", "/", "a/..", "..", ".", "/."] {
        let plan = download_object("bucket", region(), path, &None);
        assert_eq!(plan.file_name, None);
    }
    let plan = download_object("bucket", region(), "/", &None);
    assert_eq!(plan.request.url, "http://bucket.obs.la-south-2.myhuaweicloud.com/");
    assert_eq!(plan.request.canonical_resource, "/bucket/");
}

#[test]
fn batch_deletion_asks_for_every_bucket() {
    let buckets = vec!["one".to_string(), "two".to_string(), "three".to_string()];
    let requests = delete_multiple_buckets(&buckets, region());
    assert_eq!(requests.len(), 3);
    for (req, name) in requests.iter().zip(["one", "two", "three"]) {
        assert_eq!(req.method, Method::Delete);
        assert_eq!(req.url, format!("http://{name}.obs.la-south-2.myhuaweicloud.com/"));
        assert_eq!(req.canonical_resource, format!("/{name}/"));
        assert_bodiless(req);
    }
    assert_eq!(delete_multiple_buckets(&vec![], region()).len(), 0);
}

#[test]
fn batch_reports_the_second_bucket_alone_as_failed() {
    let buckets = vec!["one".to_string(), "two".to_string(), "three".to_string()];
    let requests = delete_multiple_buckets(&buckets, region());
    // Every unit is attempted; the second one meets a transport error.
    let mut attempted = Vec::new();
    let mut succeeded = Vec::new();
    for (i, req) in requests.iter().enumerate() {
        attempted.push(req.url.clone());
        succeeded.push(i != 1);
    }
    assert_eq!(attempted.len(), 3);
    assert_eq!(attempted[0], "http://one.obs.la-south-2.myhuaweicloud.com/");
    assert_eq!(attempted[2], "http://three.obs.la-south-2.myhuaweicloud.com/");
    let failed = failed_units(&succeeded);
    assert_eq!(failed, vec![1]);
    assert_eq!(buckets[failed[0]], "two");
}

#[test]
fn batch_report_lists_failures_in_order() {
    assert_eq!(failed_units(&vec![]), Vec::<usize>::new());
    assert_eq!(failed_units(&vec![true, true]), Vec::<usize>::new());
    assert_eq!(failed_units(&vec![false, true, false, false, true]), vec![0, 2, 3]);
    assert_eq!(failed_units(&vec![false]), vec![0]);
}
