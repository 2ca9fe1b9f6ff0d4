use obsctl::manifest::{CompleteMultipartUpload, Part};
use obsctl::multipart::{
    complete_request, extract_upload_id, initiate_request, is_success, object_key_for,
    part_outcome, part_request, part_request_with_hash, EtagHeader, UploadError,
};
use obsctl::request::{http_date, Body, ContentType, Method};

#[test]
fn statuses_of_success() {
    for status in [200u16, 201, 204, 299] {
        assert!(is_success(status));
    }
    for status in [0u16, 100, 199, 300, 301, 400, 403, 404, 500, 65535] {
        assert!(!is_success(status));
    }
}

#[test]
fn object_key_is_the_one_given_or_the_file_name() {
    assert_eq!(
        object_key_for("dir/file.bin", &Some("custom/key".to_string())),
        Ok("custom/key".to_string())
    );
    assert_eq!(object_key_for("dir/file.bin", &None), Ok("file.bin".to_string()));
    assert_eq!(object_key_for("/", &Some("k".to_string())), Ok("k".to_string()));
    assert_eq!(object_key_for("dir/..", &None), Err(UploadError::InvalidFileName));
    assert_eq!(object_key_for("", &None), Err(UploadError::InvalidFileName));
}

#[test]
fn upload_id_is_read_from_the_answer() {
    let body = "<?xml version=\"1.0\" encoding=\"UTF-8\"?>\
        <InitiateMultipartUploadResult xmlns=\"http://obs.myhwclouds.com/doc/2015-06-27/\">\
        <Bucket>bucket</Bucket><Key>key</Key>\
        <UploadId>00000163D40171ED8DF4050919BD02B8</UploadId>\
        </InitiateMultipartUploadResult>";
    assert_eq!(extract_upload_id(body), Some("00000163D40171ED8DF4050919BD02B8".to_string()));
}

#[test]
fn upload_id_edge_cases() {
    assert_eq!(extract_upload_id(""), None);
    assert_eq!(extract_upload_id("<Error><Code>AccessDenied</Code></Error>"), None);
    assert_eq!(extract_upload_id("<uploadid>x</uploadid>"), None);
    assert_eq!(extract_upload_id("<UploadId>abc</UploadId>"), Some("abc".to_string()));
    assert_eq!(extract_upload_id("<UploadId></UploadId>"), Some(String::new()));
    // No closing tag: the id runs to the end.
    assert_eq!(extract_upload_id("x<UploadId>abc"), Some("abc".to_string()));
    assert_eq!(extract_upload_id("<UploadId>"), Some(String::new()));
    // A second opening tag ends the id as well.
    assert_eq!(extract_upload_id("<UploadId>a<UploadId>b</UploadId>"), Some("a".to_string()));
    assert_eq!(
        extract_upload_id("<UploadId>a</UploadId><UploadId>b</UploadId>"),
        Some("a".to_string())
    );
    // A closing tag before the opening one does not count.
    assert_eq!(extract_upload_id("</UploadId><UploadId>id</UploadId>"), Some("id".to_string()));
    assert_eq!(extract_upload_id("<UploadId>é-ü</UploadId>"), Some("é-ü".to_string()));
    assert_eq!(extract_upload_id("<<UploadId>>x<</UploadId>"), Some(">x<".to_string()));
}

#[test]
fn request_that_opens_an_upload() {
    let req = initiate_request("bucket", "la-south-2", "dir/big.bin");
    assert_eq!(req.method, Method::Post);
    assert_eq!(req.url, "http://bucket.obs.la-south-2.myhuaweicloud.com/dir/big.bin?uploads");
    assert_eq!(req.canonical_resource, "/bucket/dir/big.bin?uploads");
    assert_eq!(req.content_type, None);
    assert_eq!(req.content_md5, "");
    assert!(matches!(req.body, Body::Text(ref s) if s.is_empty()));
}

#[test]
fn request_that_uploads_a_part() {
    let data = b"part one data".to_vec();
    let req = part_request("bucket", "la-south-2", "big.bin", "ID42", 7, data.clone());
    assert_eq!(req.method, Method::Put);
    assert_eq!(
        req.url,
        "http://bucket.obs.la-south-2.myhuaweicloud.com/big.bin?partNumber=7&uploadId=ID42"
    );
    assert_eq!(req.canonical_resource, "/bucket/big.bin?partNumber=7&uploadId=ID42");
    assert_eq!(req.content_type, Some(ContentType::ApplicationOctetStream));
    assert_eq!(req.content_md5, "1kKlGpcQ3CUKRsaMQ+E6TA==");
    assert!(matches!(req.body, Body::Binary(ref b) if *b == data));
}

#[test]
fn content_hash_of_a_part_is_the_base64_md5_of_its_bytes() {
    let all_bytes: Vec<u8> = (0..=255u8).collect();
    let req = part_request("b", "r", "k", "id", 1, all_bytes);
    assert_eq!(req.content_md5, "4shl20Fivtljv6qe9qwY8A==");
    let req = part_request("b", "r", "k", "id", 10_000, Vec::new());
    assert_eq!(req.content_md5, "1B2M2Y8AsgTpgAmY7PhCfg==");
    assert_eq!(req.canonical_resource, "/b/k?partNumber=10000&uploadId=id");
}

#[test]
fn request_that_closes_an_upload() {
    let manifest = CompleteMultipartUpload {
        parts: vec![
            Part { part_number: 1, etag: "a".to_string() },
            Part { part_number: 2, etag: "b".to_string() },
        ],
    };
    let req = complete_request("bucket", "la-south-2", "big.bin", "ID42", &manifest);
    assert_eq!(req.method, Method::Post);
    assert_eq!(req.url, "http://bucket.obs.la-south-2.myhuaweicloud.com/big.bin?uploadId=ID42");
    assert_eq!(req.canonical_resource, "/bucket/big.bin?uploadId=ID42");
    assert_eq!(req.content_type, Some(ContentType::ApplicationXml));
    assert_eq!(req.content_md5, "");
    let expected = "<CompleteMultipartUpload>\
        <Part><PartNumber>1</PartNumber><ETag>a</ETag></Part>\
        <Part><PartNumber>2</PartNumber><ETag>b</ETag></Part>\
        </CompleteMultipartUpload>";
    assert!(matches!(req.body, Body::Binary(ref b) if b == expected.as_bytes()));
}

#[test]
fn answer_to_the_upload_of_a_part() {
    let ok = part_outcome(3, 200, EtagHeader::Value("\"tag\"".to_string())).unwrap();
    assert_eq!((ok.part_number, ok.etag.as_str()), (3, "\"tag\""));
    assert_eq!(
        part_outcome(3, 500, EtagHeader::Value("t".to_string())).err(),
        Some(UploadError::PartRejected { part_number: 3, status: 500 })
    );
    // The status is looked at before the tag.
    assert_eq!(
        part_outcome(3, 403, EtagHeader::Missing).err(),
        Some(UploadError::PartRejected { part_number: 3, status: 403 })
    );
    assert_eq!(
        part_outcome(4, 200, EtagHeader::Missing).err(),
        Some(UploadError::MissingEtag { part_number: 4 })
    );
    assert_eq!(
        part_outcome(5, 204, EtagHeader::Unreadable).err(),
        Some(UploadError::UnreadableEtag { part_number: 5 })
    );
}

#[test]
fn date_of_a_known_second() {
    assert_eq!(http_date(0), Some("Thu, 01 Jan 1970 00:00:00 GMT".to_string()));
    assert_eq!(http_date(1_793_188_800), Some("Wed, 28 Oct 2026 12:00:00 GMT".to_string()));
    assert_eq!(http_date(951_782_399), Some("Mon, 28 Feb 2000 23:59:59 GMT".to_string()));
    assert_eq!(http_date(i64::MAX), None);
    assert_eq!(http_date(i64::MIN), None);
}

#[test]
fn request_of_a_part_with_a_given_content_hash() {
    let req =
        part_request_with_hash("b", "r", "dir/k", "id", 12, "aGFzaA==".to_string(), vec![9, 8]);
    assert_eq!(req.method, Method::Put);
    assert_eq!(req.url, "http://b.obs.r.myhuaweicloud.com/dir/k?partNumber=12&uploadId=id");
    assert_eq!(req.canonical_resource, "/b/dir/k?partNumber=12&uploadId=id");
    assert_eq!(req.content_type, Some(ContentType::ApplicationOctetStream));
    assert_eq!(req.content_md5, "aGFzaA==");
    assert!(matches!(req.body, Body::Binary(ref b) if *b == vec![9, 8]));
}
