use obsctl::multipart::{EtagHeader, UploadError};
use obsctl::parts::{MAX_IN_FLIGHT, PART_SIZE};
use obsctl::request::{Body, ContentType, Method};
use obsctl::upload::{
    upload_multiple_objects, upload_object, MultipartUpload, UploadAction, UploadPhase,
};

const MIB: u64 = 1024 * 1024;

fn answer(id: &str) -> String {
    format!("<InitiateMultipartUploadResult><UploadId>{id}</UploadId></InitiateMultipartUploadResult>")
}

fn tag(text: &str) -> EtagHeader {
    EtagHeader::Value(text.to_string())
}

/// Opens an upload of `total_size` bytes and takes the answer to the opening
/// request.
fn opened(total_size: u64) -> (MultipartUpload, UploadAction) {
    let (upload, _) = MultipartUpload::begin("bucket", "la-south-2", "big.bin", total_size).unwrap();
    upload.on_initiate_response(200, &answer("ID42"))
}

fn body_text(action: &UploadAction) -> String {
    match action {
        UploadAction::Send(request) => match &request.body {
            Body::Binary(bytes) => String::from_utf8(bytes.clone()).unwrap(),
            Body::Text(text) => text.clone(),
        },
        other => panic!("no request: {other:?}"),
    }
}

#[test]
fn upload_begins_with_the_opening_request() {
    let (upload, request) =
        MultipartUpload::begin("bucket", "la-south-2", "big.bin", 120 * MIB).unwrap();
    assert_eq!(upload.phase(), UploadPhase::Initiating);
    assert_eq!(upload.in_flight(), 0);
    assert_eq!(upload.failure(), None);
    assert_eq!(upload.upload_id(), "");
    assert_eq!(upload.parts().len(), 3);
    assert_eq!(request.method, Method::Post);
    assert_eq!(request.url, "http://bucket.obs.la-south-2.myhuaweicloud.com/big.bin?uploads");
    assert_eq!(request.canonical_resource, "/bucket/big.bin?uploads");
}

#[test]
fn too_many_parts_fail_before_any_request() {
    let r = MultipartUpload::begin("bucket", "r", "k", 10_001 * PART_SIZE);
    assert_eq!(r.err(), Some(UploadError::TooManyParts));
    let r = MultipartUpload::begin("bucket", "r", "k", 10_000 * PART_SIZE + 1);
    assert_eq!(r.err(), Some(UploadError::TooManyParts));
    assert!(MultipartUpload::begin("bucket", "r", "k", 10_000 * PART_SIZE).is_ok());
    let r = upload_object("bucket", "r".to_string(), "f.bin", &None, u64::MAX);
    assert_eq!(r.err(), Some(UploadError::TooManyParts));
}

#[test]
fn upload_of_120_mib_end_to_end() {
    let (upload, request) =
        upload_object("bucket", "la-south-2".to_string(), "/data/big.bin", &None, 120 * MIB)
            .unwrap();
    assert_eq!(request.canonical_resource, "/bucket/big.bin?uploads");
    let sizes: Vec<(u32, u64, u64)> =
        upload.parts().iter().map(|p| (p.part_number, p.offset, p.length)).collect();
    assert_eq!(sizes, vec![(1, 0, 50 * MIB), (2, 50 * MIB, 50 * MIB), (3, 100 * MIB, 20 * MIB)]);

    let (upload, action) = upload.on_initiate_response(200, &answer("ID42"));
    assert_eq!(upload.phase(), UploadPhase::UploadingParts);
    assert_eq!(upload.upload_id(), "ID42");
    assert!(matches!(action, UploadAction::StartParts { first: 1, count: 3 }));
    assert_eq!(upload.in_flight(), 3);

    let part = upload.part_request(2, vec![1, 2, 3]);
    assert_eq!(part.method, Method::Put);
    assert_eq!(part.canonical_resource, "/bucket/big.bin?partNumber=2&uploadId=ID42");
    assert_eq!(part.content_type, Some(ContentType::ApplicationOctetStream));

    let (upload, action) = upload.on_part_response(1, 200, tag("\"e1\""));
    assert!(matches!(action, UploadAction::Wait));
    let (upload, action) = upload.on_part_response(2, 200, tag("\"e2\""));
    assert!(matches!(action, UploadAction::Wait));
    assert_eq!(upload.in_flight(), 1);
    let (upload, action) = upload.on_part_response(3, 200, tag("\"e3\""));
    assert_eq!(upload.phase(), UploadPhase::Completing);
    assert_eq!(upload.in_flight(), 0);
    match &action {
        UploadAction::Send(request) => {
            assert_eq!(request.method, Method::Post);
            assert_eq!(
                request.url,
                "http://bucket.obs.la-south-2.myhuaweicloud.com/big.bin?uploadId=ID42"
            );
            assert_eq!(request.canonical_resource, "/bucket/big.bin?uploadId=ID42");
            assert_eq!(request.content_type, Some(ContentType::ApplicationXml));
        }
        other => panic!("no request: {other:?}"),
    }
    assert_eq!(
        body_text(&action),
        "<CompleteMultipartUpload>\
         <Part><PartNumber>1</PartNumber><ETag>\"e1\"</ETag></Part>\
         <Part><PartNumber>2</PartNumber><ETag>\"e2\"</ETag></Part>\
         <Part><PartNumber>3</PartNumber><ETag>\"e3\"</ETag></Part>\
         </CompleteMultipartUpload>"
    );
    let tags: Vec<&str> = upload.parts().iter().map(|p| p.etag.as_str()).collect();
    assert_eq!(tags, vec!["\"e1\"", "\"e2\"", "\"e3\""]);

    let (upload, action) = upload.on_complete_response(200);
    assert!(matches!(action, UploadAction::Succeeded));
    assert_eq!(upload.phase(), UploadPhase::Done);
    assert_eq!(upload.failure(), None);
}

#[test]
fn manifest_lists_part_one_first_though_part_three_finished_first() {
    let (upload, _) = opened(120 * MIB);
    let (upload, _) = upload.on_part_response(3, 200, tag("three"));
    let (upload, _) = upload.on_part_response(1, 200, tag("one"));
    let (upload, action) = upload.on_part_response(2, 200, tag("two"));
    assert_eq!(upload.phase(), UploadPhase::Completing);
    assert_eq!(
        body_text(&action),
        "<CompleteMultipartUpload>\
         <Part><PartNumber>1</PartNumber><ETag>one</ETag></Part>\
         <Part><PartNumber>2</PartNumber><ETag>two</ETag></Part>\
         <Part><PartNumber>3</PartNumber><ETag>three</ETag></Part>\
         </CompleteMultipartUpload>"
    );
}

#[test]
fn manifest_is_the_same_for_every_order_of_completion() {
    let orders: [[u32; 4]; 4] = [[1, 2, 3, 4], [4, 3, 2, 1], [2, 4, 1, 3], [3, 1, 4, 2]];
    let mut bodies = Vec::new();
    for order in orders {
        let (mut upload, _) = opened(200 * MIB);
        let mut last = UploadAction::Wait;
        for n in order {
            let (next, action) = upload.on_part_response(n, 200, tag(&format!("tag{n}")));
            upload = next;
            last = action;
        }
        assert_eq!(upload.phase(), UploadPhase::Completing);
        bodies.push(body_text(&last));
    }
    assert!(bodies.iter().all(|b| *b == bodies[0]));
    assert!(bodies[0].starts_with("<CompleteMultipartUpload><Part><PartNumber>1</PartNumber>"));
}

#[test]
fn empty_file_is_closed_at_once_with_an_empty_manifest() {
    let (upload, action) = opened(0);
    assert_eq!(upload.phase(), UploadPhase::Completing);
    assert_eq!(upload.parts().len(), 0);
    assert_eq!(body_text(&action), "<CompleteMultipartUpload/>");
    let (upload, action) = upload.on_complete_response(204);
    assert!(matches!(action, UploadAction::Succeeded));
    assert_eq!(upload.phase(), UploadPhase::Done);
}

#[test]
fn rejected_opening_request_fails_the_upload() {
    let (upload, _) = MultipartUpload::begin("b", "r", "k", 10).unwrap();
    let (upload, action) = upload.on_initiate_response(403, &answer("ID"));
    assert!(matches!(
        action,
        UploadAction::Failed(UploadError::InitiateRejected { status: 403 })
    ));
    assert_eq!(upload.phase(), UploadPhase::Failed);
    assert_eq!(upload.failure(), Some(UploadError::InitiateRejected { status: 403 }));
    assert_eq!(upload.in_flight(), 0);
}

#[test]
fn answer_without_upload_id_fails_the_upload() {
    let (upload, _) = MultipartUpload::begin("b", "r", "k", 10).unwrap();
    let (upload, action) = upload.on_initiate_response(200, "<Result/>");
    assert!(matches!(action, UploadAction::Failed(UploadError::MissingUploadId)));
    assert_eq!(upload.phase(), UploadPhase::Failed);
    assert_eq!(upload.in_flight(), 0);
}

#[test]
fn transport_failure_of_the_opening_request_fails_the_upload() {
    let (upload, _) = MultipartUpload::begin("b", "r", "k", 10).unwrap();
    let (upload, action) = upload.on_transport_failure();
    assert!(matches!(action, UploadAction::Failed(UploadError::Transport)));
    assert_eq!(upload.phase(), UploadPhase::Failed);
}

#[test]
fn rejected_closing_request_fails_the_upload_though_every_part_succeeded() {
    let (upload, _) = opened(10);
    let (upload, action) = upload.on_part_response(1, 200, tag("e"));
    assert!(matches!(action, UploadAction::Send(_)));
    let (upload, action) = upload.on_complete_response(500);
    assert!(matches!(
        action,
        UploadAction::Failed(UploadError::CompleteRejected { status: 500 })
    ));
    assert_eq!(upload.phase(), UploadPhase::Failed);
    assert_eq!(upload.failure(), Some(UploadError::CompleteRejected { status: 500 }));
}

#[test]
fn failed_part_fails_the_upload_only_when_the_others_have_ended() {
    let (upload, _) = opened(120 * MIB);
    let (upload, action) = upload.on_part_response(2, 500, tag("e"));
    assert!(matches!(action, UploadAction::Wait));
    assert_eq!(upload.phase(), UploadPhase::UploadingParts);
    assert_eq!(upload.failure(), Some(UploadError::PartRejected { part_number: 2, status: 500 }));
    let (upload, action) = upload.on_part_response(1, 200, tag("e1"));
    assert!(matches!(action, UploadAction::Wait));
    assert_eq!(upload.phase(), UploadPhase::UploadingParts);
    let (upload, action) = upload.on_part_response(3, 200, tag("e3"));
    assert!(matches!(
        action,
        UploadAction::Failed(UploadError::PartRejected { part_number: 2, status: 500 })
    ));
    assert_eq!(upload.phase(), UploadPhase::Failed);
    assert_eq!(upload.in_flight(), 0);
}

#[test]
fn first_failure_is_the_one_reported() {
    let (upload, _) = opened(120 * MIB);
    let (upload, _) = upload.on_part_response(3, 200, EtagHeader::Missing);
    let (upload, _) = upload.on_part_failure(1);
    let (upload, action) = upload.on_part_response(2, 404, EtagHeader::Missing);
    assert!(matches!(action, UploadAction::Failed(UploadError::MissingEtag { part_number: 3 })));
    assert_eq!(upload.failure(), Some(UploadError::MissingEtag { part_number: 3 }));
}

#[test]
fn part_that_cannot_be_sent_fails() {
    let (upload, _) = opened(10);
    let (upload, action) = upload.on_part_failure(1);
    assert!(matches!(action, UploadAction::Failed(UploadError::PartTransfer { part_number: 1 })));
    assert_eq!(upload.phase(), UploadPhase::Failed);
}

#[test]
fn at_most_32_parts_are_in_flight() {
    let count = 100u32;
    let (mut upload, action) = opened(count as u64 * PART_SIZE);
    assert_eq!(upload.parts().len(), 100);
    assert!(matches!(action, UploadAction::StartParts { first: 1, count: 32 }));
    assert_eq!(upload.in_flight(), MAX_IN_FLIGHT);
    let mut started = 32u32;
    // The parts end in the order in which they were started, the first one
    // last among each window.
    let mut waiting: Vec<u32> = (1..=32).collect();
    let mut ended = 0;
    while let Some(n) = waiting.pop() {
        let (next, action) = upload.on_part_response(n, 200, tag(&format!("t{n}")));
        upload = next;
        ended += 1;
        assert!(upload.in_flight() <= MAX_IN_FLIGHT);
        match action {
            UploadAction::StartParts { first, count: 1 } => {
                assert_eq!(first, started + 1);
                started += 1;
                waiting.push(first);
                assert_eq!(upload.in_flight(), MAX_IN_FLIGHT);
            }
            UploadAction::Wait => {
                assert_eq!(started, count);
                assert_eq!(upload.in_flight() as u32, count - ended);
            }
            UploadAction::Send(ref request) => {
                assert_eq!(ended, count);
                assert!(waiting.is_empty());
                assert_eq!(request.canonical_resource, "/bucket/big.bin?uploadId=ID42");
            }
            other => panic!("unexpected action: {other:?}"),
        }
    }
    assert_eq!(ended, 100);
    assert_eq!(upload.phase(), UploadPhase::Completing);
    let numbers: Vec<u32> = upload.parts().iter().map(|p| p.part_number).collect();
    assert_eq!(numbers, (1..=100).collect::<Vec<u32>>());
    assert!(upload.parts().iter().all(|p| p.etag == format!("t{}", p.part_number)));
}

#[test]
fn parts_are_still_started_after_a_failure() {
    let (upload, _) = opened(40 * PART_SIZE);
    let (upload, action) = upload.on_part_response(5, 500, EtagHeader::Missing);
    assert!(matches!(action, UploadAction::StartParts { first: 33, count: 1 }));
    assert_eq!(upload.in_flight(), 32);
    assert_eq!(upload.phase(), UploadPhase::UploadingParts);
}

#[test]
fn events_out_of_turn_change_nothing() {
    let (upload, _) = MultipartUpload::begin("b", "r", "k", 120 * MIB).unwrap();
    let (upload, action) = upload.on_part_response(1, 200, tag("e"));
    assert!(matches!(action, UploadAction::Failed(UploadError::OutOfTurn)));
    assert_eq!(upload.phase(), UploadPhase::Initiating);
    let (upload, action) = upload.on_complete_response(200);
    assert!(matches!(action, UploadAction::Failed(UploadError::OutOfTurn)));
    assert_eq!(upload.phase(), UploadPhase::Initiating);

    let (upload, _) = upload.on_initiate_response(200, &answer("ID42"));
    let (upload, _) = upload.on_part_response(1, 200, tag("e"));
    // The same part cannot end twice.
    let (upload, action) = upload.on_part_response(1, 200, tag("again"));
    assert!(matches!(action, UploadAction::Failed(UploadError::OutOfTurn)));
    assert_eq!(upload.in_flight(), 2);
    assert_eq!(upload.parts()[0].etag, "e");
    let (upload, action) = upload.on_initiate_response(200, &answer("other"));
    assert!(matches!(action, UploadAction::Failed(UploadError::OutOfTurn)));
    assert_eq!(upload.upload_id(), "ID42");
    let (upload, action) = upload.on_transport_failure();
    assert!(matches!(action, UploadAction::Failed(UploadError::OutOfTurn)));
    assert_eq!(upload.phase(), UploadPhase::UploadingParts);
}

#[test]
fn numbers_beyond_the_plan_are_out_of_turn() {
    for n in [0u32, 4, 1000, u32::MAX] {
        let (upload, _) = opened(120 * MIB);
        let (upload, action) = upload.on_part_response(n, 200, tag("e"));
        assert!(matches!(action, UploadAction::Failed(UploadError::OutOfTurn)));
        assert_eq!(upload.in_flight(), 3);
        let (upload, action) = upload.on_part_failure(n);
        assert!(matches!(action, UploadAction::Failed(UploadError::OutOfTurn)));
        assert_eq!(upload.phase(), UploadPhase::UploadingParts);
    }
}

#[test]
fn upload_without_object_key_or_file_name_fails() {
    let r = upload_object("bucket", "r".to_string(), "dir/..", &None, 10);
    assert_eq!(r.err(), Some(UploadError::InvalidFileName));
    let r = upload_object("bucket", "r".to_string(), "dir/..", &Some("key".to_string()), 10);
    let (_, request) = r.unwrap();
    assert_eq!(request.canonical_resource, "/bucket/key?uploads");
}

#[test]
fn batch_upload_names_each_object_after_its_file() {
    let paths = vec!["a/one.txt".to_string(), "..".to_string(), "/abs/two.bin".to_string()];
    let keys = upload_multiple_objects(&paths);
    assert_eq!(
        keys,
        vec![
            Ok("one.txt".to_string()),
            Err(UploadError::InvalidFileName),
            Ok("two.bin".to_string()),
        ]
    );
    assert_eq!(upload_multiple_objects(&vec![]), vec![]);
}
