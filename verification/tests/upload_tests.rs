use upload_service::upload::{upload_plan, UploadReply, UploadStep, UPLOAD_FIELD};

#[test]
fn urls_twice_then_requests_then_stats() {
    let plan = upload_plan(2, 3);
    let expected = vec![
        UploadStep::Url(0),
        UploadStep::Url(1),
        UploadStep::Url(0),
        UploadStep::Url(1),
        UploadStep::Request(0),
        UploadStep::Request(1),
        UploadStep::Request(2),
        UploadStep::Stats,
    ];
    assert!(plan == expected);
}

#[test]
fn empty_upload_only_fetches_stats() {
    assert!(upload_plan(0, 0) == vec![UploadStep::Stats]);
}

#[test]
fn reply_statuses() {
    assert_eq!(UploadReply::NoFileField.status(), 400);
    assert_eq!(UploadReply::ParseFailed.status(), 400);
    assert_eq!(UploadReply::AuthenticationFailed.status(), 500);
    assert_eq!(UploadReply::Counts { url_count: 1, request_count: 2 }.status(), 200);
}

#[test]
fn upload_field_name() {
    assert_eq!(UPLOAD_FIELD, "file");
}
