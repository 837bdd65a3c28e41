use upload_service::pocketbase::{
    check_status, is_success, next_stats_step, record_count, token_from_reply, PocketBaseCall,
    PocketBaseClient, PocketBaseError, StatsStep, REQUEST_COLLECTION, URL_COLLECTION,
};

#[test]
fn auth_endpoint() {
    assert_eq!(
        PocketBaseClient::auth_endpoint("http://pocketbase-service:8090"),
        "http://pocketbase-service:8090/api/collections/_superusers/auth-with-password"
    );
}

#[test]
fn records_endpoints() {
    let c = PocketBaseClient::new(reqwest::Client::new(), "http://pb:8090", "tok".to_string());
    assert_eq!(c.records_endpoint(URL_COLLECTION), "http://pb:8090/api/collections/url/records");
    assert_eq!(
        c.records_endpoint(REQUEST_COLLECTION),
        "http://pb:8090/api/collections/intercepted_requests/records"
    );
    assert_eq!(c.token(), "tok");
}

#[test]
fn success_class() {
    assert!(!is_success(199));
    assert!(is_success(200));
    assert!(is_success(204));
    assert!(is_success(299));
    assert!(!is_success(300));
    assert!(!is_success(404));
}

#[test]
fn status_errors_per_call() {
    assert!(matches!(check_status(200, PocketBaseCall::Authenticate), Ok(())));
    assert!(matches!(
        check_status(400, PocketBaseCall::Authenticate),
        Err(PocketBaseError::AuthenticationStatus(400))
    ));
    assert!(matches!(
        check_status(500, PocketBaseCall::UploadUrl),
        Err(PocketBaseError::UploadUrlStatus(500))
    ));
    assert!(matches!(
        check_status(403, PocketBaseCall::UploadRequest),
        Err(PocketBaseError::UploadRequestStatus(403))
    ));
    match check_status(404, PocketBaseCall::CountRecords("url".to_string())) {
        Err(PocketBaseError::CountStatus { collection, status }) => {
            assert_eq!(collection, "url");
            assert_eq!(status, 404);
        }
        _ => panic!("expected a count error"),
    }
    assert!(matches!(check_status(201, PocketBaseCall::UploadRequest), Ok(())));
}

#[test]
fn token_extraction() {
    assert!(matches!(token_from_reply(Some("abc".to_string())), Ok(t) if t == "abc"));
    assert!(matches!(token_from_reply(None), Err(PocketBaseError::TokenNotFound)));
}

#[test]
fn record_counts() {
    assert_eq!(record_count(Some(42)), 42);
    assert_eq!(record_count(None), 0);
}

#[test]
fn stats_fetched_urls_first() {
    assert!(matches!(next_stats_step(&vec![]), StatsStep::Count { collection: "url" }));
    assert!(matches!(
        next_stats_step(&vec![7]),
        StatsStep::Count { collection: "intercepted_requests" }
    ));
    assert!(matches!(
        next_stats_step(&vec![7, 9]),
        StatsStep::Done { url_count: 7, request_count: 9 }
    ));
}
