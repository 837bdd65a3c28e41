use base64::Engine;
use upload_service::bindings::{UrlError, UrlParts};
use upload_service::parser::{
    build_export, compute_url_id, decode_and_split, item_records, Base64Content, BurpItem,
    BurpLog, ExportError, HostField,
};

const REQUEST_B64: &str = "R0VUIC9sb2dpbj94PTEgSFRUUC8xLjENCkhvc3Q6IGV4YW1wbGUuY29tDQpBY2NlcHQ6ICovKg0KDQp1c2VyPWEmcGFzcz1i";
const RESPONSE_B64: &str = "SFRUUC8xLjEgMjAwIE9LDQpDb250ZW50LVR5cGU6IHRleHQvaHRtbA0KU2V0LUNvb2tpZTogYT0xDQpTZXQtQ29va2llOiBiPTINCg0KPGh0bWw+DQo8L2h0bWw+DQo=";

fn item(url: &str, response: Option<&str>) -> BurpItem {
    BurpItem {
        time: Some("Mon Jan 01 00:00:00 UTC 2024".to_string()),
        url: url.to_string(),
        host: HostField { ip: Some("93.184.216.34".to_string()) },
        port: 443,
        method: Some("GET".to_string()),
        request: Base64Content { value: REQUEST_B64.to_string() },
        status: Some(200),
        response_length: Some(120),
        response: response.map(|r| Base64Content { value: r.to_string() }),
    }
}

#[test]
fn url_id_is_hex_sha256_of_location() {
    assert_eq!(
        compute_url_id("https", "example.com", "/login"),
        "a461758d8f4e0782dfa6fe66b6cdd0023c6d6894d56b4866364795c211b780f0"
    );
    assert_eq!(
        compute_url_id("http", "", "/"),
        "09fa562fee69c3f238d911312e59ef87c59fbb43e84f84f75191e8a33e3919b7"
    );
}

#[test]
fn decode_request() {
    let (headers, body) = decode_and_split(&Base64Content { value: REQUEST_B64.to_string() });
    assert_eq!(headers, vec!["GET /login?x=1 HTTP/1.1", "Host: example.com", "Accept: */*"]);
    assert_eq!(body, "user=a&pass=b");
}

#[test]
fn decode_invalid_base64() {
    let (headers, body) = decode_and_split(&Base64Content { value: "not base64!".to_string() });
    assert_eq!(headers, vec!["<invalid base64>"]);
    assert_eq!(body, "");
}

#[test]
fn decode_invalid_utf8_lossily() {
    let (headers, body) = decode_and_split(&Base64Content { value: "WDog//4KCmJvZHk=".to_string() });
    assert_eq!(headers, vec!["X: \u{fffd}\u{fffd}"]);
    assert_eq!(body, "body");
}

#[test]
fn decode_empty() {
    let (headers, body) = decode_and_split(&Base64Content { value: String::new() });
    assert!(headers.is_empty());
    assert_eq!(body, "");
}

#[test]
fn export_records() {
    let log = BurpLog {
        items: vec![
            item("https://example.com/login?x=1", Some(RESPONSE_B64)),
            item("https://example.com/login", None),
        ],
    };
    let export = match build_export(&log) {
        Ok(e) => e,
        Err(_) => panic!("export should convert"),
    };
    assert_eq!(export.urls.len(), 2);
    assert_eq!(export.requests.len(), 2);
    let url = &export.urls[0];
    assert_eq!(url.id, "a461758d8f4e0782dfa6fe66b6cdd0023c6d6894d56b4866364795c211b780f0");
    assert_eq!(url.scheme, "https");
    assert_eq!(url.netloc, "example.com");
    assert_eq!(url.path, "/login");
    assert_eq!(url.ip.as_deref(), Some("93.184.216.34"));
    assert_eq!(url.port, 443);
    assert_eq!(export.urls[1].id, url.id);

    let req = &export.requests[0];
    assert_eq!(req.url_id, url.id);
    assert_eq!(req.time.as_deref(), Some("Mon Jan 01 00:00:00 UTC 2024"));
    assert_eq!(req.method.as_deref(), Some("GET"));
    assert_eq!(req.url_parameters.as_deref(), Some("x=1"));
    assert_eq!(req.response_status, Some(200));
    assert_eq!(req.response_length, Some(120));
    assert_eq!(req.request_headers.len(), 2);
    assert_eq!(req.request_headers.get("Host"), Some(&"example.com".to_string()));
    assert_eq!(req.request_headers.get("Accept"), Some(&"*/*".to_string()));
    assert_eq!(req.request_body, "user=a&pass=b");
    assert_eq!(req.response_headers.get("Set-Cookie"), Some(&"b=2".to_string()));
    assert_eq!(req.response_headers.get("Content-Type"), Some(&"text/html".to_string()));
    assert_eq!(req.response_body, "<html>\n</html>");

    let plain = &export.requests[1];
    assert_eq!(plain.url_parameters, None);
    assert_eq!(plain.response_headers.len(), 0);
    assert_eq!(plain.response_body, "");

    let data = req.to_request_data();
    assert_eq!(data.request_body, req.request_body);
    assert_eq!(data.url_parameters, req.url_parameters);
    assert_eq!(data.response_headers.entries(), req.response_headers.entries());
}

#[test]
fn url_without_host() {
    let log = BurpLog { items: vec![item("mailto:someone@example.com", None)] };
    let export = match build_export(&log) {
        Ok(e) => e,
        Err(_) => panic!("export should convert"),
    };
    assert_eq!(export.urls[0].scheme, "mailto");
    assert_eq!(export.urls[0].netloc, "");
    assert_eq!(export.urls[0].path, "someone@example.com");
    assert_eq!(export.urls[0].id, compute_url_id("mailto", "", "someone@example.com"));
}

#[test]
fn first_bad_url_fails_the_export() {
    let log = BurpLog {
        items: vec![
            item("https://example.com/", None),
            item("/relative/path", None),
            item("also not an url", None),
        ],
    };
    match build_export(&log) {
        Err(ExportError::InvalidUrl { item, reason }) => {
            assert_eq!(item, 1);
            assert_eq!(reason, UrlError::RelativeUrlWithoutBase);
        }
        Ok(_) => panic!("a relative URL must fail"),
    }
}

#[test]
fn empty_export() {
    let export = match build_export(&BurpLog { items: vec![] }) {
        Ok(e) => e,
        Err(_) => panic!("an empty log converts"),
    };
    assert!(export.urls.is_empty());
    assert!(export.requests.is_empty());
}

#[test]
fn records_from_given_url_parts() {
    let parts = UrlParts {
        scheme: "https".to_string(),
        host: None,
        path: "/a".to_string(),
        query: Some("q=1".to_string()),
    };
    let (url, request) = item_records(&item("ignored", None), parts);
    assert_eq!(url.scheme, "https");
    assert_eq!(url.netloc, "");
    assert_eq!(url.path, "/a");
    assert_eq!(url.id, compute_url_id("https", "", "/a"));
    assert_eq!(request.url_id, url.id);
    assert_eq!(request.url_parameters.as_deref(), Some("q=1"));
    assert_eq!(request.request_body, "user=a&pass=b");
}

fn decode(value: &str) -> (Vec<String>, String) {
    decode_and_split(&Base64Content { value: value.to_string() })
}

#[test]
fn decode_crlf_message() {
    assert_eq!(decode("YTogMQ0KDQp4DQp5"), (vec!["a: 1".to_string()], "x\ny".to_string()));
}

#[test]
fn only_first_blank_line_separates() {
    assert_eq!(decode("YQoKYgoKYw=="), (vec!["a".to_string()], "b\n\nc".to_string()));
}

#[test]
fn space_only_line_separates() {
    assert_eq!(decode("YQogCmI="), (vec!["a".to_string()], "b".to_string()));
}

#[test]
fn invalid_utf8_byte_is_replaced() {
    assert_eq!(decode("/w=="), (vec!["\u{fffd}".to_string()], String::new()));
}

#[test]
fn encoded_message_round_trip() {
    let cases: Vec<(Vec<&str>, &str)> = vec![
        (vec!["GET / HTTP/1.1", "Host: a"], "x=1\ny=2"),
        (vec!["POST /p HTTP/1.1"], ""),
        (vec![], "only body"),
        (vec!["A: 1", "B: \u{e9}t\u{e9}"], "\u{65e5}\u{672c}"),
    ];
    for (headers, body) in cases {
        let text = headers.iter().map(|h| format!("{}\r\n", h)).collect::<String>() + "\r\n" + body;
        let value = base64::engine::general_purpose::STANDARD.encode(text.as_bytes());
        let expected: Vec<String> = headers.iter().map(|h| h.to_string()).collect();
        assert_eq!(decode(&value), (expected, body.to_string()));
    }
}

#[test]
fn worked_export_item() {
    let log = BurpLog {
        items: vec![BurpItem {
            time: None,
            url: "http://A.com:8080/p?q=1#f".to_string(),
            host: HostField { ip: Some("1.2.3.4".to_string()) },
            port: 8080,
            method: None,
            request: Base64Content { value: "YTogMQ0KDQp4DQp5".to_string() },
            status: None,
            response_length: None,
            response: None,
        }],
    };
    let export = match build_export(&log) {
        Ok(e) => e,
        Err(_) => panic!("export should convert"),
    };
    let url = &export.urls[0];
    assert_eq!(url.id, compute_url_id("http", "a.com", "/p"));
    assert_eq!((url.scheme.as_str(), url.netloc.as_str(), url.path.as_str()), ("http", "a.com", "/p"));
    assert_eq!(url.ip.as_deref(), Some("1.2.3.4"));
    assert_eq!(url.port, 8080);
    let req = &export.requests[0];
    assert_eq!(req.url_id, url.id);
    assert_eq!(req.url_parameters.as_deref(), Some("q=1"));
    assert_eq!(req.request_headers.len(), 1);
    assert_eq!(req.request_headers.get("a"), Some(&"1".to_string()));
    assert_eq!(req.request_body, "x\ny");
    assert_eq!(req.response_headers.len(), 0);
    assert_eq!(req.response_body, "");
}
