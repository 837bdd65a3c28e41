use upload_service::headers::{parse_headers, split_header, HeaderMap};

#[test]
fn header_line_is_cut_at_first_separator() {
    assert_eq!(
        split_header("Host: example.com"),
        Some(("Host".to_string(), "example.com".to_string()))
    );
    assert_eq!(split_header("a: b: c"), Some(("a".to_string(), "b: c".to_string())));
    assert_eq!(split_header(": v"), Some((String::new(), "v".to_string())));
    assert_eq!(split_header("k: "), Some(("k".to_string(), String::new())));
}

#[test]
fn line_without_separator_is_no_header() {
    assert_eq!(split_header("GET / HTTP/1.1"), None);
    assert_eq!(split_header("a:b"), None);
    assert_eq!(split_header("a :"), None);
    assert_eq!(split_header(""), None);
}

#[test]
fn name_separator_and_value_make_the_line() {
    let line = "X-Note: a: b";
    let (name, value) = split_header(line).unwrap();
    assert_eq!(format!("{}: {}", name, value), line);
}

#[test]
fn later_header_replaces_earlier() {
    let lines: Vec<String> =
        ["GET / HTTP/1.1", "Cookie: a=1", "Host: x", "Cookie: b=2"].iter().map(|s| s.to_string()).collect();
    let m = parse_headers(&lines);
    assert_eq!(m.len(), 2);
    assert_eq!(m.get("Cookie"), Some(&"b=2".to_string()));
    assert_eq!(m.get("Host"), Some(&"x".to_string()));
    assert_eq!(m.get("GET / HTTP/1.1"), None);
    let names: Vec<&str> = m.entries().iter().map(|(k, _)| k.as_str()).collect();
    assert_eq!(names, vec!["Cookie", "Host"]);
}

#[test]
fn insert_then_get() {
    let mut m = HeaderMap::new();
    assert_eq!(m.len(), 0);
    m.insert("A".to_string(), "1".to_string());
    m.insert("B".to_string(), "2".to_string());
    m.insert("A".to_string(), "3".to_string());
    assert_eq!(m.get("A"), Some(&"3".to_string()));
    assert_eq!(m.get("B"), Some(&"2".to_string()));
    assert_eq!(m.get("C"), None);
    assert_eq!(m.len(), 2);
    let copy = m.duplicate();
    assert_eq!(copy.entries(), m.entries());
}

#[test]
fn names_are_case_sensitive() {
    let lines = vec!["Host: a".to_string(), "host: b".to_string()];
    let m = parse_headers(&lines);
    assert_eq!(m.len(), 2);
    assert_eq!(m.get("Host"), Some(&"a".to_string()));
}
