use upload_service::message::{is_blank_line, split_lines, split_message};
use upload_service::text::is_whitespace;

fn strings(v: &[&str]) -> Vec<String> {
    v.iter().map(|s| s.to_string()).collect()
}

#[test]
fn lines_end_at_lf_and_crlf() {
    assert_eq!(split_lines("a\r\nb\nc"), strings(&["a", "b", "c"]));
}

#[test]
fn lines_of_empty_text() {
    assert_eq!(split_lines(""), Vec::<String>::new());
}

#[test]
fn lone_carriage_return_is_kept() {
    assert_eq!(split_lines("a\r"), strings(&["a\r"]));
    assert_eq!(split_lines("a\rb\n"), strings(&["a\rb"]));
}

#[test]
fn empty_lines_are_lines() {
    assert_eq!(split_lines("a\n\nb"), strings(&["a", "", "b"]));
    assert_eq!(split_lines("\n"), strings(&[""]));
    assert_eq!(split_lines("a\n\n"), strings(&["a", ""]));
}

#[test]
fn final_line_ending_adds_no_line() {
    let text = "GET / HTTP/1.1\nHost: x";
    let plain = split_lines(text);
    assert_eq!(split_lines(&format!("{}\n", text)), plain);
    assert_eq!(split_lines(&format!("{}\r\n", text)), plain);
    assert_eq!(plain.len(), 2);
}

#[test]
fn blank_lines() {
    assert!(is_blank_line(""));
    assert!(is_blank_line(" \t "));
    assert!(is_blank_line("\u{a0}"));
    assert!(!is_blank_line(" a "));
}

#[test]
fn message_splits_at_first_blank_line() {
    let (headers, body) =
        split_message("GET / HTTP/1.1\r\nHost: example.com\r\n\r\nline one\r\n\r\nline two\r\n");
    assert_eq!(headers, strings(&["GET / HTTP/1.1", "Host: example.com"]));
    assert_eq!(body, "line one\n\nline two");
}

#[test]
fn whitespace_line_ends_headers() {
    let (headers, body) = split_message("A: 1\n \t\nbody");
    assert_eq!(headers, strings(&["A: 1"]));
    assert_eq!(body, "body");
}

#[test]
fn message_without_blank_line_has_no_body() {
    let (headers, body) = split_message("A: 1\nB: 2\n");
    assert_eq!(headers, strings(&["A: 1", "B: 2"]));
    assert_eq!(body, "");
}

#[test]
fn message_starting_with_blank_line() {
    let (headers, body) = split_message("\nall body\nhere");
    assert!(headers.is_empty());
    assert_eq!(body, "all body\nhere");
}

#[test]
fn empty_message() {
    let (headers, body) = split_message("");
    assert!(headers.is_empty());
    assert_eq!(body, "");
}

const SAMPLES: &[&str] = &[
    "",
    "\n",
    "\r\n",
    "\r",
    "a",
    "a\r",
    "a\n",
    "a\r\n",
    "a\n\n",
    "a\r\n\r\nb",
    "\n\na",
    "x: 1\n\u{2003}\nbody\r\nmore\n",
    "x\r\r\ny\n\r\n",
    "h1\r\nh2\r\n\t \r\nb1\r\n\r\nb3",
    "\u{85}\nrest",
    "only headers\r\nno blank",
];

/// The reading of a message that `str::lines` and `str::trim` give.
fn reference_split(text: &str) -> (Vec<String>, String) {
    let mut lines = text.lines();
    let mut headers = vec![];
    while let Some(line) = lines.next() {
        if line.trim().is_empty() {
            break;
        }
        headers.push(line.to_string());
    }
    let body: String = lines.collect::<Vec<_>>().join("\n");
    (headers, body)
}

#[test]
fn lines_agree_with_std() {
    for s in SAMPLES {
        let expected: Vec<String> = s.lines().map(|l| l.to_string()).collect();
        assert_eq!(split_lines(s), expected, "lines of {:?}", s);
    }
}

#[test]
fn blank_agrees_with_trim() {
    for s in SAMPLES.iter().chain(["\u{3000}", " x", "\u{200b}"].iter()) {
        for line in s.lines() {
            assert_eq!(is_blank_line(line), line.trim().is_empty(), "line {:?}", line);
        }
    }
}

#[test]
fn split_agrees_with_std_reading() {
    for s in SAMPLES {
        assert_eq!(split_message(s), reference_split(s), "message {:?}", s);
    }
}

#[test]
fn lines_rejoin_to_text() {
    for text in ["a", "a\nb", "a\n\nb", "\nx", "one\ntwo\nthree"] {
        assert_eq!(split_lines(text).join("\n"), text);
    }
}

#[test]
fn white_space_set_agrees_with_std() {
    for code in 0u32..=0x10ffff {
        if let Some(c) = char::from_u32(code) {
            assert_eq!(is_whitespace(c), c.is_whitespace(), "U+{:04X}", code);
        }
    }
}
