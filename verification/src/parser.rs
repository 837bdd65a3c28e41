//! Turning the items of a Burp Suite export into URL and request records.
//!
//! For each item the URL is parsed and cut into scheme, network location and
//! path; those three give the URL record its id. The Base64 request and
//! response are decoded and split into header lines and body; the header lines
//! become header maps.

use vstd::prelude::*;
use crate::bindings::{
    base64_standard_decode, decode_base64, decode_utf8_lossy, hex_encode, hex_lower,
    is_lower_hex, lemma_hex_lower, parse_url, sha256, sha256_digest, url_components, url_parse, utf8_lossy, UrlError,
    UrlParts,
};
use crate::headers::{header_map_of, parse_headers};
use crate::message::{
    compose_message, has_blank_line, header_lines_ok, is_blank, lemma_message_roundtrip,
    lines_of, message_body, message_headers, no_newline, plain_body, proper_header_line,
    split_message,
};
use crate::models::{clone_opt, opt_text, Request, RequestDataView, Url, UrlView};
use crate::text::{texts, white_space};

verus! {

/// The parts of an export item that the conversion reads.
pub struct BurpLog {
    pub items: Vec<BurpItem>,
}

/// One exchange of the export, as far as the conversion reads it.
pub struct BurpItem {
    pub time: Option<String>,
    pub url: String,
    pub host: HostField,
    pub port: u16,
    pub method: Option<String>,
    pub request: Base64Content,
    pub status: Option<u16>,
    pub response_length: Option<u32>,
    pub response: Option<Base64Content>,
}

/// The `host` element, as far as the conversion reads it.
pub struct HostField {
    pub ip: Option<String>,
}

/// A Base64 request or response text.
pub struct Base64Content {
    pub value: String,
}

/// The id of the URL with the given scheme, network location and path: the
/// lower-case hex SHA-256 digest of the UTF-8 of `scheme://netlocpath`.
pub open spec fn url_id_of(scheme: Seq<char>, netloc: Seq<char>, path: Seq<char>) -> Seq<char> {
    hex_lower(sha256_digest(vstd::utf8::encode_utf8(scheme + "://"@ + netloc + path)))
}

/// 64 lower-case hex digits: the shape of every URL id.
pub open spec fn is_url_id(id: Seq<char>) -> bool {
    &&& id.len() == 64
    &&& forall|i: int| 0 <= i < 64 ==> is_lower_hex(#[trigger] id[i])
}

/// Computes the id of the URL with the given scheme, network location and path.
pub fn compute_url_id(scheme: &str, netloc: &str, path: &str) -> (id: String)
    ensures
        id@ == hex_lower(
            sha256_digest(vstd::utf8::encode_utf8(scheme@ + "://"@ + netloc@ + path@)),
        ),
        id@ == url_id_of(scheme@, netloc@, path@),
        is_url_id(id@),
{
    let mut full = String::from_str(scheme);
    full.append("://");
    full.append(netloc);
    full.append(path);
    let digest = sha256(full.as_str().as_bytes());
    proof {
        lemma_hex_lower(digest@);
    }
    hex_encode(digest.as_slice())
}

/// The header lines and body that a Base64 text decodes to. Where the text is
/// not Base64, one header line `<invalid base64>` and an empty body.
pub open spec fn decoded_message(value: Seq<char>) -> (Seq<Seq<char>>, Seq<char>) {
    match base64_standard_decode(vstd::utf8::encode_utf8(value)) {
        Some(bytes) => (message_headers(utf8_lossy(bytes)), message_body(utf8_lossy(bytes))),
        None => (seq!["<invalid base64>"@], Seq::<char>::empty()),
    }
}

/// Decodes a Base64 request or response and splits it into header lines and
/// body.
pub fn decode_and_split(field: &Base64Content) -> (parts: (Vec<String>, String))
    ensures
        (texts(parts.0@), parts.1@) == decoded_message(field.value@),
        match base64_standard_decode(vstd::utf8::encode_utf8(field.value@)) {
            Some(bytes) => texts(parts.0@) == message_headers(utf8_lossy(bytes)) && parts.1@
                == message_body(utf8_lossy(bytes)),
            None => texts(parts.0@) == seq!["<invalid base64>"@] && parts.1@.len() == 0,
        },
        header_lines_ok(texts(parts.0@)),
        parts.1@.len() > 0 ==> match base64_standard_decode(vstd::utf8::encode_utf8(field.value@)) {
            Some(bytes) => has_blank_line(lines_of(utf8_lossy(bytes))),
            None => false,
        },
        forall|hs: Seq<Seq<char>>, body: Seq<char>|
            #![trigger compose_message(hs, body)]
            header_lines_ok(hs) && plain_body(body) && base64_standard_decode(
                vstd::utf8::encode_utf8(field.value@),
            ) == Some(vstd::utf8::encode_utf8(compose_message(hs, body))) ==> texts(parts.0@)
                == hs && parts.1@ == body,
{
    match decode_base64(field.value.as_str().as_bytes()) {
        Some(bytes) => {
            let decoded = decode_utf8_lossy(bytes.as_slice());
            let parts = split_message(decoded.as_str());
            proof {
                assert forall|hs: Seq<Seq<char>>, body: Seq<char>|
                    #![trigger compose_message(hs, body)]
                    header_lines_ok(hs) && plain_body(body) && base64_standard_decode(
                        vstd::utf8::encode_utf8(field.value@),
                    ) == Some(vstd::utf8::encode_utf8(compose_message(hs, body))) implies texts(
                    parts.0@,
                ) == hs && parts.1@ == body by {
                    let text = compose_message(hs, body);
                    vstd::utf8::encode_utf8_valid_utf8(text);
                    vstd::utf8::encode_utf8_decode_utf8(text);
                    assert(decoded@ == text);
                    lemma_message_roundtrip(hs, body);
                }
            }
            parts
        },
        None => {
            let mut lines: Vec<String> = Vec::new();
            lines.push("<invalid base64>".to_string());
            let parts = (lines, String::new());
            assert(texts(parts.0@) =~= seq!["<invalid base64>"@]);
            proof {
                reveal_strlit("<invalid base64>");
                let marker = "<invalid base64>"@;
                assert(!white_space(marker[0]));
                assert(!is_blank(marker));
                assert(no_newline(marker));
                assert(proper_header_line(texts(parts.0@)[0]));
            }
            parts
        },
    }
}

/// The network location of a parsed URL: its host, or the empty string.
pub open spec fn netloc_of(host: Option<Seq<char>>) -> Seq<char> {
    match host {
        Some(h) => h,
        None => Seq::empty(),
    }
}

/// The URL record of `item`, whose URL parsed to `parts`.
pub open spec fn url_record(
    item: BurpItem,
    parts: (Seq<char>, Option<Seq<char>>, Seq<char>, Option<Seq<char>>),
) -> UrlView {
    UrlView {
        id: url_id_of(parts.0, netloc_of(parts.1), parts.2),
        scheme: parts.0,
        netloc: netloc_of(parts.1),
        path: parts.2,
        ip: opt_text(item.host.ip),
        port: item.port,
    }
}

/// The header lines and body of the response of `item`; none and empty where
/// the item has no response.
pub open spec fn response_message(item: BurpItem) -> (Seq<Seq<char>>, Seq<char>) {
    match item.response {
        Some(r) => decoded_message(r.value@),
        None => (Seq::<Seq<char>>::empty(), Seq::<char>::empty()),
    }
}

/// The id of an URL record depends on the scheme, the network location and the
/// path of its URL alone: two items whose URLs agree on those three get the
/// same id, whatever their query, address, port or exchange.
pub proof fn lemma_id_by_location(
    a: BurpItem,
    parts_a: (Seq<char>, Option<Seq<char>>, Seq<char>, Option<Seq<char>>),
    b: BurpItem,
    parts_b: (Seq<char>, Option<Seq<char>>, Seq<char>, Option<Seq<char>>),
)
    requires
        parts_a.0 == parts_b.0,
        netloc_of(parts_a.1) == netloc_of(parts_b.1),
        parts_a.2 == parts_b.2,
    ensures
        url_record(a, parts_a).id == url_record(b, parts_b).id,
{
}

/// What the records of an item hold, field by field: the URL record has the
/// parsed scheme, host (or the empty string) and path, the address and port of
/// the item, and as id the lower-case hex SHA-256 of the UTF-8 of the whole text
/// `scheme://netlocpath`; the request record has the time, method, status and
/// response length of the item, and as URL parameters the whole query of the
/// parsed URL.
pub proof fn lemma_record_fields(
    item: BurpItem,
    parts: (Seq<char>, Option<Seq<char>>, Seq<char>, Option<Seq<char>>),
)
    ensures
        url_record(item, parts).scheme == parts.0,
        url_record(item, parts).netloc == netloc_of(parts.1),
        url_record(item, parts).path == parts.2,
        url_record(item, parts).ip == opt_text(item.host.ip),
        url_record(item, parts).port == item.port,
        url_record(item, parts).id == hex_lower(
            sha256_digest(vstd::utf8::encode_utf8(parts.0 + "://"@ + netloc_of(parts.1) + parts.2)),
        ),
        request_record(item, parts).url_parameters == parts.3,
        request_record(item, parts).time == opt_text(item.time),
        request_record(item, parts).method == opt_text(item.method),
        request_record(item, parts).response_status == item.status,
        request_record(item, parts).response_length == item.response_length,
{
}

/// The text hashed for an URL id ends with the whole path, so URLs that differ
/// only in their paths hash different texts: the UTF-8 of `scheme://netlocpath`
/// differs for different paths.
pub proof fn lemma_url_id_text(scheme: Seq<char>, netloc: Seq<char>, path_a: Seq<char>, path_b: Seq<char>)
    ensures
        url_id_of(scheme, netloc, path_a) == hex_lower(
            sha256_digest(vstd::utf8::encode_utf8(scheme + "://"@ + netloc + path_a)),
        ),
        (scheme + "://"@ + netloc + path_a).skip(
            (scheme + "://"@ + netloc + path_a).len() - path_a.len(),
        ) == path_a,
        path_a != path_b ==> vstd::utf8::encode_utf8(scheme + "://"@ + netloc + path_a)
            != vstd::utf8::encode_utf8(scheme + "://"@ + netloc + path_b),
{
    let prefix = scheme + "://"@ + netloc;
    let ta = prefix + path_a;
    let tb = prefix + path_b;
    assert(ta.skip(ta.len() - path_a.len()) =~= path_a);
    if path_a != path_b {
        vstd::utf8::encode_utf8_decode_utf8(ta);
        vstd::utf8::encode_utf8_decode_utf8(tb);
        assert(tb.skip(prefix.len() as int) =~= path_b);
        assert(ta.skip(prefix.len() as int) =~= path_a);
        if ta == tb {
            assert(path_a == path_b);
        }
    }
}

/// The request record of `item` without its URL id, where the URL of the item
/// parsed to `parts`.
pub open spec fn request_record(
    item: BurpItem,
    parts: (Seq<char>, Option<Seq<char>>, Seq<char>, Option<Seq<char>>),
) -> RequestDataView {
    RequestDataView {
        time: opt_text(item.time),
        method: opt_text(item.method),
        url_parameters: parts.3,
        response_status: item.status,
        request_headers: header_map_of(decoded_message(item.request.value@).0),
        request_body: decoded_message(item.request.value@).1,
        response_headers: header_map_of(response_message(item).0),
        response_body: response_message(item).1,
        response_length: item.response_length,
    }
}

/// The URL record and the request record of `item`, whose URL parsed to
/// `parts`. The request record carries the id of the URL record.
pub fn item_records(item: &BurpItem, parts: UrlParts) -> (records: (Url, Request))
    ensures
        records.0@ == url_record(*item, parts.components()),
        records.0.id@ == hex_lower(
            sha256_digest(
                vstd::utf8::encode_utf8(
                    parts.scheme@ + "://"@ + netloc_of(opt_text(parts.host)) + parts.path@,
                ),
            ),
        ),
        records.0.scheme@ == parts.scheme@,
        records.0.netloc@ == netloc_of(opt_text(parts.host)),
        records.0.path@ == parts.path@,
        opt_text(records.0.ip) == opt_text(item.host.ip),
        records.0.port == item.port,
        is_url_id(records.0.id@),
        records.1.url_id@ == records.0.id@,
        records.1.data_view() == request_record(*item, parts.components()),
        opt_text(records.1.time) == opt_text(item.time),
        opt_text(records.1.method) == opt_text(item.method),
        opt_text(records.1.url_parameters) == opt_text(parts.query),
        records.1.response_status == item.status,
        records.1.response_length == item.response_length,
{
    let UrlParts { scheme, host, path, query } = parts;
    let netloc = match host {
        Some(h) => h,
        None => String::new(),
    };
    let url_id = compute_url_id(scheme.as_str(), netloc.as_str(), path.as_str());
    let url = Url {
        id: url_id.clone(),
        scheme,
        netloc,
        path,
        ip: clone_opt(&item.host.ip),
        port: item.port,
    };
    let (req_lines, req_body) = decode_and_split(&item.request);
    let (res_lines, res_body) = match &item.response {
        Some(resp) => decode_and_split(resp),
        None => (Vec::new(), String::new()),
    };
    proof {
        assert(texts(Seq::<String>::empty()) =~= Seq::<Seq<char>>::empty());
    }
    let request_headers = parse_headers(&req_lines);
    let response_headers = parse_headers(&res_lines);
    let request = Request {
        time: clone_opt(&item.time),
        url_id,
        method: clone_opt(&item.method),
        url_parameters: query,
        response_status: item.status,
        request_headers,
        request_body: req_body,
        response_headers,
        response_body: res_body,
        response_length: item.response_length,
    };
    (url, request)
}

/// Why an export could not be converted: the URL of item `item` does not
/// parse; `reason` is the kind of error the URL parser reported.
pub enum ExportError {
    InvalidUrl { item: usize, reason: UrlError },
}

/// The records of an export: one URL record and one request record per item,
/// in the order of the items.
pub struct BurpExport {
    pub urls: Vec<Url>,
    pub requests: Vec<Request>,
}

/// The URL of every item of `items` parses.
pub open spec fn all_urls_parse(items: Seq<BurpItem>) -> bool {
    forall|i: int| 0 <= i < items.len() ==> (#[trigger] url_components(items[i].url@)) is Some
}

/// `e` holds the records of `items`, in order.
pub open spec fn records_of(e: BurpExport, items: Seq<BurpItem>) -> bool {
    &&& e.urls@.len() == items.len()
    &&& e.requests@.len() == items.len()
    &&& forall|i: int|
        0 <= i < items.len() ==> {
            let parts = url_components(items[i].url@).unwrap();
            &&& (#[trigger] e.urls@[i])@ == url_record(items[i], parts)
            &&& e.urls@[i].id@ == hex_lower(
                sha256_digest(
                    vstd::utf8::encode_utf8(parts.0 + "://"@ + netloc_of(parts.1) + parts.2),
                ),
            )
            &&& opt_text(e.requests@[i].url_parameters) == parts.3
            &&& opt_text(e.requests@[i].time) == opt_text(items[i].time)
            &&& opt_text(e.requests@[i].method) == opt_text(items[i].method)
            &&& is_url_id(e.urls@[i].id@)
            &&& e.requests@[i].url_id@ == e.urls@[i].id@
            &&& e.requests@[i].data_view() == request_record(items[i], parts)
        }
}

/// Converts every item of `log` into its URL record and its request record.
/// Fails, at the first item whose URL does not parse, where there is one.
pub fn build_export(log: &BurpLog) -> (r: Result<BurpExport, ExportError>)
    ensures
        r is Ok <==> all_urls_parse(log.items@),
        match r {
            Ok(e) => records_of(e, log.items@),
            Err(ExportError::InvalidUrl { item, reason }) => {
                &&& item < log.items@.len()
                &&& url_parse(log.items@[item as int].url@) == Err::<
                    (Seq<char>, Option<Seq<char>>, Seq<char>, Option<Seq<char>>),
                    UrlError,
                >(reason)
                &&& all_urls_parse(log.items@.take(item as int))
            },
        },
{
    let n = log.items.len();
    let mut urls: Vec<Url> = Vec::new();
    let mut requests: Vec<Request> = Vec::new();
    let mut i: usize = 0;
    while i < n
        invariant
            n == log.items.len(),
            i <= n,
            all_urls_parse(log.items@.take(i as int)),
            records_of(BurpExport { urls, requests }, log.items@.take(i as int)),
        decreases n - i,
    {
        let item = &log.items[i];
        match parse_url(item.url.as_str()) {
            Ok(parts) => {
                let ghost comps = parts.components();
                let (url, request) = item_records(item, parts);
                let ghost (u0, r0) = (urls@, requests@);
                urls.push(url);
                requests.push(request);
                proof {
                    let items = log.items@.take(i + 1);
                    assert(items.take(i as int) =~= log.items@.take(i as int));
                    assert forall|j: int| 0 <= j < items.len() implies (#[trigger] url_components(
                        items[j].url@,
                    )) is Some by {
                        if j < i {
                            assert(items[j] == log.items@.take(i as int)[j]);
                        }
                    }
                    assert forall|j: int| 0 <= j < items.len() implies {
                        let parts = url_components(items[j].url@).unwrap();
                        &&& (#[trigger] urls@[j])@ == url_record(items[j], parts)
                        &&& urls@[j].id@ == hex_lower(
                            sha256_digest(
                                vstd::utf8::encode_utf8(
                                    parts.0 + "://"@ + netloc_of(parts.1) + parts.2,
                                ),
                            ),
                        )
                        &&& opt_text(requests@[j].url_parameters) == parts.3
                        &&& opt_text(requests@[j].time) == opt_text(items[j].time)
                        &&& opt_text(requests@[j].method) == opt_text(items[j].method)
                        &&& is_url_id(urls@[j].id@)
                        &&& requests@[j].url_id@ == urls@[j].id@
                        &&& requests@[j].data_view() == request_record(items[j], parts)
                    } by {
                        if j < i {
                            assert(items[j] == log.items@.take(i as int)[j]);
                            assert(urls@[j] == u0[j]);
                            assert(requests@[j] == r0[j]);
                        }
                    }
                }
            },
            Err(reason) => {
                proof {
                    assert(log.items@.take(i as int).len() == i);
                    assert(url_components(log.items@[i as int].url@) is None);
                }
                return Err(ExportError::InvalidUrl { item: i, reason });
            },
        }
        i += 1;
    }
    assert(log.items@.take(n as int) =~= log.items@);
    Ok(BurpExport { urls, requests })
}

} // verus!
