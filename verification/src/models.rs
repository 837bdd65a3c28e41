//! The records of a Burp Suite export and of what is uploaded from it.

use vstd::prelude::*;
use crate::headers::HeaderMap;

verus! {

/// A Burp Suite export: its `item` elements.
pub struct BurpLog {
    pub items: Vec<BurpItem>,
}

/// One request/response pair of a Burp Suite export, with every field the
/// export carries.
pub struct BurpItem {
    pub time: Option<String>,
    pub url: String,
    pub host: HostField,
    pub port: u16,
    pub protocol: String,
    pub method: Option<String>,
    pub path: Option<String>,
    pub extension: Option<String>,
    pub request: Base64Content,
    pub status: Option<u16>,
    pub response_length: Option<u32>,
    pub mimetype: Option<String>,
    pub response: Option<Base64Content>,
    pub comment: Option<String>,
}

/// The `host` element: the host name, and its address where the export gives one.
pub struct HostField {
    pub ip: Option<String>,
    pub value: String,
}

/// A request or response as the export writes it: the text, and the `base64`
/// attribute that says whether that text is Base64.
pub struct Base64Content {
    pub value: String,
    pub base64: Option<String>,
}

/// An URL record: the URL cut into scheme, network location and path, with
/// the id that those three give it.
pub struct Url {
    pub id: String,
    pub scheme: String,
    pub netloc: String,
    pub path: String,
    pub ip: Option<String>,
    pub port: u16,
}

/// A request record: one exchange with the URL record it belongs to.
pub struct Request {
    pub time: Option<String>,
    pub url_id: String,
    pub method: Option<String>,
    pub url_parameters: Option<String>,
    pub response_status: Option<u16>,
    pub request_headers: HeaderMap,
    pub request_body: String,
    pub response_headers: HeaderMap,
    pub response_body: String,
    pub response_length: Option<u32>,
}

/// A request record without the id of its URL record, as it is uploaded.
pub struct RequestData {
    pub time: Option<String>,
    pub method: Option<String>,
    pub url_parameters: Option<String>,
    pub response_status: Option<u16>,
    pub request_headers: HeaderMap,
    pub request_body: String,
    pub response_headers: HeaderMap,
    pub response_body: String,
    pub response_length: Option<u32>,
}

/// An optional string, taken by its view.
pub open spec fn opt_text(o: Option<String>) -> Option<Seq<char>> {
    match o {
        Some(s) => Some(s@),
        None => None,
    }
}

/// A copy of an optional string.
pub fn clone_opt(o: &Option<String>) -> (c: Option<String>)
    ensures
        opt_text(c) == opt_text(*o),
{
    match o {
        Some(s) => Some(s.clone()),
        None => None,
    }
}

/// The mathematical content of an URL record.
pub struct UrlView {
    pub id: Seq<char>,
    pub scheme: Seq<char>,
    pub netloc: Seq<char>,
    pub path: Seq<char>,
    pub ip: Option<Seq<char>>,
    pub port: u16,
}

impl View for Url {
    type V = UrlView;

    open spec fn view(&self) -> UrlView {
        UrlView {
            id: self.id@,
            scheme: self.scheme@,
            netloc: self.netloc@,
            path: self.path@,
            ip: opt_text(self.ip),
            port: self.port,
        }
    }
}

/// The mathematical content of a request record without its URL id.
pub struct RequestDataView {
    pub time: Option<Seq<char>>,
    pub method: Option<Seq<char>>,
    pub url_parameters: Option<Seq<char>>,
    pub response_status: Option<u16>,
    pub request_headers: Map<Seq<char>, Seq<char>>,
    pub request_body: Seq<char>,
    pub response_headers: Map<Seq<char>, Seq<char>>,
    pub response_body: Seq<char>,
    pub response_length: Option<u32>,
}

impl View for RequestData {
    type V = RequestDataView;

    open spec fn view(&self) -> RequestDataView {
        RequestDataView {
            time: opt_text(self.time),
            method: opt_text(self.method),
            url_parameters: opt_text(self.url_parameters),
            response_status: self.response_status,
            request_headers: self.request_headers@,
            request_body: self.request_body@,
            response_headers: self.response_headers@,
            response_body: self.response_body@,
            response_length: self.response_length,
        }
    }
}

/// The mathematical content of a request record: the id of its URL record and
/// the rest.
pub struct RequestView {
    pub url_id: Seq<char>,
    pub data: RequestDataView,
}

impl View for Request {
    type V = RequestView;

    open spec fn view(&self) -> RequestView {
        RequestView { url_id: self.url_id@, data: self.data_view() }
    }
}

impl Request {
    /// This record without its URL id.
    pub fn to_request_data(&self) -> (d: RequestData)
        ensures
            d@ == self.data_view(),
            opt_text(d.time) == opt_text(self.time),
            opt_text(d.method) == opt_text(self.method),
            opt_text(d.url_parameters) == opt_text(self.url_parameters),
            d.response_status == self.response_status,
            d.request_headers@ == self.request_headers@,
            d.request_headers.pairs() == self.request_headers.pairs(),
            d.request_body@ == self.request_body@,
            d.response_headers@ == self.response_headers@,
            d.response_headers.pairs() == self.response_headers.pairs(),
            d.response_body@ == self.response_body@,
            d.response_length == self.response_length,
    {
        RequestData {
            time: clone_opt(&self.time),
            method: clone_opt(&self.method),
            url_parameters: clone_opt(&self.url_parameters),
            response_status: self.response_status,
            request_headers: self.request_headers.duplicate(),
            request_body: self.request_body.clone(),
            response_headers: self.response_headers.duplicate(),
            response_body: self.response_body.clone(),
            response_length: self.response_length,
        }
    }

    /// The content of this record without its URL id.
    pub open spec fn data_view(&self) -> RequestDataView {
        RequestDataView {
            time: opt_text(self.time),
            method: opt_text(self.method),
            url_parameters: opt_text(self.url_parameters),
            response_status: self.response_status,
            request_headers: self.request_headers@,
            request_body: self.request_body@,
            response_headers: self.response_headers@,
            response_body: self.response_body@,
            response_length: self.response_length,
        }
    }
}

/// The views of the records hold each field under its own name: the time as
/// the time, the method as the method, and so on for every field.
pub proof fn lemma_record_views(u: Url, r: Request, d: RequestData)
    ensures
        u@.id == u.id@ && u@.scheme == u.scheme@ && u@.netloc == u.netloc@ && u@.path == u.path@,
        u@.ip == opt_text(u.ip) && u@.port == u.port,
        r@.url_id == r.url_id@,
        r@.data.time == opt_text(r.time) && r@.data.method == opt_text(r.method),
        r@.data.url_parameters == opt_text(r.url_parameters),
        r@.data.response_status == r.response_status,
        r@.data.request_headers == r.request_headers@ && r@.data.request_body == r.request_body@,
        r@.data.response_headers == r.response_headers@ && r@.data.response_body
            == r.response_body@,
        r@.data.response_length == r.response_length,
        d@.time == opt_text(d.time) && d@.method == opt_text(d.method),
        d@.url_parameters == opt_text(d.url_parameters),
        d@.response_status == d.response_status,
        d@.request_headers == d.request_headers@ && d@.request_body == d.request_body@,
        d@.response_headers == d.response_headers@ && d@.response_body == d.response_body@,
        d@.response_length == d.response_length,
{
}

} // verus!
