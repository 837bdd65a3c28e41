//! The PocketBase side of an upload: where each call goes, and what each
//! answer means. The calls themselves are made by the application.

use vstd::prelude::*;

verus! {

#[verifier::external_type_specification]
#[verifier::external_body]
pub struct ExHttpClient(reqwest::Client);

/// The collection that holds URL records.
pub const URL_COLLECTION: &'static str = "url";

/// The collection that holds request records.
pub const REQUEST_COLLECTION: &'static str = "intercepted_requests";

/// The address of the password authentication of superusers at `base_url`.
pub open spec fn auth_endpoint_of(base_url: Seq<char>) -> Seq<char> {
    base_url + "/api/collections/_superusers/auth-with-password"@
}

/// The address of the records of `collection` at `base_url`.
pub open spec fn records_endpoint_of(base_url: Seq<char>, collection: Seq<char>) -> Seq<char> {
    base_url + "/api/collections/"@ + collection + "/records"@
}

/// A session with a PocketBase instance: the HTTP client, the address of the
/// instance and the token that authentication gave.
pub struct PocketBaseClient {
    client: reqwest::Client,
    base_url: String,
    token: String,
}

impl PocketBaseClient {
    /// The address of the instance.
    pub closed spec fn base_url_text(&self) -> Seq<char> {
        self.base_url@
    }

    /// The HTTP client of the session.
    pub closed spec fn http_client(&self) -> reqwest::Client {
        self.client
    }

    /// The token that authentication gave.
    pub closed spec fn token_text(&self) -> Seq<char> {
        self.token@
    }

    /// A session with the instance at `base_url`, holding `token`.
    pub fn new(client: reqwest::Client, base_url: &str, token: String) -> (c: PocketBaseClient)
        ensures
            c.http_client() == client,
            c.base_url_text() == base_url@,
            c.token_text() == token@,
    {
        PocketBaseClient { client, base_url: String::from_str(base_url), token }
    }

    /// The HTTP client of the session.
    pub fn http(&self) -> (c: &reqwest::Client)
        ensures
            *c == self.http_client(),
    {
        &self.client
    }

    /// The token that authentication gave.
    pub fn token(&self) -> (t: &str)
        ensures
            t@ == self.token_text(),
    {
        self.token.as_str()
    }

    /// The address of the password authentication of superusers at `base_url`.
    pub fn auth_endpoint(base_url: &str) -> (e: String)
        ensures
            e@ == auth_endpoint_of(base_url@),
            e@ == base_url@ + "/api/collections/_superusers/auth-with-password"@,
    {
        let mut e = String::from_str(base_url);
        e.append("/api/collections/_superusers/auth-with-password");
        e
    }

    /// The address of the records of `collection`.
    pub fn records_endpoint(&self, collection: &str) -> (e: String)
        ensures
            e@ == records_endpoint_of(self.base_url_text(), collection@),
            e@ == self.base_url_text() + "/api/collections/"@ + collection@ + "/records"@,
    {
        let mut e = self.base_url.clone();
        e.append("/api/collections/");
        e.append(collection);
        e.append("/records");
        e
    }
}

/// The calls whose answers the session checks.
pub enum PocketBaseCall {
    Authenticate,
    UploadUrl,
    UploadRequest,
    CountRecords(String),
}

/// What went wrong in a call to PocketBase.
pub enum PocketBaseError {
    /// Authentication was answered with this status.
    AuthenticationStatus(u16),
    /// The authentication answer held no token.
    TokenNotFound,
    /// An URL upload was answered with this status.
    UploadUrlStatus(u16),
    /// A request upload was answered with this status.
    UploadRequestStatus(u16),
    /// Counting the records of `collection` was answered with this status.
    CountStatus { collection: String, status: u16 },
}

/// An HTTP status in the success class, 200 to 299.
pub open spec fn success_status(status: u16) -> bool {
    200 <= status <= 299
}

/// Whether `status` is in the success class, 200 to 299.
pub fn is_success(status: u16) -> (b: bool)
    ensures
        b == success_status(status),
        b == (200 <= status && status <= 299),
{
    200 <= status && status <= 299
}

/// What the answer status `status` of `call` means: nothing wrong, or the
/// error of that call.
pub fn check_status(status: u16, call: PocketBaseCall) -> (r: Result<(), PocketBaseError>)
    ensures
        r is Ok <==> success_status(status),
        r is Ok <==> (200 <= status && status <= 299),
        !success_status(status) ==> match call {
            PocketBaseCall::Authenticate => r == Err::<(), PocketBaseError>(
                PocketBaseError::AuthenticationStatus(status),
            ),
            PocketBaseCall::UploadUrl => r == Err::<(), PocketBaseError>(
                PocketBaseError::UploadUrlStatus(status),
            ),
            PocketBaseCall::UploadRequest => r == Err::<(), PocketBaseError>(
                PocketBaseError::UploadRequestStatus(status),
            ),
            PocketBaseCall::CountRecords(collection) => r == Err::<(), PocketBaseError>(
                PocketBaseError::CountStatus { collection, status },
            ),
        },
{
    if is_success(status) {
        return Ok(());
    }
    match call {
        PocketBaseCall::Authenticate => Err(PocketBaseError::AuthenticationStatus(status)),
        PocketBaseCall::UploadUrl => Err(PocketBaseError::UploadUrlStatus(status)),
        PocketBaseCall::UploadRequest => Err(PocketBaseError::UploadRequestStatus(status)),
        PocketBaseCall::CountRecords(collection) => Err(
            PocketBaseError::CountStatus { collection, status },
        ),
    }
}

/// The token of an authentication answer whose `token` field is `token`
/// (where it is a string).
pub fn token_from_reply(token: Option<String>) -> (r: Result<String, PocketBaseError>)
    ensures
        match token {
            Some(t) => r == Ok::<String, PocketBaseError>(t),
            None => r == Err::<String, PocketBaseError>(PocketBaseError::TokenNotFound),
        },
{
    match token {
        Some(t) => Ok(t),
        None => Err(PocketBaseError::TokenNotFound),
    }
}

/// The record count of a listing whose `totalItems` field is `total_items`
/// (where it is an unsigned integer); 0 where it is not.
pub fn record_count(total_items: Option<u64>) -> (n: usize)
    ensures
        n == (match total_items {
            Some(t) => t as usize,
            None => 0usize,
        }),
{
    match total_items {
        Some(t) => t as usize,
        None => 0,
    }
}

/// What fetching the record counts does next: count the URL records, then
/// the request records, then answer both counts. A count that fails ends the
/// fetch with its error.
pub enum StatsStep {
    Count { collection: &'static str },
    Done { url_count: usize, request_count: usize },
}

/// The next step of fetching the record counts, given the counts fetched so far.
pub open spec fn stats_step_of(counts: Seq<usize>) -> StatsStep {
    if counts.len() == 0 {
        StatsStep::Count { collection: URL_COLLECTION }
    } else if counts.len() == 1 {
        StatsStep::Count { collection: REQUEST_COLLECTION }
    } else {
        StatsStep::Done { url_count: counts[0], request_count: counts[1] }
    }
}

/// The next step of fetching the record counts, given the counts fetched so
/// far, in order.
pub fn next_stats_step(counts: &Vec<usize>) -> (s: StatsStep)
    ensures
        s == stats_step_of(counts@),
{
    if counts.len() == 0 {
        StatsStep::Count { collection: URL_COLLECTION }
    } else if counts.len() == 1 {
        StatsStep::Count { collection: REQUEST_COLLECTION }
    } else {
        StatsStep::Done { url_count: counts[0], request_count: counts[1] }
    }
}

/// A status is a success exactly when it is in 200 to 299: every
/// informational, redirect, client-error and server-error status fails the
/// call.
pub proof fn lemma_success_class(status: u16)
    ensures
        success_status(status) <==> 200 <= status <= 299,
        100 <= status <= 199 ==> !success_status(status),
        300 <= status <= 399 ==> !success_status(status),
        400 <= status <= 499 ==> !success_status(status),
        500 <= status <= 599 ==> !success_status(status),
{
}

/// The counts are fetched in order: the URL records first, then the request
/// records, and then both counts are answered as fetched.
pub proof fn lemma_stats_order(url_count: usize, request_count: usize)
    ensures
        stats_step_of(Seq::empty()) == (StatsStep::Count { collection: URL_COLLECTION }),
        stats_step_of(seq![url_count]) == (StatsStep::Count { collection: REQUEST_COLLECTION }),
        stats_step_of(seq![url_count, request_count]) == (StatsStep::Done {
            url_count,
            request_count,
        }),
{
}

} // verus!
