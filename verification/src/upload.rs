//! The course of an upload request: which records are sent to PocketBase, in
//! which order, and what the request is answered.
//!
//! Once authenticated, every URL record is uploaded, then every URL record once
//! more, then every request record, and then the record counts are fetched. A
//! failed upload is reported and the next one goes ahead, so the course does
//! not depend on what the uploads answer.

use vstd::prelude::*;

verus! {

/// The name of the multipart field that carries the Burp Suite export.
pub const UPLOAD_FIELD: &'static str = "file";

/// One call to PocketBase in the course of an upload.
#[derive(PartialEq, Eq, Structural)]
pub enum UploadStep {
    /// Upload the URL record at this index.
    Url(usize),
    /// Upload the request record at this index.
    Request(usize),
    /// Fetch the numbers of URL and request records.
    Stats,
}

/// The steps that upload every one of `url_count` URL records.
pub open spec fn url_steps(url_count: nat) -> Seq<UploadStep> {
    Seq::new(url_count, |i: int| UploadStep::Url(i as usize))
}

/// The steps that upload every one of `request_count` request records.
pub open spec fn request_steps(request_count: nat) -> Seq<UploadStep> {
    Seq::new(request_count, |i: int| UploadStep::Request(i as usize))
}

/// The course of an upload of `url_count` URL records and `request_count`
/// request records: the URL records twice over, the request records, then the
/// counts.
pub open spec fn upload_course(url_count: nat, request_count: nat) -> Seq<UploadStep> {
    url_steps(url_count) + url_steps(url_count) + request_steps(request_count) + seq![
        UploadStep::Stats,
    ]
}

/// The steps of an upload of `url_count` URL records and `request_count`
/// request records, in order.
pub fn upload_plan(url_count: usize, request_count: usize) -> (plan: Vec<UploadStep>)
    ensures
        plan@ == upload_course(url_count as nat, request_count as nat),
{
    let mut plan: Vec<UploadStep> = Vec::new();
    let mut round: usize = 0;
    while round < 2
        invariant
            round <= 2,
            round == 0 ==> plan@ == Seq::<UploadStep>::empty(),
            round == 1 ==> plan@ == url_steps(url_count as nat),
            round == 2 ==> plan@ == url_steps(url_count as nat) + url_steps(url_count as nat),
        decreases 2 - round,
    {
        let ghost start = plan@;
        let mut i: usize = 0;
        while i < url_count
            invariant
                i <= url_count,
                plan@ == start + url_steps(i as nat),
            decreases url_count - i,
        {
            plan.push(UploadStep::Url(i));
            assert(url_steps((i + 1) as nat) =~= url_steps(i as nat).push(UploadStep::Url(i)));
            i += 1;
        }
        assert(start == Seq::<UploadStep>::empty() ==> start + url_steps(url_count as nat)
            =~= url_steps(url_count as nat));
        round += 1;
    }
    let ghost start = plan@;
    let mut j: usize = 0;
    while j < request_count
        invariant
            j <= request_count,
            plan@ == start + request_steps(j as nat),
        decreases request_count - j,
    {
        plan.push(UploadStep::Request(j));
        assert(request_steps((j + 1) as nat) =~= request_steps(j as nat).push(
            UploadStep::Request(j),
        ));
        j += 1;
    }
    plan.push(UploadStep::Stats);
    plan
}

/// What an upload request is answered.
pub enum UploadReply {
    /// No multipart field carried an export.
    NoFileField,
    /// The export could not be converted.
    ParseFailed,
    /// PocketBase refused the credentials.
    AuthenticationFailed,
    /// The uploads went through; PocketBase now holds these numbers of URL and
    /// request records.
    Counts { url_count: usize, request_count: usize },
}

/// The HTTP status of each reply.
pub open spec fn reply_status(reply: UploadReply) -> u16 {
    match reply {
        UploadReply::NoFileField => 400,
        UploadReply::ParseFailed => 400,
        UploadReply::AuthenticationFailed => 500,
        UploadReply::Counts { .. } => 200,
    }
}

impl UploadReply {
    /// The HTTP status of this reply.
    pub fn status(&self) -> (s: u16)
        ensures
            s == reply_status(*self),
            s == (match *self {
                UploadReply::NoFileField => 400u16,
                UploadReply::ParseFailed => 400u16,
                UploadReply::AuthenticationFailed => 500u16,
                UploadReply::Counts { .. } => 200u16,
            }),
    {
        match self {
            UploadReply::NoFileField => 400,
            UploadReply::ParseFailed => 400,
            UploadReply::AuthenticationFailed => 500,
            UploadReply::Counts { .. } => 200,
        }
    }
}

/// In the course of an upload every URL record is uploaded twice, first all of
/// them in order and then all of them again, then every request record once in
/// order, and the counts are fetched last; nothing in it depends on what an
/// upload answers.
pub proof fn lemma_upload_course(url_count: nat, request_count: nat)
    ensures
        upload_course(url_count, request_count).len() == 2 * url_count + request_count + 1,
        forall|i: int|
            0 <= i < url_count ==> {
                &&& #[trigger] upload_course(url_count, request_count)[i] == UploadStep::Url(i as usize)
                &&& upload_course(url_count, request_count)[url_count + i] == UploadStep::Url(i as usize)
            },
        forall|j: int|
            0 <= j < request_count ==> #[trigger] upload_course(url_count, request_count)[2
                * url_count + j] == UploadStep::Request(j as usize),
        upload_course(url_count, request_count).last() == UploadStep::Stats,
{
    let c = upload_course(url_count, request_count);
    assert forall|i: int| 0 <= i < url_count implies {
        &&& #[trigger] c[i] == UploadStep::Url(i as usize)
        &&& c[url_count + i] == UploadStep::Url(i as usize)
    } by {
        assert(c[i] == url_steps(url_count)[i]);
        assert(c[url_count + i] == url_steps(url_count)[i]);
    }
    assert forall|j: int| 0 <= j < request_count implies #[trigger] c[2 * url_count + j]
        == UploadStep::Request(j as usize) by {
        assert(c[2 * url_count + j] == request_steps(request_count)[j]);
    }
}

} // verus!
