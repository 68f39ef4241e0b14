//! Admission control for job requests: who is let in, how the outcome of a
//! job is settled against the quota, and what the client is told.

use vstd::prelude::*;
use crate::errors::{AppError, ErrorView};
use crate::jobs::{JobResponse, JobWithMeta};
use crate::quota::{
    admits, after_commit, after_release, after_reserve, QuotaLedger, UsageMap, QUOTA_MESSAGE,
};
use crate::records::{optional_text, request_record, RequestRecord, OUTCOME_SUCCESS};

verus! {

/// HTTP status of a request that succeeded.
pub const STATUS_OK: u16 = 200;

/// On what terms a request has been let in.
#[derive(Debug, Clone, Copy, PartialEq, Eq, Structural)]
pub enum Admission {
    /// Outside the quota: the ledger is off, or the request presented the
    /// bypass credential. Nothing was reserved and nothing is to be settled.
    Unmetered,
    /// Within the quota: the slot of the identity is reserved and has to be
    /// settled when the job has reached its outcome.
    Reserved,
}

/// What is sent to the client.
#[derive(Debug, Clone, PartialEq, Eq)]
pub struct Reply {
    /// The HTTP status.
    pub status: u16,
    /// The body.
    pub body: ReplyBody,
    /// The directive that sets the identity cookie, where the identity was
    /// minted for this request.
    pub set_cookie: Option<String>,
}

/// The body of a reply.
#[derive(Debug, Clone, PartialEq, Eq)]
pub enum ReplyBody {
    /// The completed job, sent as JSON.
    Job(JobResponse),
    /// A text for the user.
    Message(String),
}

/// Whether a request is subject to the quota: the daily limit is not
/// nought, and the request does not present the bypass credential.
pub open spec fn is_metered(limit: u32, bypass: bool) -> bool {
    limit > 0 && !bypass
}

/// Whether a request is let in.
pub open spec fn is_admitted(m: UsageMap, limit: u32, id: Seq<char>, bypass: bool, today: u64) -> bool {
    !is_metered(limit, bypass) || admits(m, limit, id, today)
}

/// The ledger after a request has asked to be let in.
pub open spec fn after_admission(
    m: UsageMap,
    limit: u32,
    id: Seq<char>,
    bypass: bool,
    today: u64,
) -> UsageMap {
    if is_metered(limit, bypass) {
        after_reserve(m, limit, id, today)
    } else {
        m
    }
}

/// The ledger after the job of a request that was let in has reached its
/// outcome.
pub open spec fn after_settlement(
    m: UsageMap,
    id: Seq<char>,
    admission: Admission,
    succeeded: bool,
    today: u64,
) -> UsageMap {
    match admission {
        Admission::Unmetered => m,
        Admission::Reserved => if succeeded {
            after_commit(m, id, today)
        } else {
            after_release(m, id, today)
        },
    }
}

/// Lets a request in or turns it away.
///
/// A request outside the quota is let in without a look at the ledger. A
/// request within the quota is let in if the slot of its identity can be
/// reserved for `today`, and turned away otherwise.
pub fn seek_admission(ledger: &mut QuotaLedger, browser_id: &str, bypass: bool, today: u64) -> (outcome:
    Result<Admission, AppError>)
    requires
        old(ledger).wf(),
    ensures
        final(ledger).wf(),
        final(ledger).limit() == old(ledger).limit(),
        final(ledger)@ == after_admission(
            old(ledger)@,
            old(ledger).limit(),
            browser_id@,
            bypass,
            today,
        ),
        outcome is Ok <==> is_admitted(
            old(ledger)@,
            old(ledger).limit(),
            browser_id@,
            bypass,
            today,
        ),
        outcome matches Ok(admission) ==> admission == if is_metered(
            old(ledger).limit(),
            bypass,
        ) {
            Admission::Reserved
        } else {
            Admission::Unmetered
        },
        outcome matches Err(e) ==> e@ == ErrorView::TooManyRequests(QUOTA_MESSAGE@),
{
    if ledger.daily_limit() > 0 && !bypass {
        match ledger.reserve_daily_slot(browser_id, today) {
            Ok(_) => Ok(Admission::Reserved),
            Err(e) => Err(e),
        }
    } else {
        Ok(Admission::Unmetered)
    }
}

/// Settles the outcome of a job against the quota of its identity.
///
/// A success within the quota is counted and frees the slot; a failure
/// frees the slot and is not counted. A job outside the quota leaves the
/// ledger as it is.
pub fn settle(
    ledger: &mut QuotaLedger,
    browser_id: &str,
    admission: Admission,
    succeeded: bool,
    today: u64,
)
    requires
        old(ledger).wf(),
    ensures
        final(ledger).wf(),
        final(ledger).limit() == old(ledger).limit(),
        final(ledger)@ == after_settlement(old(ledger)@, browser_id@, admission, succeeded, today),
{
    match admission {
        Admission::Unmetered => {},
        Admission::Reserved => {
            if succeeded {
                ledger.mark_daily_success(browser_id, today);
            } else {
                ledger.release_daily_slot(browser_id, today);
            }
        },
    }
}

/// What the client is told of a request that ended as `result`.
///
/// A completed job is sent with status 200. An error is sent with its own
/// status and body. The directive for the identity cookie goes out with
/// either.
pub fn reply_to(result: Result<JobWithMeta, AppError>, set_cookie: Option<String>) -> (reply: Reply)
    ensures
        reply.set_cookie == set_cookie,
        match result {
            Ok(job) => reply.status == STATUS_OK && reply.body == ReplyBody::Job(job.response),
            Err(e) => {
                &&& reply.status == e.status()
                &&& reply.body matches ReplyBody::Message(text)
                &&& text@ == e.body_text()
            },
        },
{
    match result {
        Ok(job) => Reply { status: STATUS_OK, body: ReplyBody::Job(job.response), set_cookie },
        Err(e) => Reply {
            status: e.status_code(),
            body: ReplyBody::Message(e.response_body()),
            set_cookie,
        },
    }
}

/// Concludes a request for a job: the record for the audit log and the
/// reply for the client.
///
/// `result` is how the request ended: the completed job, the error that
/// stopped it, or the rejection of its admission. `ts_rfc3339` is the time
/// of the conclusion and `set_cookie` the directive for a freshly minted
/// identity, which is sent on every path.
pub fn conclude_request(
    ts_rfc3339: String,
    bypass: bool,
    result: Result<JobWithMeta, AppError>,
    set_cookie: Option<String>,
) -> (concluded: (RequestRecord, Reply))
    ensures
        concluded.0.ts_rfc3339 == ts_rfc3339,
        concluded.0.bypass == bypass,
        concluded.1.set_cookie == set_cookie,
        match result {
            Ok(job) => {
                &&& concluded.0.outcome@ == OUTCOME_SUCCESS@
                &&& optional_text(concluded.0.filename) == optional_text(job.file_name)
                &&& concluded.0.error is None
                &&& concluded.1.status == STATUS_OK
                &&& concluded.1.body == ReplyBody::Job(job.response)
            },
            Err(e) => {
                &&& concluded.0.outcome@ == e.outcome_text()
                &&& concluded.0.filename is None
                &&& optional_text(concluded.0.error) == Some(e.message_text())
                &&& concluded.1.status == e.status()
                &&& concluded.1.body matches ReplyBody::Message(text)
                &&& text@ == e.body_text()
            },
        },
{
    let record = request_record(ts_rfc3339, bypass, &result);
    let reply = reply_to(result, set_cookie);
    (record, reply)
}

} // verus!
