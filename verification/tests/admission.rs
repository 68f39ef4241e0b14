use backend::admission::{conclude_request, reply_to, seek_admission, settle, Admission, Reply, ReplyBody};
use backend::errors::AppError;
use backend::identity::get_or_create_browser_id;
use backend::jobs::{completed_job, plan_upload, job_response, JobWithMeta};
use backend::quota::{DailyUsage, QuotaLedger};

const ID: &str = "0123456789abcdef";

#[test]
fn request_within_the_quota_reserves_the_slot() {
    let mut ledger = QuotaLedger::new(1);
    assert_eq!(seek_admission(&mut ledger, ID, false, 3), Ok(Admission::Reserved));
    assert_eq!(
        ledger.usage(ID),
        Some(DailyUsage { day: 3, used: 0, in_progress: true })
    );
}

#[test]
fn bypass_leaves_the_ledger_alone() {
    let mut ledger = QuotaLedger::new(1);
    assert_eq!(seek_admission(&mut ledger, ID, true, 3), Ok(Admission::Unmetered));
    assert_eq!(ledger.usage(ID), None);
    settle(&mut ledger, ID, Admission::Unmetered, true, 3);
    assert_eq!(ledger.usage(ID), None);
    assert_eq!(seek_admission(&mut ledger, ID, true, 3), Ok(Admission::Unmetered));
}

#[test]
fn a_limit_of_zero_turns_the_ledger_off() {
    let mut ledger = QuotaLedger::new(0);
    for _ in 0..5 {
        assert_eq!(seek_admission(&mut ledger, ID, false, 3), Ok(Admission::Unmetered));
        settle(&mut ledger, ID, Admission::Unmetered, true, 3);
    }
    assert_eq!(ledger.usage(ID), None);
}

#[test]
fn settlement_counts_successes_only() {
    let mut ledger = QuotaLedger::new(2);
    assert_eq!(seek_admission(&mut ledger, ID, false, 3), Ok(Admission::Reserved));
    settle(&mut ledger, ID, Admission::Reserved, false, 3);
    assert_eq!(
        ledger.usage(ID),
        Some(DailyUsage { day: 3, used: 0, in_progress: false })
    );
    assert_eq!(seek_admission(&mut ledger, ID, false, 3), Ok(Admission::Reserved));
    settle(&mut ledger, ID, Admission::Reserved, true, 3);
    assert_eq!(
        ledger.usage(ID),
        Some(DailyUsage { day: 3, used: 1, in_progress: false })
    );
}

#[test]
fn reply_to_a_completed_job() {
    let job = completed_job("550e8400-e29b-41d4-a716-446655440000", "clip.mp3");
    assert_eq!(
        reply_to(Ok(job), Some("vs_bid=x".to_string())),
        Reply {
            status: 200,
            body: ReplyBody::Job(job_response("550e8400-e29b-41d4-a716-446655440000")),
            set_cookie: Some("vs_bid=x".to_string()),
        }
    );
}

#[test]
fn reply_to_an_error_carries_the_cookie_too() {
    assert_eq!(
        reply_to(Err(AppError::BadRequest("file field missing".to_string())), Some("c".to_string())),
        Reply {
            status: 400,
            body: ReplyBody::Message("file field missing".to_string()),
            set_cookie: Some("c".to_string()),
        }
    );
    assert_eq!(
        reply_to(Err(AppError::AgentFailure("secret details".to_string())), None),
        Reply {
            status: 500,
            body: ReplyBody::Message("internal server error".to_string()),
            set_cookie: None,
        }
    );
}

// One request as the service handles it: resolve the identity, ask for
// admission, plan and "run" the job, settle, conclude.
fn request(
    ledger: &mut QuotaLedger,
    cookie: Option<&str>,
    file_name: &str,
    today: u64,
    finish: bool,
) -> (String, Option<Reply>) {
    let (identity, set_cookie) = get_or_create_browser_id(cookie);
    let admission = match seek_admission(ledger, &identity, false, today) {
        Ok(admission) => admission,
        Err(err) => {
            let (record, reply) = conclude_request("ts".to_string(), false, Err(err), set_cookie);
            assert_eq!(record.outcome, "too_many_requests");
            return (identity, Some(reply));
        }
    };
    if !finish {
        return (identity, None);
    }
    let result: Result<JobWithMeta, AppError> = plan_upload(Some(file_name))
        .map(|plan| completed_job(&plan.job_id, file_name));
    settle(ledger, &identity, admission, result.is_ok(), today);
    let (_, reply) = conclude_request("ts".to_string(), false, result, set_cookie);
    (identity, Some(reply))
}

#[test]
fn end_to_end_with_a_daily_limit_of_one() {
    let mut ledger = QuotaLedger::new(1);

    // First upload under a fresh identity: let in, but not finished yet.
    let (identity, pending) = request(&mut ledger, None, "clip.mp3", 100, false);
    assert!(pending.is_none());
    let cookie = format!("vs_bid={}", identity);

    // Second upload before the first is done: 429.
    let (same, reply) = request(&mut ledger, Some(&cookie), "clip.mp3", 100, true);
    assert_eq!(same, identity);
    let reply = reply.unwrap();
    assert_eq!(reply.status, 429);
    assert_eq!(reply.set_cookie, None);

    // The first completes: 200 with both URLs.
    let plan = plan_upload(Some("clip.mp3")).unwrap();
    let result = Ok(completed_job(&plan.job_id, "clip.mp3"));
    settle(&mut ledger, &identity, Admission::Reserved, true, 100);
    let (record, reply) = conclude_request("ts".to_string(), false, result, Some(cookie.clone()));
    assert_eq!(record.outcome, "success");
    assert_eq!(record.filename, Some("clip.mp3".to_string()));
    assert_eq!(reply.status, 200);
    match reply.body {
        ReplyBody::Job(job) => {
            assert_eq!(job.job_id, plan.job_id);
            assert_eq!(job.vocals_url, format!("/api/jobs/{}/vocals", plan.job_id));
            assert_eq!(
                job.instrumental_url,
                format!("/api/jobs/{}/instrumental", plan.job_id)
            );
        }
        ReplyBody::Message(text) => panic!("unexpected message {}", text),
    }

    // Another attempt on the same day: 429.
    let (_, reply) = request(&mut ledger, Some(&cookie), "clip.mp3", 100, true);
    assert_eq!(reply.unwrap().status, 429);

    // The next day: 200 again.
    let (_, reply) = request(&mut ledger, Some(&cookie), "clip.mp3", 101, true);
    assert_eq!(reply.unwrap().status, 200);
}

#[test]
fn refused_upload_is_a_bad_request_and_frees_the_slot() {
    let mut ledger = QuotaLedger::new(1);
    let (identity, reply) = request(&mut ledger, None, "clip.txt", 5, true);
    let reply = reply.unwrap();
    assert_eq!(reply.status, 400);
    assert_eq!(
        reply.body,
        ReplyBody::Message("unsupported file type: .txt".to_string())
    );
    assert!(reply.set_cookie.is_some());
    assert_eq!(
        ledger.usage(&identity),
        Some(DailyUsage { day: 5, used: 0, in_progress: false })
    );
    let cookie = format!("vs_bid={}", identity);
    let (_, reply) = request(&mut ledger, Some(&cookie), "clip.mp3", 5, true);
    assert_eq!(reply.unwrap().status, 200);
}

#[test]
fn rejection_is_recorded_and_answered() {
    let err = AppError::TooManyRequests("wait".to_string());
    let (record, reply) = conclude_request("now".to_string(), false, Err(err), Some("c".to_string()));
    assert_eq!(record.ts_rfc3339, "now");
    assert!(!record.bypass);
    assert_eq!(record.outcome, "too_many_requests");
    assert_eq!(record.filename, None);
    assert_eq!(record.error, Some("wait".to_string()));
    assert_eq!(reply.status, 429);
    assert_eq!(reply.body, ReplyBody::Message("wait".to_string()));
    assert_eq!(reply.set_cookie, Some("c".to_string()));
}
