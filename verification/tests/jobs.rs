use backend::errors::AppError;
use backend::jobs::{
    after_step, check_extension, completed_job, first_step, plan_upload,
    is_allowed_extension, is_upload_field, job_response, missing_upload, upload_extension,
    JobStep, NextAction, INSTRUMENTAL_FILE, JOB_DONE_CONTENT, JOB_DONE_MARKER, VOCALS_FILE,
};
use backend::ids::is_job_id;

fn bad_request(message: &str) -> AppError {
    AppError::BadRequest(message.to_string())
}

#[test]
fn fixed_names_of_the_job_directory() {
    assert_eq!(JOB_DONE_MARKER, ".done");
    assert_eq!(JOB_DONE_CONTENT, "ok");
    assert_eq!(VOCALS_FILE, "vocals.wav");
    assert_eq!(INSTRUMENTAL_FILE, "instrumental.wav");
}

#[test]
fn allowed_extensions() {
    for ext in ["mp3", "wav", "m4a", "flac", "ogg", "aac"] {
        assert!(is_allowed_extension(ext));
    }
}

#[test]
fn other_extensions_are_not_allowed() {
    for ext in ["txt", "", "MP3", "mp4", "mp3 ", ".mp3", "wave", "exe"] {
        assert!(!is_allowed_extension(ext));
    }
}

#[test]
fn upload_with_allowed_extension_is_accepted() {
    assert_eq!(upload_extension(Some("clip.mp3")), Ok("mp3".to_string()));
    assert_eq!(upload_extension(Some("a.b.flac")), Ok("flac".to_string()));
    assert_eq!(upload_extension(Some("dir/song.ogg")), Ok("ogg".to_string()));
}

#[test]
fn extension_is_matched_without_regard_to_case() {
    assert_eq!(upload_extension(Some("CLIP.MP3")), Ok("mp3".to_string()));
    assert_eq!(upload_extension(Some("Song.WaV")), Ok("wav".to_string()));
    assert_eq!(upload_extension(Some("x.M4A")), Ok("m4a".to_string()));
}

#[test]
fn upload_with_other_extension_is_refused() {
    assert_eq!(
        upload_extension(Some("clip.txt")),
        Err(bad_request("unsupported file type: .txt"))
    );
    assert_eq!(
        upload_extension(Some("clip.MP4")),
        Err(bad_request("unsupported file type: .mp4"))
    );
    assert_eq!(
        upload_extension(Some("clip.")),
        Err(bad_request("unsupported file type: ."))
    );
}

#[test]
fn upload_without_extension_is_refused() {
    assert_eq!(
        upload_extension(Some("clip")),
        Err(bad_request("unable to detect extension"))
    );
    assert_eq!(
        upload_extension(Some(".mp3")),
        Err(bad_request("unable to detect extension"))
    );
    assert_eq!(
        upload_extension(Some("")),
        Err(bad_request("unable to detect extension"))
    );
    assert_eq!(
        upload_extension(Some("a.mp3/b")),
        Err(bad_request("unable to detect extension"))
    );
}

#[test]
fn upload_without_file_name_is_refused() {
    assert_eq!(upload_extension(None), Err(bad_request("filename missing")));
}

#[test]
fn refusals_are_client_errors() {
    let err = upload_extension(Some("clip.txt")).unwrap_err();
    assert_eq!(err.status_code(), 400);
    assert_eq!(err.outcome(), "bad_request");
    assert_eq!(err.response_body(), "unsupported file type: .txt");
}

#[test]
fn check_extension_takes_the_detected_extension() {
    assert_eq!(check_extension(Some("aac".to_string())), Ok("aac".to_string()));
    assert_eq!(
        check_extension(Some("AAC".to_string())),
        Err(bad_request("unsupported file type: .AAC"))
    );
    assert_eq!(
        check_extension(None),
        Err(bad_request("unable to detect extension"))
    );
}

#[test]
fn accepted_upload_gets_a_plan() {
    let plan = plan_upload(Some("clip.MP3")).unwrap();
    assert_eq!(plan.input_file_name, "input.mp3");
    assert_eq!(plan.job_id.len(), 36);
    assert!(is_job_id(&plan.job_id));
    let other = plan_upload(Some("clip.mp3")).unwrap();
    assert_ne!(plan.job_id, other.job_id);
}

#[test]
fn refused_upload_gets_no_plan() {
    assert_eq!(
        plan_upload(Some("clip.txt")),
        Err(bad_request("unsupported file type: .txt"))
    );
    assert_eq!(plan_upload(None), Err(bad_request("filename missing")));
}

#[test]
fn upload_field_is_named_file() {
    assert!(is_upload_field(Some("file")));
    assert!(!is_upload_field(Some("File")));
    assert!(!is_upload_field(Some("files")));
    assert!(!is_upload_field(Some("")));
    assert!(!is_upload_field(None));
    assert_eq!(missing_upload(), bad_request("file field missing"));
}

#[test]
fn job_response_has_both_urls() {
    let response = job_response("550e8400-e29b-41d4-a716-446655440000");
    assert_eq!(response.job_id, "550e8400-e29b-41d4-a716-446655440000");
    assert_eq!(
        response.vocals_url,
        "/api/jobs/550e8400-e29b-41d4-a716-446655440000/vocals"
    );
    assert_eq!(
        response.instrumental_url,
        "/api/jobs/550e8400-e29b-41d4-a716-446655440000/instrumental"
    );
}

#[test]
fn completed_job_keeps_the_file_name() {
    let job = completed_job("abc", "clip.mp3");
    assert_eq!(job.file_name, Some("clip.mp3".to_string()));
    assert_eq!(job.response, job_response("abc"));
}

#[test]
fn steps_follow_each_other_on_success() {
    assert_eq!(first_step(), JobStep::CreateDirectory);
    assert_eq!(
        after_step(JobStep::CreateDirectory, true),
        NextAction::Proceed(JobStep::SaveInput)
    );
    assert_eq!(
        after_step(JobStep::SaveInput, true),
        NextAction::Proceed(JobStep::RunAgent)
    );
    assert_eq!(
        after_step(JobStep::RunAgent, true),
        NextAction::Proceed(JobStep::WriteMarker)
    );
    assert_eq!(after_step(JobStep::WriteMarker, true), NextAction::Complete);
}

#[test]
fn failures_roll_the_job_back() {
    assert_eq!(after_step(JobStep::CreateDirectory, false), NextAction::RollBack);
    assert_eq!(after_step(JobStep::SaveInput, false), NextAction::RollBack);
    assert_eq!(after_step(JobStep::RunAgent, false), NextAction::RollBack);
}

#[test]
fn a_marker_that_cannot_be_written_does_not_fail_the_job() {
    assert_eq!(after_step(JobStep::WriteMarker, false), NextAction::Complete);
}

fn run(outcomes: [bool; 4]) -> NextAction {
    let mut step = first_step();
    let mut i = 0;
    loop {
        match after_step(step, outcomes[i]) {
            NextAction::Proceed(next) => step = next,
            end => return end,
        }
        i += 1;
    }
}

#[test]
fn creation_completes_or_rolls_back() {
    for bits in 0..16u8 {
        let outcomes = [bits & 1 != 0, bits & 2 != 0, bits & 4 != 0, bits & 8 != 0];
        let expected = if outcomes[0] && outcomes[1] && outcomes[2] {
            NextAction::Complete
        } else {
            NextAction::RollBack
        };
        assert_eq!(run(outcomes), expected);
    }
}
