use backend::sweeper::{
    classify_entry, is_expired, job_completed_at, pick_expired_jobs, sweep_interval_seconds,
    sweeper_enabled, timestamp_from_parts, DirEntryInfo, JobState, Timestamp,
};

const JOB_A: &str = "550e8400-e29b-41d4-a716-446655440000";
const JOB_B: &str = "6ba7b810-9dad-11d1-80b4-00c04fd430c8";
const JOB_C: &str = "6ba7b811-9dad-11d1-80b4-00c04fd430c8";
const JOB_D: &str = "6ba7b812-9dad-11d1-80b4-00c04fd430c8";

fn at(secs: i64) -> Timestamp {
    Timestamp { secs, nanos: 0 }
}

fn dir(name: &str, marker: Option<i64>, vocals: Option<i64>, instrumental: Option<i64>) -> DirEntryInfo {
    DirEntryInfo {
        name: Some(name.to_string()),
        is_dir: true,
        marker_modified: marker.map(at),
        vocals_modified: vocals.map(at),
        instrumental_modified: instrumental.map(at),
    }
}

#[test]
fn sweeper_is_off_without_a_time_to_live() {
    assert!(!sweeper_enabled(0));
    assert!(sweeper_enabled(1));
    assert!(sweeper_enabled(3600));
}

#[test]
fn interval_has_a_floor() {
    assert_eq!(sweep_interval_seconds(0), 60);
    assert_eq!(sweep_interval_seconds(59), 60);
    assert_eq!(sweep_interval_seconds(60), 60);
    assert_eq!(sweep_interval_seconds(600), 600);
    assert_eq!(sweep_interval_seconds(u64::MAX), u64::MAX);
}

#[test]
fn marker_decides_when_a_job_completed() {
    assert_eq!(job_completed_at(Some(at(50)), Some(at(70)), Some(at(90))), Some(at(50)));
    assert_eq!(job_completed_at(Some(at(50)), None, None), Some(at(50)));
}

#[test]
fn artifacts_decide_without_a_marker() {
    assert_eq!(job_completed_at(None, Some(at(70)), Some(at(90))), Some(at(90)));
    assert_eq!(job_completed_at(None, Some(at(90)), Some(at(70))), Some(at(90)));
    assert_eq!(
        job_completed_at(
            None,
            Some(Timestamp { secs: 5, nanos: 2 }),
            Some(Timestamp { secs: 5, nanos: 1 })
        ),
        Some(Timestamp { secs: 5, nanos: 2 })
    );
}

#[test]
fn incomplete_artifacts_decide_nothing() {
    assert_eq!(job_completed_at(None, Some(at(70)), None), None);
    assert_eq!(job_completed_at(None, None, Some(at(70))), None);
    assert_eq!(job_completed_at(None, None, None), None);
}

#[test]
fn expiry_is_reached_at_the_time_to_live() {
    assert!(!is_expired(at(1000), at(500), 501));
    assert!(is_expired(at(1000), at(500), 500));
    assert!(is_expired(at(1000), at(500), 499));
    assert!(!is_expired(
        Timestamp { secs: 1000, nanos: 0 },
        Timestamp { secs: 500, nanos: 1 },
        500
    ));
    assert!(is_expired(
        Timestamp { secs: 1000, nanos: 1 },
        Timestamp { secs: 500, nanos: 1 },
        500
    ));
}

#[test]
fn completion_in_the_future_counts_as_now() {
    assert!(!is_expired(at(1000), at(2000), 1));
    assert!(is_expired(at(1000), at(2000), 0));
}

#[test]
fn expiry_with_extreme_instants() {
    let first = Timestamp { secs: i64::MIN, nanos: 0 };
    let last = Timestamp { secs: i64::MAX, nanos: 999_999_999 };
    assert!(is_expired(last, first, u64::MAX));
    assert!(!is_expired(first, last, 1));
    assert!(!is_expired(at(0), at(-1), 2));
    assert!(is_expired(at(0), at(-2), 2));
}

#[test]
fn entries_are_classified() {
    let now = at(10_000);
    let ttl = 3600;
    assert_eq!(
        classify_entry(&dir(JOB_A, Some(6_400), None, None), now, ttl),
        JobState::Expired
    );
    assert_eq!(
        classify_entry(&dir(JOB_A, Some(6_401), None, None), now, ttl),
        JobState::Done
    );
    assert_eq!(
        classify_entry(&dir(JOB_A, None, Some(1), None), now, ttl),
        JobState::Pending
    );
    assert_eq!(
        classify_entry(&dir(JOB_A, None, Some(1), Some(2)), now, ttl),
        JobState::Expired
    );
    assert_eq!(
        classify_entry(&dir("lost+found", Some(1), Some(1), Some(1)), now, ttl),
        JobState::NotAJob
    );
    let mut file = dir(JOB_A, Some(1), Some(1), Some(1));
    file.is_dir = false;
    assert_eq!(classify_entry(&file, now, ttl), JobState::NotAJob);
    let mut nameless = dir(JOB_A, Some(1), Some(1), Some(1));
    nameless.name = None;
    assert_eq!(classify_entry(&nameless, now, ttl), JobState::NotAJob);
}

#[test]
fn sweep_removes_expired_jobs_only() {
    let now = at(100_000);
    let ttl = 3600;
    let mut stray_file = dir(JOB_D, Some(1), Some(1), Some(1));
    stray_file.is_dir = false;
    let entries = vec![
        // completed long ago: removed
        dir(JOB_A, Some(90_000), Some(89_000), Some(89_000)),
        // completed within the time to live: kept
        dir(JOB_B, Some(99_000), Some(98_000), Some(98_000)),
        // no marker and only one artifact: kept
        dir(JOB_C, None, Some(10), None),
        // old, but not named by a job id: kept
        dir("not-a-job", Some(10), Some(10), Some(10)),
        // a file named like a job: kept
        stray_file,
        // no marker, both artifacts old: removed
        dir(JOB_D, None, Some(10), Some(20)),
    ];
    assert_eq!(pick_expired_jobs(ttl, now, &entries), vec![0, 5]);
}

#[test]
fn sweep_with_no_time_to_live_removes_nothing() {
    let entries = vec![dir(JOB_A, Some(0), Some(0), Some(0))];
    assert_eq!(pick_expired_jobs(0, at(1_000_000), &entries), Vec::<usize>::new());
}

#[test]
fn sweep_of_an_empty_listing() {
    assert_eq!(pick_expired_jobs(60, at(1_000_000), &Vec::new()), Vec::<usize>::new());
}

#[test]
fn sweep_takes_the_later_artifact() {
    let now = at(10_000);
    let entries = vec![
        dir(JOB_A, None, Some(1_000), Some(9_500)),
        dir(JOB_B, None, Some(9_500), Some(1_000)),
        dir(JOB_C, None, Some(1_000), Some(2_000)),
    ];
    assert_eq!(pick_expired_jobs(1_000, now, &entries), vec![2]);
}

#[test]
fn an_unreadable_entry_is_spared_and_harms_no_other() {
    let now = at(100_000);
    let unreadable = DirEntryInfo::unreadable(Some(JOB_A.to_string()));
    assert_eq!(
        unreadable,
        DirEntryInfo {
            name: Some(JOB_A.to_string()),
            is_dir: false,
            marker_modified: None,
            vocals_modified: None,
            instrumental_modified: None,
        }
    );
    assert_eq!(classify_entry(&unreadable, now, 3600), JobState::NotAJob);
    let entries = vec![
        unreadable,
        dir(JOB_B, Some(90_000), None, None),
        DirEntryInfo::unreadable(None),
        dir(JOB_C, Some(1), Some(1), Some(1)),
    ];
    assert_eq!(pick_expired_jobs(3600, now, &entries), vec![1, 3]);
}

#[test]
fn timestamps_after_the_epoch() {
    assert_eq!(timestamp_from_parts(false, 0, 0), Timestamp { secs: 0, nanos: 0 });
    assert_eq!(
        timestamp_from_parts(false, 1_700_000_000, 123_456_789),
        Timestamp { secs: 1_700_000_000, nanos: 123_456_789 }
    );
    assert_eq!(
        timestamp_from_parts(false, 5, 1_500_000_000),
        Timestamp { secs: 6, nanos: 500_000_000 }
    );
}

#[test]
fn timestamps_before_the_epoch() {
    assert_eq!(timestamp_from_parts(true, 0, 0), Timestamp { secs: 0, nanos: 0 });
    assert_eq!(timestamp_from_parts(true, 10, 0), Timestamp { secs: -10, nanos: 0 });
    assert_eq!(
        timestamp_from_parts(true, 10, 1),
        Timestamp { secs: -11, nanos: 999_999_999 }
    );
    assert_eq!(
        timestamp_from_parts(true, 0, 250_000_000),
        Timestamp { secs: -1, nanos: 750_000_000 }
    );
}

#[test]
fn timestamps_out_of_range_become_the_nearest() {
    assert_eq!(
        timestamp_from_parts(false, u64::MAX, 0),
        Timestamp { secs: i64::MAX, nanos: 999_999_999 }
    );
    assert_eq!(
        timestamp_from_parts(false, i64::MAX as u64, 999_999_999),
        Timestamp { secs: i64::MAX, nanos: 999_999_999 }
    );
    assert_eq!(
        timestamp_from_parts(true, u64::MAX, 5),
        Timestamp { secs: i64::MIN, nanos: 0 }
    );
    assert_eq!(
        timestamp_from_parts(true, 1 << 63, 0),
        Timestamp { secs: i64::MIN, nanos: 0 }
    );
    assert_eq!(
        timestamp_from_parts(true, (1 << 63) - 1, 1),
        Timestamp { secs: i64::MIN, nanos: 999_999_999 }
    );
}

#[test]
fn timestamps_keep_their_order() {
    let earlier = timestamp_from_parts(true, 3, 500_000_000);
    let later = timestamp_from_parts(true, 3, 400_000_000);
    assert!(is_expired(later, earlier, 0));
    assert_eq!(job_completed_at(None, Some(earlier), Some(later)), Some(later));
    assert_eq!(job_completed_at(None, Some(later), Some(earlier)), Some(later));
}
