//! The expiry sweeper: which job directories a pass removes.

use vstd::prelude::*;
use crate::ids::{is_canonical_id, is_id_text, lemma_canonical_id_is_id_text, parses_as_uuid};

verus! {

/// The shortest pause between two passes, in seconds.
pub const MIN_SWEEP_INTERVAL_SECONDS: u64 = 60;

/// Nanoseconds in a second.
pub const NANOS_PER_SECOND: u64 = 1_000_000_000;

/// An instant: `secs` seconds and `nanos` nanoseconds after 1970-01-01
/// 00:00:00 UTC.
#[derive(Debug, Clone, Copy, PartialEq, Eq, Structural)]
pub struct Timestamp {
    pub secs: i64,
    pub nanos: u32,
}

impl Timestamp {
    /// The instant in nanoseconds after the epoch.
    pub open spec fn as_nanos(self) -> int {
        self.secs * NANOS_PER_SECOND + self.nanos
    }

    /// The instant in nanoseconds after the epoch.
    fn to_nanos(&self) -> (n: i128)
        ensures
            n == self.as_nanos(),
    {
        let secs = self.secs as i128;
        assert(-9_223_372_036_854_775_808 * 1_000_000_000 <= secs * 1_000_000_000
            <= 9_223_372_036_854_775_807 * 1_000_000_000) by (nonlinear_arith)
            requires
                -9_223_372_036_854_775_808 <= secs <= 9_223_372_036_854_775_807,
        ;
        secs * 1_000_000_000 + (self.nanos as i128)
    }
}

/// The earliest instant that a `Timestamp` with less than a second of
/// nanoseconds can hold, in nanoseconds after the epoch.
pub open spec fn min_nanos() -> int {
    i64::MIN * NANOS_PER_SECOND
}

/// The latest such instant.
pub open spec fn max_nanos() -> int {
    i64::MAX * NANOS_PER_SECOND + (NANOS_PER_SECOND - 1)
}

/// The instant that lies `secs` seconds and `nanos` nanoseconds after the
/// epoch, or before it, in nanoseconds after the epoch.
pub open spec fn signed_nanos(before_epoch: bool, secs: u64, nanos: u32) -> int {
    if before_epoch {
        -(secs * NANOS_PER_SECOND + nanos)
    } else {
        secs * NANOS_PER_SECOND + nanos
    }
}

/// `v`, or the nearest instant that a `Timestamp` can hold.
pub open spec fn clamped_nanos(v: int) -> int {
    if v < min_nanos() {
        min_nanos()
    } else if v > max_nanos() {
        max_nanos()
    } else {
        v
    }
}

/// The instant that lies `secs` seconds and `nanos` nanoseconds after the
/// epoch, or before it if `before_epoch` is set.
///
/// The result counts whole seconds from the epoch, downwards for an instant
/// before it, and the nanoseconds from there on. An instant out of range
/// becomes the nearest one in range.
pub fn timestamp_from_parts(before_epoch: bool, secs: u64, nanos: u32) -> (t: Timestamp)
    ensures
        t.nanos < NANOS_PER_SECOND,
        t.as_nanos() == clamped_nanos(signed_nanos(before_epoch, secs, nanos)),
{
    let whole = secs as i128;
    assert(0 <= whole * 1_000_000_000 <= 18_446_744_073_709_551_615 * 1_000_000_000)
        by (nonlinear_arith)
        requires
            0 <= whole <= 18_446_744_073_709_551_615,
    ;
    let size: i128 = whole * 1_000_000_000 + (nanos as i128);
    let signed: i128 = if before_epoch {
        -size
    } else {
        size
    };
    let lowest: i128 = -9_223_372_036_854_775_808 * 1_000_000_000;
    let highest: i128 = 9_223_372_036_854_775_807 * 1_000_000_000 + 999_999_999;
    let instant: i128 = if signed < lowest {
        lowest
    } else if signed > highest {
        highest
    } else {
        signed
    };
    assert(instant == clamped_nanos(signed_nanos(before_epoch, secs, nanos)));
    let (seconds, rest): (i128, i128) = if instant >= 0 {
        (instant / 1_000_000_000, instant % 1_000_000_000)
    } else {
        let back = -instant;
        let down = (back + 999_999_999) / 1_000_000_000;
        (-down, down * 1_000_000_000 - back)
    };
    assert(seconds * 1_000_000_000 + rest == instant && 0 <= rest < 1_000_000_000);
    assert(-9_223_372_036_854_775_808 <= seconds <= 9_223_372_036_854_775_807);
    Timestamp { secs: seconds as i64, nanos: rest as u32 }
}

/// What a listing of the job storage root says of one of its entries.
#[derive(Debug, Clone, PartialEq, Eq)]
pub struct DirEntryInfo {
    /// The name of the entry, or `None` where it is not valid Unicode.
    pub name: Option<String>,
    /// Whether the entry is known to be a directory.
    pub is_dir: bool,
    /// When the completion marker in it was last modified, if there is one.
    pub marker_modified: Option<Timestamp>,
    /// When the vocals in it were last modified, if they are there.
    pub vocals_modified: Option<Timestamp>,
    /// When the instrumental in it was last modified, if it is there.
    pub instrumental_modified: Option<Timestamp>,
}

impl DirEntryInfo {
    /// An entry of which nothing could be read but its name. It is not
    /// known to be a directory, no pass removes it, and what becomes of the
    /// other entries of the listing does not depend on it.
    pub fn unreadable(name: Option<String>) -> (entry: DirEntryInfo)
        ensures
            entry.name == name,
            !entry.is_dir,
            entry.marker_modified is None,
            entry.vocals_modified is None,
            entry.instrumental_modified is None,
            forall|now: Timestamp, ttl_seconds: u64| !is_swept(entry, now, ttl_seconds),
    {
        DirEntryInfo {
            name,
            is_dir: false,
            marker_modified: None,
            vocals_modified: None,
            instrumental_modified: None,
        }
    }
}

/// Where a job stands, as far as its directory tells.
#[derive(Debug, Clone, Copy, PartialEq, Eq, Structural)]
pub enum JobState {
    /// The entry is not known to be a job directory: not known to be a
    /// directory, or not named by a job id.
    NotAJob,
    /// The job has not completed: in progress, failed or abandoned.
    Pending,
    /// The job has completed less than the time to live ago.
    Done,
    /// The job has completed at least the time to live ago.
    Expired,
}

/// The later of two instants; the second if they are the same instant.
pub open spec fn later_of(a: Timestamp, b: Timestamp) -> Timestamp {
    if a.as_nanos() <= b.as_nanos() {
        b
    } else {
        a
    }
}

/// When a job completed: when its marker was written if it has one, else
/// when the later of its two artifacts was, if it has both.
pub open spec fn completed_at(
    marker: Option<Timestamp>,
    vocals: Option<Timestamp>,
    instrumental: Option<Timestamp>,
) -> Option<Timestamp> {
    match marker {
        Some(t) => Some(t),
        None => match (vocals, instrumental) {
            (Some(v), Some(i)) => Some(later_of(v, i)),
            _ => None,
        },
    }
}

/// The time that has passed from `then` to `now`, in nanoseconds; nought
/// if `then` is the later.
pub open spec fn age_nanos(now: Timestamp, then: Timestamp) -> int {
    if now.as_nanos() >= then.as_nanos() {
        now.as_nanos() - then.as_nanos()
    } else {
        0
    }
}

/// Whether what completed at `then` has reached the time to live at `now`.
pub open spec fn has_expired(now: Timestamp, then: Timestamp, ttl_seconds: u64) -> bool {
    age_nanos(now, then) >= ttl_seconds * NANOS_PER_SECOND
}

/// Whether an entry can be a job directory: a directory named by a job id.
pub open spec fn is_job_dir(entry: DirEntryInfo) -> bool {
    &&& entry.is_dir
    &&& entry.name matches Some(name)
    &&& is_id_text(name@)
}

/// Where the job of an entry stands at `now`.
pub open spec fn state_of(entry: DirEntryInfo, now: Timestamp, ttl_seconds: u64) -> JobState {
    if !is_job_dir(entry) {
        JobState::NotAJob
    } else {
        match completed_at(
            entry.marker_modified,
            entry.vocals_modified,
            entry.instrumental_modified,
        ) {
            None => JobState::Pending,
            Some(then) => if has_expired(now, then, ttl_seconds) {
                JobState::Expired
            } else {
                JobState::Done
            },
        }
    }
}

/// Whether a pass at `now` removes the entry: the sweeper is on, and the
/// entry is a job that has expired.
pub open spec fn is_swept(entry: DirEntryInfo, now: Timestamp, ttl_seconds: u64) -> bool {
    ttl_seconds > 0 && state_of(entry, now, ttl_seconds) == JobState::Expired
}

/// Whether the sweeper runs at all: a time to live of nought turns it off.
pub fn sweeper_enabled(ttl_seconds: u64) -> (enabled: bool)
    ensures
        enabled == (ttl_seconds > 0),
{
    ttl_seconds > 0
}

/// The pause between two passes: the configured one, but not less than the
/// shortest pause.
pub fn sweep_interval_seconds(configured: u64) -> (interval: u64)
    ensures
        interval == if configured >= MIN_SWEEP_INTERVAL_SECONDS {
            configured
        } else {
            MIN_SWEEP_INTERVAL_SECONDS
        },
{
    if configured >= MIN_SWEEP_INTERVAL_SECONDS {
        configured
    } else {
        MIN_SWEEP_INTERVAL_SECONDS
    }
}

/// When a job completed, by the modification times found in its directory.
pub fn job_completed_at(
    marker: Option<Timestamp>,
    vocals: Option<Timestamp>,
    instrumental: Option<Timestamp>,
) -> (completed: Option<Timestamp>)
    ensures
        completed == completed_at(marker, vocals, instrumental),
{
    if let Some(t) = marker {
        return Some(t);
    }
    match (vocals, instrumental) {
        (Some(v), Some(i)) => if v.to_nanos() <= i.to_nanos() {
            Some(i)
        } else {
            Some(v)
        },
        _ => None,
    }
}

/// Whether what completed at `then` has reached the time to live at `now`.
pub fn is_expired(now: Timestamp, then: Timestamp, ttl_seconds: u64) -> (expired: bool)
    ensures
        expired == has_expired(now, then, ttl_seconds),
{
    let now_nanos = now.to_nanos();
    let then_nanos = then.to_nanos();
    let age: i128 = if now_nanos >= then_nanos {
        now_nanos - then_nanos
    } else {
        0
    };
    let ttl = ttl_seconds as i128;
    assert(0 <= ttl * 1_000_000_000 <= 18_446_744_073_709_551_615 * 1_000_000_000)
        by (nonlinear_arith)
        requires
            0 <= ttl <= 18_446_744_073_709_551_615,
    ;
    age >= ttl * 1_000_000_000
}

/// Where the job of an entry stands at `now`.
pub fn classify_entry(entry: &DirEntryInfo, now: Timestamp, ttl_seconds: u64) -> (state: JobState)
    ensures
        state == state_of(*entry, now, ttl_seconds),
{
    if !entry.is_dir {
        return JobState::NotAJob;
    }
    match &entry.name {
        None => JobState::NotAJob,
        Some(name) => {
            if !parses_as_uuid(name.as_str()) {
                return JobState::NotAJob;
            }
            match job_completed_at(
                entry.marker_modified,
                entry.vocals_modified,
                entry.instrumental_modified,
            ) {
                None => JobState::Pending,
                Some(then) => if is_expired(now, then, ttl_seconds) {
                    JobState::Expired
                } else {
                    JobState::Done
                },
            }
        },
    }
}

/// One pass of the sweeper over a listing of the job storage root: the
/// places in `entries` of the directories to remove, in the order of the
/// listing.
///
/// A directory is removed if it is named by a job id and its job completed
/// at least `ttl_seconds` before `now`. Everything else is left alone:
/// files, directories with other names, jobs that have not completed, and
/// jobs within their time to live. With a time to live of nought nothing
/// is removed.
pub fn pick_expired_jobs(ttl_seconds: u64, now: Timestamp, entries: &Vec<DirEntryInfo>) -> (doomed:
    Vec<usize>)
    ensures
        forall|k: int| 0 <= k < doomed@.len() ==> doomed@[k] < entries@.len(),
        forall|k: int, l: int| 0 <= k < l < doomed@.len() ==> doomed@[k] < doomed@[l],
        forall|i: int|
            0 <= i < entries@.len() ==> (doomed@.contains(i as usize) <==> is_swept(
                #[trigger] entries@[i],
                now,
                ttl_seconds,
            )),
{
    let mut doomed: Vec<usize> = Vec::new();
    if ttl_seconds == 0 {
        return doomed;
    }
    let mut i: usize = 0;
    while i < entries.len()
        invariant
            ttl_seconds > 0,
            i <= entries@.len(),
            forall|k: int| 0 <= k < doomed@.len() ==> doomed@[k] < i,
            forall|k: int, l: int| 0 <= k < l < doomed@.len() ==> doomed@[k] < doomed@[l],
            forall|j: int|
                0 <= j < i ==> (doomed@.contains(j as usize) <==> is_swept(
                    #[trigger] entries@[j],
                    now,
                    ttl_seconds,
                )),
        decreases entries@.len() - i,
    {
        let state = classify_entry(&entries[i], now, ttl_seconds);
        let ghost before = doomed@;
        if state == JobState::Expired {
            doomed.push(i);
            assert(doomed@[before.len() as int] == i);
            assert forall|j: int| 0 <= j < i + 1 implies (doomed@.contains(j as usize)
                <==> is_swept(#[trigger] entries@[j], now, ttl_seconds)) by {
                if j < i {
                    if before.contains(j as usize) {
                        let k = choose|k: int| 0 <= k < before.len() && before[k] == j as usize;
                        assert(doomed@[k] == j as usize);
                    }
                    if doomed@.contains(j as usize) {
                        let k = choose|k: int| 0 <= k < doomed@.len() && doomed@[k] == j as usize;
                        assert(k < before.len());
                        assert(before[k] == j as usize);
                    }
                }
            }
        } else {
            assert(!doomed@.contains(i)) by {
                if doomed@.contains(i) {
                    let k = choose|k: int| 0 <= k < doomed@.len() && doomed@[k] == i;
                    assert(doomed@[k] < i);
                }
            }
        }
        i += 1;
    }
    doomed
}

/// A pass removes every directory that is named by a job id and whose
/// completion marker has reached the time to live.
pub proof fn lemma_expired_job_is_removed(entry: DirEntryInfo, now: Timestamp, ttl_seconds: u64)
    requires
        ttl_seconds > 0,
        entry.is_dir,
        entry.name matches Some(name) && is_id_text(name@),
        entry.marker_modified matches Some(marked) && has_expired(now, marked, ttl_seconds),
    ensures
        is_swept(entry, now, ttl_seconds),
{
}

/// A job directory is named by a freshly minted job id, and the sweeper
/// takes every such name for a job: what the job store creates, the sweeper
/// can reclaim.
pub proof fn lemma_minted_job_is_reclaimed(entry: DirEntryInfo, now: Timestamp, ttl_seconds: u64)
    requires
        ttl_seconds > 0,
        entry.is_dir,
        entry.name matches Some(name) && is_canonical_id(name@),
        entry.marker_modified matches Some(marked) && has_expired(now, marked, ttl_seconds),
    ensures
        is_swept(entry, now, ttl_seconds),
{
    lemma_canonical_id_is_id_text(entry.name.unwrap()@);
}

/// The sweeper leaves alone whatever has not completed or is still within
/// its time to live, and whatever is not named by a job id.
pub proof fn lemma_sweeper_spares(entry: DirEntryInfo, now: Timestamp, ttl_seconds: u64)
    ensures
        !entry.is_dir ==> !is_swept(entry, now, ttl_seconds),
        entry.name is None ==> !is_swept(entry, now, ttl_seconds),
        (entry.name matches Some(name) && !is_id_text(name@)) ==> !is_swept(
            entry,
            now,
            ttl_seconds,
        ),
        entry.marker_modified is None && (entry.vocals_modified is None
            || entry.instrumental_modified is None) ==> !is_swept(entry, now, ttl_seconds),
        (entry.marker_modified matches Some(marked) && !has_expired(now, marked, ttl_seconds))
            ==> !is_swept(entry, now, ttl_seconds),
        ttl_seconds == 0 ==> !is_swept(entry, now, ttl_seconds),
{
}

} // verus!
