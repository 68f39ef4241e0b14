//! The quota ledger: per-identity daily usage with at most one job in flight.

use vstd::prelude::*;
use vstd::string::StringExecFns;
use crate::errors::AppError;

verus! {

/// What the ledger remembers about one identity.
#[derive(Clone, Copy, Debug, PartialEq, Eq, Structural)]
pub struct DailyUsage {
    /// The day-number this record counts for.
    pub day: u64,
    /// Jobs completed successfully on `day`.
    pub used: u32,
    /// Whether a job admitted on `day` has not reached its outcome yet.
    pub in_progress: bool,
}

/// The abstract ledger: the record of every identity that has one.
pub type UsageMap = Map<Seq<char>, DailyUsage>;

/// The record of an identity that has done nothing on `today`.
pub open spec fn fresh_usage(today: u64) -> DailyUsage {
    DailyUsage { day: today, used: 0, in_progress: false }
}

/// The record that counts for `id` on `today`: the stored one if it is of
/// that day, a fresh one if it is stale or missing.
pub open spec fn usage_on(m: UsageMap, id: Seq<char>, today: u64) -> DailyUsage {
    if m.contains_key(id) && m[id].day == today {
        m[id]
    } else {
        fresh_usage(today)
    }
}

/// Whether a reservation for `id` on `today` is granted: no job in flight
/// and quota left.
pub open spec fn admits(m: UsageMap, limit: u32, id: Seq<char>, today: u64) -> bool {
    let u = usage_on(m, id, today);
    !u.in_progress && u.used < limit
}

/// The ledger after a reservation attempt: the record is brought to
/// `today`, and marked in flight if the attempt is granted.
pub open spec fn after_reserve(m: UsageMap, limit: u32, id: Seq<char>, today: u64) -> UsageMap {
    let u = usage_on(m, id, today);
    m.insert(
        id,
        DailyUsage { day: today, used: u.used, in_progress: u.in_progress || admits(m, limit, id, today) },
    )
}

/// The ledger after a failed job: a known identity's record is brought to
/// `today` and its slot freed; its count is untouched.
pub open spec fn after_release(m: UsageMap, id: Seq<char>, today: u64) -> UsageMap {
    if m.contains_key(id) {
        m.insert(id, DailyUsage { day: today, used: usage_on(m, id, today).used, in_progress: false })
    } else {
        m
    }
}

/// One more, stopping at the largest count.
pub open spec fn saturating_succ(n: u32) -> u32 {
    if n == u32::MAX {
        n
    } else {
        (n + 1) as u32
    }
}

/// The ledger after a successful job: the record is brought to `today`, its
/// slot freed and its count raised by one.
pub open spec fn after_commit(m: UsageMap, id: Seq<char>, today: u64) -> UsageMap {
    m.insert(
        id,
        DailyUsage {
            day: today,
            used: saturating_succ(usage_on(m, id, today).used),
            in_progress: false,
        },
    )
}

/// Per-identity daily usage, with the limit it is checked against.
///
/// The caller serialises access: each operation is one read-modify-write of
/// a single record and takes the ledger exclusively.
pub struct QuotaLedger {
    daily_limit: u32,
    identities: Vec<String>,
    usages: Vec<DailyUsage>,
}

impl View for QuotaLedger {
    type V = UsageMap;

    closed spec fn view(&self) -> UsageMap {
        Map::new(
            |id: Seq<char>| self.position(id) is Some,
            |id: Seq<char>| self.usages@[self.position(id).unwrap()],
        )
    }
}

impl QuotaLedger {
    /// The internal consistency of the ledger: every identity has exactly
    /// one record. Established by `new` and kept by every operation.
    pub closed spec fn wf(&self) -> bool {
        &&& self.identities@.len() == self.usages@.len()
        &&& forall|i: int, j: int|
            0 <= i < j < self.identities@.len() ==> self.identities@[i]@ != self.identities@[j]@
    }

    /// Where the record of `id` is kept, if it has one.
    spec fn position(&self, id: Seq<char>) -> Option<int> {
        if exists|i: int| 0 <= i < self.identities@.len() && self.identities@[i]@ == id {
            Some(choose|i: int| 0 <= i < self.identities@.len() && self.identities@[i]@ == id)
        } else {
            None
        }
    }

    /// The number of successful jobs an identity may have per day.
    pub closed spec fn limit(&self) -> u32 {
        self.daily_limit
    }

    /// An empty ledger checking against `daily_limit`.
    pub fn new(daily_limit: u32) -> (ledger: QuotaLedger)
        ensures
            ledger.wf(),
            ledger@ == UsageMap::empty(),
            ledger.limit() == daily_limit,
    {
        let ledger = QuotaLedger { daily_limit, identities: Vec::new(), usages: Vec::new() };
        assert(ledger@ =~= UsageMap::empty());
        ledger
    }

    /// The number of successful jobs an identity may have per day.
    pub fn daily_limit(&self) -> (limit: u32)
        ensures
            limit == self.limit(),
    {
        self.daily_limit
    }

    /// The index of the record of `identity`, if it has one.
    fn find(&self, identity: &str) -> (found: Option<usize>)
        requires
            self.wf(),
        ensures
            match found {
                Some(i) => i < self.identities@.len() && self.identities@[i as int]@ == identity@
                    && self.position(identity@) == Some(i as int),
                None => self.position(identity@) is None,
            },
    {
        let key = identity.to_owned();
        let mut i: usize = 0;
        while i < self.identities.len()
            invariant
                self.wf(),
                key@ == identity@,
                i <= self.identities@.len(),
                forall|k: int| 0 <= k < i ==> self.identities@[k]@ != identity@,
            decreases self.identities@.len() - i,
        {
            if self.identities[i] == key {
                return Some(i);
            }
            i += 1;
        }
        None
    }

    /// The stored record of `identity`, if it has one.
    pub fn usage(&self, identity: &str) -> (record: Option<DailyUsage>)
        requires
            self.wf(),
        ensures
            record == if self@.contains_key(identity@) {
                Some(self@[identity@])
            } else {
                None
            },
    {
        match self.find(identity) {
            Some(i) => Some(self.usages[i]),
            None => None,
        }
    }

    /// Stores `record` as the record of `identity`, replacing the one it had.
    fn store(&mut self, identity: &str, record: DailyUsage)
        requires
            old(self).wf(),
        ensures
            final(self).wf(),
            final(self)@ == old(self)@.insert(identity@, record),
            final(self).limit() == old(self).limit(),
    {
        match self.find(identity) {
            Some(i) => {
                self.usages.set(i, record);
                assert forall|id: Seq<char>| self.position(id) == old(self).position(id) by {}
                assert(self@ =~= old(self)@.insert(identity@, record));
            },
            None => {
                let ghost n = self.identities@.len() as int;
                self.identities.push(identity.to_owned());
                self.usages.push(record);
                assert(self.identities@[n]@ == identity@);
                assert(self.position(identity@) == Some(n));
                assert forall|id: Seq<char>| id != identity@ implies self.position(id) == old(
                    self,
                ).position(id) by {
                    if old(self).position(id) is Some {
                        let k = old(self).position(id).unwrap();
                        assert(self.identities@[k]@ == id);
                    }
                    if self.position(id) is Some {
                        let k = self.position(id).unwrap();
                        assert(old(self).identities@[k]@ == id);
                    }
                }
                assert(self@ =~= old(self)@.insert(identity@, record));
            },
        }
    }

    /// Tries to reserve the single job slot of `browser_id` for `today`.
    ///
    /// The record is first brought to `today`. The attempt is rejected while a
    /// job is in flight, and once the daily limit is used up; otherwise the
    /// slot is taken. There is no other admission check.
    pub fn reserve_daily_slot(&mut self, browser_id: &str, today: u64) -> (outcome: Result<
        (),
        AppError,
    >)
        requires
            old(self).wf(),
        ensures
            final(self).wf(),
            outcome is Ok <==> admits(old(self)@, old(self).limit(), browser_id@, today),
            outcome matches Err(e) ==> e matches AppError::TooManyRequests(m) && m@
                == QUOTA_MESSAGE@,
            final(self)@ == after_reserve(old(self)@, old(self).limit(), browser_id@, today),
            final(self).limit() == old(self).limit(),
    {
        let stored = self.usage(browser_id);
        let current = current_usage(stored, today);
        if current.in_progress || current.used >= self.daily_limit {
            self.store(browser_id, current);
            return Err(AppError::TooManyRequests(String::from_str(QUOTA_MESSAGE)));
        }
        self.store(browser_id, DailyUsage { day: today, used: current.used, in_progress: true });
        Ok(())
    }

    /// Frees the slot of `browser_id` after a failed job, without counting it.
    ///
    /// An identity that has no record gets none.
    pub fn release_daily_slot(&mut self, browser_id: &str, today: u64)
        requires
            old(self).wf(),
        ensures
            final(self).wf(),
            final(self)@ == after_release(old(self)@, browser_id@, today),
            final(self).limit() == old(self).limit(),
    {
        let stored = self.usage(browser_id);
        if stored.is_some() {
            let current = current_usage(stored, today);
            self.store(browser_id, DailyUsage { day: today, used: current.used, in_progress: false });
        }
    }

    /// Counts a successful job of `browser_id` and frees its slot.
    pub fn mark_daily_success(&mut self, browser_id: &str, today: u64)
        requires
            old(self).wf(),
        ensures
            final(self).wf(),
            final(self)@ == after_commit(old(self)@, browser_id@, today),
            final(self).limit() == old(self).limit(),
    {
        let stored = self.usage(browser_id);
        let current = current_usage(stored, today);
        let used = if current.used == u32::MAX {
            current.used
        } else {
            current.used + 1
        };
        self.store(browser_id, DailyUsage { day: today, used, in_progress: false });
    }
}

/// What a rejected client is told.
pub const QUOTA_MESSAGE: &'static str = "每日仅可使用一次；如需无限制请填写 Key。";

/// The record that counts on `today`, given the stored one.
fn current_usage(stored: Option<DailyUsage>, today: u64) -> (current: DailyUsage)
    ensures
        current == match stored {
            Some(u) if u.day == today => u,
            _ => fresh_usage(today),
        },
{
    match stored {
        Some(u) => if u.day == today {
            u
        } else {
            DailyUsage { day: today, used: 0, in_progress: false }
        },
        None => DailyUsage { day: today, used: 0, in_progress: false },
    }
}

/// The ledger after `n` jobs of `id` were admitted and completed
/// successfully on `today`, one after the other.
pub open spec fn after_jobs(m: UsageMap, limit: u32, id: Seq<char>, today: u64, n: nat) -> UsageMap
    decreases n,
{
    if n == 0 {
        m
    } else {
        let before = after_jobs(m, limit, id, today, (n - 1) as nat);
        after_commit(after_reserve(before, limit, id, today), id, today)
    }
}

/// An identity that starts a day unused is admitted for each of its first
/// `limit` jobs of that day, and each success is counted once.
///
/// After `n <= limit` such jobs its record shows `n` used and no job in
/// flight; the reservation of every one of them was granted.
pub proof fn lemma_successes_are_counted(
    m: UsageMap,
    limit: u32,
    id: Seq<char>,
    today: u64,
    n: nat,
)
    requires
        usage_on(m, id, today) == fresh_usage(today),
        n <= limit,
    ensures
        usage_on(after_jobs(m, limit, id, today, n), id, today) == (DailyUsage {
            day: today,
            used: n as u32,
            in_progress: false,
        }),
        forall|k: nat| k < n ==> admits(after_jobs(m, limit, id, today, k), limit, id, today),
    decreases n,
{
    if n > 0 {
        let k = (n - 1) as nat;
        lemma_successes_are_counted(m, limit, id, today, k);
        let before = after_jobs(m, limit, id, today, k);
        assert(admits(before, limit, id, today));
        assert forall|j: nat| j < n implies admits(
            after_jobs(m, limit, id, today, j),
            limit,
            id,
            today,
        ) by {
            if j < k {
            } else {
                assert(j == k);
            }
        }
    }
}

/// Once an identity has completed as many jobs on one day as the limit
/// allows, a further reservation on that day is rejected; on any other day
/// it is granted again, provided the limit is not zero.
pub proof fn lemma_quota_exhausts_and_renews(
    m: UsageMap,
    limit: u32,
    id: Seq<char>,
    today: u64,
    later: u64,
)
    requires
        usage_on(m, id, today) == fresh_usage(today),
        later != today,
    ensures
        !admits(after_jobs(m, limit, id, today, limit as nat), limit, id, today),
        limit > 0 ==> admits(after_jobs(m, limit, id, today, limit as nat), limit, id, later),
{
    lemma_successes_are_counted(m, limit, id, today, limit as nat);
    let done = after_jobs(m, limit, id, today, limit as nat);
    assert(usage_on(done, id, today).used == limit);
    if limit > 0 {
        assert(done.contains_key(id) && done[id].day == today);
        assert(usage_on(done, id, later) == fresh_usage(later));
    }
}

/// Of two reservation attempts for one identity on one day, with neither a
/// release nor a success between them, the second is rejected.
///
/// Each attempt is a single step on the ledger, which the caller holds
/// exclusively, so no interleaving of two requests can grant both.
pub proof fn lemma_single_job_in_flight(m: UsageMap, limit: u32, id: Seq<char>, today: u64)
    ensures
        !admits(after_reserve(m, limit, id, today), limit, id, today),
{
}

/// A granted reservation holds the slot until the job has reached its
/// outcome: the record is in flight after the reservation, and no longer
/// after the release or the success that follows it.
pub proof fn lemma_slot_is_held_until_outcome(m: UsageMap, limit: u32, id: Seq<char>, today: u64)
    requires
        admits(m, limit, id, today),
    ensures
        usage_on(after_reserve(m, limit, id, today), id, today).in_progress,
        !usage_on(after_release(after_reserve(m, limit, id, today), id, today), id, today)
            .in_progress,
        !usage_on(after_commit(after_reserve(m, limit, id, today), id, today), id, today)
            .in_progress,
{
}

/// What is done for one identity leaves the record of every other identity
/// as it was.
pub proof fn lemma_other_identities_untouched(
    m: UsageMap,
    limit: u32,
    id: Seq<char>,
    other: Seq<char>,
    today: u64,
)
    requires
        other != id,
    ensures
        after_reserve(m, limit, id, today).contains_key(other) == m.contains_key(other),
        after_release(m, id, today).contains_key(other) == m.contains_key(other),
        after_commit(m, id, today).contains_key(other) == m.contains_key(other),
        m.contains_key(other) ==> after_reserve(m, limit, id, today)[other] == m[other]
            && after_release(m, id, today)[other] == m[other] && after_commit(m, id, today)[other]
            == m[other],
{
}

/// A release frees the slot without consuming quota: the count of the day
/// stays, and while it is below the limit the next reservation on that day
/// is granted.
pub proof fn lemma_release_frees_slot(m: UsageMap, limit: u32, id: Seq<char>, today: u64)
    ensures
        usage_on(after_release(m, id, today), id, today).used == usage_on(m, id, today).used,
        !usage_on(after_release(m, id, today), id, today).in_progress,
        usage_on(m, id, today).used < limit ==> admits(
            after_release(m, id, today),
            limit,
            id,
            today,
        ),
        admits(m, limit, id, today) ==> admits(
            after_release(after_reserve(m, limit, id, today), id, today),
            limit,
            id,
            today,
        ),
{
}

/// A success raises the count of the day by exactly one, short of the
/// largest count, and frees the slot. A record of another day is reset
/// first, so the success is then the first of its day.
pub proof fn lemma_commit_counts_once(m: UsageMap, id: Seq<char>, today: u64)
    ensures
        after_commit(m, id, today).contains_key(id),
        after_commit(m, id, today)[id].day == today,
        !after_commit(m, id, today)[id].in_progress,
        usage_on(m, id, today).used < u32::MAX ==> after_commit(m, id, today)[id].used
            == usage_on(m, id, today).used + 1,
        usage_on(m, id, today).used == u32::MAX ==> after_commit(m, id, today)[id].used
            == u32::MAX,
        !(m.contains_key(id) && m[id].day == today) ==> after_commit(m, id, today)[id].used == 1,
{
}

} // verus!
