//! A limit on attempts within a rolling window of time, for sign-in and
//! recovery.

use crate::text::same;
use vstd::prelude::*;

verus! {

/// The attempts of one key.
#[derive(Debug)]
struct KeyAttempts {
    key: String,
    times: Vec<u64>,
}

/// Counts attempts by key. Times are nanoseconds on a clock that never goes
/// back.
#[derive(Debug)]
pub struct RateLimiter {
    attempts: Vec<KeyAttempts>,
    max_attempts: usize,
    window: u64,
}

/// The nanoseconds of a second.
pub const NANOS_PER_SEC: u64 = 1_000_000_000;

/// The time from `t` to `now`; none where `t` is later.
pub open spec fn elapsed(now: u64, t: u64) -> u64 {
    if now >= t {
        (now - t) as u64
    } else {
        0
    }
}

/// The attempts that still count: those within the window before `now`.
pub open spec fn recent(times: Seq<u64>, now: u64, window: u64) -> Seq<u64>
    decreases times.len(),
{
    if times.len() == 0 {
        times
    } else if elapsed(now, times.last()) < window {
        recent(times.drop_last(), now, window).push(times.last())
    } else {
        recent(times.drop_last(), now, window)
    }
}

/// The seconds to wait until the oldest attempt that counts no longer does;
/// at least one.
pub open spec fn wait_seconds(oldest: u64, now: u64, window: u64) -> u64 {
    let left = window - elapsed(now, oldest);
    if left < 2 * NANOS_PER_SEC {
        1
    } else {
        (left / NANOS_PER_SEC as int) as u64
    }
}

/// The times of the first entry with that key.
spec fn times_of(attempts: Seq<KeyAttempts>, key: Seq<char>) -> Seq<u64>
    decreases attempts.len(),
{
    if attempts.len() == 0 {
        Seq::empty()
    } else if attempts[0].key@ == key {
        attempts[0].times@
    } else {
        times_of(attempts.drop_first(), key)
    }
}

proof fn lemma_times_at(attempts: Seq<KeyAttempts>, k: int, key: Seq<char>)
    requires
        0 <= k <= attempts.len(),
        k < attempts.len() ==> attempts[k].key@ == key,
        forall|i: int| 0 <= i < k ==> attempts[i].key@ != key,
    ensures
        times_of(attempts, key) == if k < attempts.len() {
            attempts[k].times@
        } else {
            Seq::empty()
        },
    decreases attempts.len(),
{
    if k > 0 {
        assert(attempts[0].key@ != key);
        assert forall|i: int| 0 <= i < k - 1 implies attempts.drop_first()[i].key@ != key by {
            assert(attempts.drop_first()[i] == attempts[i + 1]);
        }
        lemma_times_at(attempts.drop_first(), k - 1, key);
    }
}

/// Changing the times of one key leaves those of the others.
proof fn lemma_others_stay(before: Seq<KeyAttempts>, after: Seq<KeyAttempts>, k: int, key: Seq<char>, other: Seq<char>)
    requires
        0 <= k <= before.len(),
        k < before.len() ==> before[k].key@ == key && after.len() == before.len(),
        k == before.len() ==> after.len() == before.len() + 1,
        after[k].key@ == key,
        forall|i: int| 0 <= i < before.len() && i != k ==> after[i] == before[i],
        other != key,
    ensures
        times_of(after, other) == times_of(before, other),
    decreases before.len(),
{
    if before.len() == 0 {
        assert(after.drop_first() =~= Seq::<KeyAttempts>::empty());
        assert(times_of(Seq::<KeyAttempts>::empty(), other) =~= Seq::<u64>::empty());
    } else if k == 0 {
        assert(after.drop_first() =~= before.drop_first());
    } else {
        assert(after[0] == before[0]);
        if before[0].key@ != other {
            let b = before.drop_first();
            let a = after.drop_first();
            assert(a[k - 1] == after[k]);
            assert forall|i: int| 0 <= i < b.len() && i != k - 1 implies a[i] == b[i] by {
                assert(a[i] == after[i + 1] && b[i] == before[i + 1]);
            }
            lemma_others_stay(b, a, k - 1, key, other);
        }
    }
}

/// Taking out an entry of one key leaves the times of the others.
proof fn lemma_removal_leaves_others(before: Seq<KeyAttempts>, k: int, key: Seq<char>, other: Seq<char>)
    requires
        0 <= k < before.len(),
        before[k].key@ == key,
        other != key,
    ensures
        times_of(before.remove(k), other) == times_of(before, other),
    decreases before.len(),
{
    let after = before.remove(k);
    if k == 0 {
        assert(after =~= before.drop_first());
    } else {
        assert(after[0] == before[0]);
        if before[0].key@ != other {
            assert(after.drop_first() =~= before.drop_first().remove(k - 1));
            lemma_removal_leaves_others(before.drop_first(), k - 1, key, other);
        }
    }
}

impl RateLimiter {
    /// The attempts that are on record for a key.
    pub closed spec fn on_record(&self, key: Seq<char>) -> Seq<u64> {
        times_of(self.attempts@, key)
    }

    /// The most attempts within a window.
    pub closed spec fn limit(&self) -> nat {
        self.max_attempts as nat
    }

    /// The length of the window.
    pub closed spec fn window(&self) -> u64 {
        self.window
    }

    /// A limiter that lets nothing through has no oldest attempt to wait for.
    pub open spec fn well_formed(&self) -> bool {
        self.limit() > 0
    }

    /// A limiter without any attempt on record.
    pub fn new(max_attempts: usize, window: u64) -> (r: RateLimiter)
        requires
            max_attempts > 0,
        ensures
            r.well_formed(),
            r.limit() == max_attempts,
            r.window() == window,
            forall|key: Seq<char>| #[trigger] r.on_record(key) == Seq::<u64>::empty(),
    {
        RateLimiter { attempts: Vec::new(), max_attempts, window }
    }

    /// The place of the first entry of a key, or the number of entries.
    fn position(&self, key: &str) -> (k: usize)
        ensures
            k <= self.attempts@.len(),
            k < self.attempts@.len() ==> self.attempts@[k as int].key@ == key@,
            forall|i: int| 0 <= i < k ==> (#[trigger] self.attempts@[i]).key@ != key@,
    {
        let mut k: usize = 0;
        while k < self.attempts.len()
            invariant
                k <= self.attempts@.len(),
                forall|i: int| 0 <= i < k ==> (#[trigger] self.attempts@[i]).key@ != key@,
            decreases self.attempts@.len() - k,
        {
            if same(self.attempts[k].key.as_str(), key) {
                return k;
            }
            k = k + 1;
        }
        k
    }

    /// Records an attempt, or refuses it with the seconds to wait where there
    /// have been as many as allowed within the window.
    pub fn check(&mut self, key: &str, now: u64) -> (r: Result<(), u64>)
        requires
            old(self).well_formed(),
        ensures
            final(self).well_formed(),
            final(self).limit() == old(self).limit(),
            final(self).window() == old(self).window(),
            forall|other: Seq<char>|
                other != key@ ==> #[trigger] final(self).on_record(other) == old(self).on_record(other),
            ({
                let kept = recent(old(self).on_record(key@), now, old(self).window());
                if kept.len() >= old(self).limit() {
                    &&& r == Err::<(), u64>(wait_seconds(kept[0], now, old(self).window()))
                    &&& final(self).on_record(key@) == kept
                } else {
                    &&& r is Ok
                    &&& final(self).on_record(key@) == kept.push(now)
                }
            }),
    {
        let ghost before = self.attempts@;
        let k: usize = self.position(key);
        let window: u64 = self.window;
        let mut kept: Vec<u64> = Vec::new();
        if k < self.attempts.len() {
            let times = &self.attempts[k].times;
            let mut i: usize = 0;
            assert(times@.take(0) =~= kept@);
            while i < times.len()
                invariant
                    i <= times@.len(),
                    kept@ == recent(times@.take(i as int), now, window),
                decreases times@.len() - i,
            {
                assert(times@.take(i + 1).drop_last() =~= times@.take(i as int));
                let t: u64 = times[i];
                let since: u64 = if now >= t {
                    now - t
                } else {
                    0
                };
                if since < window {
                    kept.push(t);
                }
                i = i + 1;
            }
            assert(times@.take(times@.len() as int) =~= times@);
        }
        proof {
            lemma_times_at(before, k as int, key@);
            if k >= before.len() {
                assert(recent(Seq::<u64>::empty(), now, window) =~= Seq::<u64>::empty());
                assert(kept@ =~= recent(times_of(before, key@), now, window));
            }
            lemma_recent_is_recent(times_of(before, key@), now, window);
        }
        let refused: bool = kept.len() >= self.max_attempts;
        let mut wait: u64 = 0;
        if refused {
            let oldest: u64 = kept[0];
            let since: u64 = if now >= oldest {
                now - oldest
            } else {
                0
            };
            assert(since < window) by {
                assert(kept@[0] == oldest);
            }
            let left: u64 = window - since;
            wait = left / NANOS_PER_SEC;
            if wait < 1 {
                wait = 1;
            }
        } else {
            kept.push(now);
        }
        let ghost stored = kept@;
        let entry = KeyAttempts { key: key.to_owned(), times: kept };
        if k < self.attempts.len() {
            self.attempts.set(k, entry);
        } else {
            self.attempts.push(entry);
        }
        proof {
            let after = self.attempts@;
            assert forall|i: int| 0 <= i < k implies after[i].key@ != key@ by {
                assert(after[i] == before[i]);
            }
            lemma_times_at(after, k as int, key@);
            assert forall|other: Seq<char>| other != key@ implies #[trigger] times_of(after, other) == times_of(
                before,
                other,
            ) by {
                lemma_others_stay(before, after, k as int, key@, other);
            }
        }
        if refused {
            Err(wait)
        } else {
            Ok(())
        }
    }

    /// Forgets the attempts of a key, as after a successful sign-in.
    pub fn reset(&mut self, key: &str)
        ensures
            final(self).limit() == old(self).limit(),
            final(self).window() == old(self).window(),
            final(self).on_record(key@) == Seq::<u64>::empty(),
            forall|other: Seq<char>|
                other != key@ ==> #[trigger] final(self).on_record(other) == old(self).on_record(other),
    {
        let mut k: usize = self.position(key);
        while k < self.attempts.len()
            invariant
                self.limit() == old(self).limit(),
                self.window() == old(self).window(),
                k <= self.attempts@.len(),
                k < self.attempts@.len() ==> self.attempts@[k as int].key@ == key@,
                forall|i: int| 0 <= i < k ==> (#[trigger] self.attempts@[i]).key@ != key@,
                forall|other: Seq<char>|
                    other != key@ ==> #[trigger] self.on_record(other) == old(self).on_record(other),
            decreases self.attempts@.len(),
        {
            let ghost earlier = *self;
            let ghost before = self.attempts@;
            let _ = self.attempts.remove(k);
            proof {
                let after = self.attempts@;
                assert(after =~= before.remove(k as int));
                assert forall|other: Seq<char>| other != key@ implies #[trigger] self.on_record(other) == old(
                    self,
                ).on_record(other) by {
                    lemma_removal_leaves_others(before, k as int, key@, other);
                    assert(earlier.on_record(other) == old(self).on_record(other));
                }
            }
            k = self.position(key);
        }
        proof {
            lemma_times_at(self.attempts@, k as int, key@);
        }
    }
}

/// What counts as recent is within the window, and nothing else is.
proof fn lemma_recent_is_recent(times: Seq<u64>, now: u64, window: u64)
    ensures
        forall|i: int|
            0 <= i < recent(times, now, window).len() ==> elapsed(now, #[trigger] recent(times, now, window)[i])
                < window,
        recent(times, now, window).len() <= times.len(),
    decreases times.len(),
{
    if times.len() > 0 {
        let before = recent(times.drop_last(), now, window);
        lemma_recent_is_recent(times.drop_last(), now, window);
        assert forall|i: int| 0 <= i < recent(times, now, window).len() implies elapsed(
            now,
            #[trigger] recent(times, now, window)[i],
        ) < window by {
            if i < before.len() {
                assert(recent(times, now, window)[i] == before[i]);
            }
        }
    }
}

/// What a key has on record, and which attempts went through, after the first
/// `n` of the attempts at these times.
pub open spec fn replay(times: Seq<u64>, n: nat, window: u64, limit: nat) -> (Seq<u64>, Seq<u64>)
    decreases n,
{
    if n == 0 {
        (Seq::empty(), Seq::empty())
    } else {
        let (record, passed) = replay(times, (n - 1) as nat, window, limit);
        let now = times[n - 1];
        let kept = recent(record, now, window);
        if kept.len() >= limit {
            (kept, passed)
        } else {
            (kept.push(now), passed.push(now))
        }
    }
}

proof fn lemma_recent_of_recent(times: Seq<u64>, then_at: u64, now: u64, window: u64)
    requires
        then_at <= now,
        forall|i: int| 0 <= i < times.len() ==> #[trigger] times[i] <= then_at,
    ensures
        recent(recent(times, then_at, window), now, window) == recent(times, now, window),
    decreases times.len(),
{
    if times.len() > 0 {
        let rest = times.drop_last();
        let t = times.last();
        assert(times[times.len() - 1] <= then_at);
        assert forall|i: int| 0 <= i < rest.len() implies #[trigger] rest[i] <= then_at by {
            assert(rest[i] == times[i]);
        }
        lemma_recent_of_recent(rest, then_at, now, window);
        if elapsed(then_at, t) < window {
            let inner = recent(rest, then_at, window);
            assert(inner.push(t).drop_last() =~= inner);
        }
    }
}

proof fn lemma_replay(times: Seq<u64>, n: nat, window: u64, limit: nat, now: u64)
    requires
        n <= times.len(),
        forall|i: int, j: int| 0 <= i <= j < times.len() ==> times[i] <= times[j],
        n > 0 ==> times[n - 1] <= now,
    ensures
        ({
            let (record, passed) = replay(times, n, window, limit);
            &&& recent(record, now, window) == recent(passed, now, window)
            &&& record.len() <= limit
            &&& forall|i: int| 0 <= i < record.len() ==> #[trigger] record[i] <= now
            &&& forall|i: int| 0 <= i < passed.len() ==> #[trigger] passed[i] <= now
        }),
    decreases n,
{
    if n > 0 {
        let at = times[n - 1];
        let (record, passed) = replay(times, (n - 1) as nat, window, limit);
        if n > 1 {
            assert(times[n - 2] <= times[n - 1]);
        }
        lemma_replay(times, (n - 1) as nat, window, limit, at);
        lemma_replay(times, (n - 1) as nat, window, limit, now);
        let kept = recent(record, at, window);
        lemma_recent_of_recent(record, at, now, window);
        lemma_recent_is_recent(record, at, window);
        lemma_recent_members(record, at, window, now);
        if kept.len() < limit {
            assert(kept.push(at).drop_last() =~= kept);
            assert(passed.push(at).drop_last() =~= passed);
        }
    }
}

proof fn lemma_recent_members(times: Seq<u64>, at: u64, window: u64, bound: u64)
    requires
        forall|i: int| 0 <= i < times.len() ==> #[trigger] times[i] <= bound,
    ensures
        forall|i: int| 0 <= i < recent(times, at, window).len() ==> #[trigger] recent(times, at, window)[i] <= bound,
    decreases times.len(),
{
    if times.len() > 0 {
        let rest = times.drop_last();
        assert forall|i: int| 0 <= i < rest.len() implies #[trigger] rest[i] <= bound by {
            assert(rest[i] == times[i]);
        }
        assert(times[times.len() - 1] <= bound);
        lemma_recent_members(rest, at, window, bound);
        let before = recent(rest, at, window);
        let all = recent(times, at, window);
        assert forall|i: int| 0 <= i < all.len() implies #[trigger] all[i] <= bound by {
            if i < before.len() {
                assert(all[i] == before[i]);
            }
        }
    }
}

/// However many attempts are made, and whenever, no more than the limit go
/// through within any window that ends at an attempt or later.
pub proof fn law_never_more_than_the_limit(times: Seq<u64>, n: nat, window: u64, limit: nat, now: u64)
    requires
        n <= times.len(),
        forall|i: int, j: int| 0 <= i <= j < times.len() ==> times[i] <= times[j],
        n > 0 ==> times[n - 1] <= now,
    ensures
        recent(replay(times, n, window, limit).1, now, window).len() <= limit,
{
    lemma_replay(times, n, window, limit, now);
    lemma_recent_is_recent(replay(times, n, window, limit).0, now, window);
}

/// An attempt is refused just when as many attempts as the limit have gone
/// through within the window before it: one that was itself refused never
/// counts against a later one.
pub proof fn law_refused_only_at_the_limit(times: Seq<u64>, n: nat, window: u64, limit: nat, now: u64)
    requires
        n <= times.len(),
        forall|i: int, j: int| 0 <= i <= j < times.len() ==> times[i] <= times[j],
        n > 0 ==> times[n - 1] <= now,
    ensures
        ({
            let (record, passed) = replay(times, n, window, limit);
            &&& recent(record, now, window) == recent(passed, now, window)
            &&& recent(record, now, window).len() >= limit <==> recent(passed, now, window).len() == limit
        }),
{
    lemma_replay(times, n, window, limit, now);
    law_never_more_than_the_limit(times, n, window, limit, now);
}

/// After a reset the next attempt goes through, whatever came before.
pub proof fn law_reset_clears_the_way(now: u64, window: u64, limit: nat)
    requires
        limit > 0,
    ensures
        recent(Seq::<u64>::empty(), now, window).len() < limit,
{
}

/// A refused attempt is told to wait at least a second and no longer than the
/// window, in whole seconds.
pub proof fn law_wait_is_within_the_window(oldest: u64, now: u64, window: u64)
    requires
        elapsed(now, oldest) < window,
    ensures
        1 <= wait_seconds(oldest, now, window),
        wait_seconds(oldest, now, window) > 1 ==> wait_seconds(oldest, now, window) * NANOS_PER_SEC <= window,
{
}

/// An attempt counts while less than the window has passed since it was made, and
/// not a moment longer.
pub proof fn law_which_attempts_count(times: Seq<u64>, now: u64, window: u64, t: u64)
    ensures
        recent(times, now, window).contains(t) <==> times.contains(t) && window > 0 && now < t + window,
    decreases times.len(),
{
    let all = recent(times, now, window);
    if times.len() > 0 {
        let rest = times.drop_last();
        let before = recent(rest, now, window);
        law_which_attempts_count(rest, now, window, t);
        if before.contains(t) {
            let k = choose|k: int| 0 <= k < before.len() && before[k] == t;
            assert(all[k] == t);
            let j = choose|j: int| 0 <= j < rest.len() && rest[j] == t;
            assert(times[j] == t);
        }
        if times.contains(t) {
            let j = choose|j: int| 0 <= j < times.len() && times[j] == t;
            if j < rest.len() {
                assert(rest[j] == t);
            } else if elapsed(now, t) < window {
                assert(all[all.len() - 1] == t);
            }
        }
        if all.contains(t) {
            let k = choose|k: int| 0 <= k < all.len() && all[k] == t;
            if k < before.len() {
                assert(before[k] == t);
            } else {
                assert(times[times.len() - 1] == t);
            }
        }
    }
}

/// Whoever waits as long as told, and a second more, finds that the attempt no longer
/// counts.
pub proof fn law_waiting_as_told_is_enough(oldest: u64, now: u64, window: u64, later: int)
    requires
        oldest <= now,
        now - oldest < window,
        later >= now + (wait_seconds(oldest, now, window) + 1) * NANOS_PER_SEC,
    ensures
        later - oldest >= window,
{
}

} // verus!
