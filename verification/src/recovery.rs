//! Sliding-window crash detection.
//!
//! The detector remembers the outcome of the most recent runs (at most
//! `window_size` of them) and the length of the current failure streak.
//! A rollback is advised when the window is full and either the failure
//! rate reaches a threshold or the failure streak reaches a limit.
use std::collections::VecDeque;
use vstd::prelude::*;

verus! {

/// Number of `false` entries (failed runs) in `s`.
pub open spec fn count_failures(s: Seq<bool>) -> nat
    decreases s.len(),
{
    if s.len() == 0 {
        0
    } else {
        count_failures(s.drop_last()) + if s.last() { 0nat } else { 1nat }
    }
}

/// The window after one more outcome: appended at the back, and the oldest
/// entry dropped when the window would grow past its capacity.
pub open spec fn window_after(window: Seq<bool>, capacity: nat, success: bool) -> Seq<bool> {
    let w = window.push(success);
    if w.len() > capacity {
        w.drop_first()
    } else {
        w
    }
}

/// The window after recording every outcome of `history`, oldest first.
pub open spec fn window_after_all(window: Seq<bool>, capacity: nat, history: Seq<bool>) -> Seq<
    bool,
>
    decreases history.len(),
{
    if history.len() == 0 {
        window
    } else {
        window_after(
            window_after_all(window, capacity, history.drop_last()),
            capacity,
            history.last(),
        )
    }
}

/// The failure streak after recording every outcome of `history`.
pub open spec fn streak_after_all(streak: nat, history: Seq<bool>) -> nat
    decreases history.len(),
{
    if history.len() == 0 {
        streak
    } else if history.last() {
        0
    } else {
        streak_after_all(streak, history.drop_last()) + 1
    }
}

/// The last `capacity` entries of `s` (all of `s` when it is shorter).
pub open spec fn last_n(s: Seq<bool>, capacity: nat) -> Seq<bool> {
    if s.len() > capacity {
        s.skip(s.len() - capacity)
    } else {
        s
    }
}

/// Whether a rollback is advised for a detector in the given state, with the
/// failure-rate threshold `threshold_num / threshold_den`.
pub open spec fn rollback_advised(
    window: Seq<bool>,
    capacity: nat,
    streak: nat,
    threshold_num: nat,
    threshold_den: nat,
    max_consecutive: nat,
) -> bool {
    &&& window.len() >= capacity
    &&& {
        ||| (window.len() > 0 && count_failures(window) * threshold_den >= threshold_num
            * window.len())
        ||| streak >= max_consecutive
    }
}

/// Sliding-window law: however many outcomes are recorded, the window holds
/// exactly the most recent ones, at most `capacity` of them, oldest first.
pub proof fn lemma_window_keeps_latest(window: Seq<bool>, capacity: nat, history: Seq<bool>)
    requires
        window.len() <= capacity,
    ensures
        window_after_all(window, capacity, history) == last_n(window + history, capacity),
        window_after_all(window, capacity, history).len() <= capacity,
    decreases history.len(),
{
    if history.len() == 0 {
        assert(window + history =~= window);
    } else {
        let prev = history.drop_last();
        let x = history.last();
        lemma_window_keeps_latest(window, capacity, prev);
        let s = window + prev;
        assert(window + history =~= s.push(x));
        let w = last_n(s, capacity);
        if s.len() > capacity {
            assert(w.push(x).drop_first() =~= s.push(x).skip(s.push(x).len() - capacity));
        } else if s.len() == capacity {
            assert(w.push(x).drop_first() =~= s.push(x).skip(s.push(x).len() - capacity));
        } else {
            assert(w.push(x) =~= s.push(x));
        }
    }
}

/// A success resets the streak: after recording `history`, the failure streak
/// is the number of failures since the last success (added to the earlier
/// streak when `history` holds no success).
pub proof fn lemma_streak_counts_trailing_failures(streak: nat, history: Seq<bool>, k: int)
    requires
        0 <= k <= history.len(),
        forall|i: int| k <= i < history.len() ==> !#[trigger] history[i],
        k > 0 ==> history[k - 1],
    ensures
        streak_after_all(streak, history) == if k > 0 {
            (history.len() - k) as nat
        } else {
            streak + history.len()
        },
    decreases history.len(),
{
    if history.len() == 0 {
    } else if k == history.len() {
    } else {
        let prev = history.drop_last();
        assert forall|i: int| k <= i < prev.len() implies !#[trigger] prev[i] by {
            assert(prev[i] == history[i]);
        }
        if k > 0 {
            assert(prev[k - 1] == history[k - 1]);
        }
        lemma_streak_counts_trailing_failures(streak, prev, k);
    }
}

/// Recovery law: once the last `capacity` recorded runs all succeeded, a
/// full window holds no failure and the streak is zero, so no rollback is
/// advised for any positive threshold and positive streak limit.
pub proof fn lemma_successes_clear_rollback(
    window: Seq<bool>,
    capacity: nat,
    streak: nat,
    history: Seq<bool>,
    threshold_num: nat,
    threshold_den: nat,
    max_consecutive: nat,
)
    requires
        window.len() <= capacity,
        capacity > 0,
        history.len() >= capacity,
        forall|i: int| history.len() - capacity <= i < history.len() ==> #[trigger] history[i],
        threshold_num > 0,
        threshold_den > 0,
        max_consecutive > 0,
    ensures
        count_failures(window_after_all(window, capacity, history)) == 0,
        streak_after_all(streak, history) == 0,
        !rollback_advised(
            window_after_all(window, capacity, history),
            capacity,
            streak_after_all(streak, history),
            threshold_num,
            threshold_den,
            max_consecutive,
        ),
{
    lemma_window_keeps_latest(window, capacity, history);
    let all = window + history;
    let w = last_n(all, capacity);
    assert(w.len() == capacity);
    assert forall|i: int| 0 <= i < w.len() implies #[trigger] w[i] by {
        assert(w[i] == all[all.len() - capacity + i]);
        assert(all[all.len() - capacity + i] == history[history.len() - capacity + i]);
    }
    lemma_no_failures(w);
    lemma_streak_counts_trailing_failures(streak, history, history.len() as int);
    assert(threshold_num * w.len() > 0) by (nonlinear_arith)
        requires
            threshold_num > 0,
            w.len() > 0,
    ;
}

/// History law for a fresh detector: after recording the outcomes `r` (the
/// window starting empty), the window is the last `min(|r|, capacity)`
/// outcomes of `r`, and the failure streak counts the failures after the
/// last success in `r` (all of `r` when it holds no success), however long
/// that is compared to the window.
pub proof fn lemma_fresh_history(capacity: nat, r: Seq<bool>, k: int)
    requires
        0 <= k <= r.len(),
        forall|i: int| k <= i < r.len() ==> !#[trigger] r[i],
        k > 0 ==> r[k - 1],
    ensures
        window_after_all(Seq::empty(), capacity, r) == r.subrange(
            r.len() - (if r.len() < capacity { r.len() as int } else { capacity as int }),
            r.len() as int,
        ),
        streak_after_all(0, r) == r.len() - k,
{
    lemma_window_keeps_latest(Seq::empty(), capacity, r);
    assert(Seq::<bool>::empty() + r =~= r);
    if r.len() > capacity {
        assert(r.skip(r.len() - capacity) =~= r.subrange(r.len() - capacity, r.len() as int));
    } else {
        assert(r.subrange(0, r.len() as int) =~= r);
    }
    lemma_streak_counts_trailing_failures(0, r, k);
}

proof fn lemma_no_failures(s: Seq<bool>)
    requires
        forall|i: int| 0 <= i < s.len() ==> #[trigger] s[i],
    ensures
        count_failures(s) == 0,
    decreases s.len(),
{
    if s.len() > 0 {
        assert(s[s.len() - 1]);
        lemma_no_failures(s.drop_last());
    }
}

proof fn lemma_product_fits(a: nat, b: nat)
    requires
        a <= usize::MAX,
        b <= usize::MAX,
    ensures
        a * b <= u128::MAX,
{
    assert(a * b <= (usize::MAX as nat) * (usize::MAX as nat)) by (nonlinear_arith)
        requires
            a <= usize::MAX,
            b <= usize::MAX,
    ;
    assert((usize::MAX as nat) * (usize::MAX as nat) <= u128::MAX) by (nonlinear_arith)
        requires
            usize::MAX <= u64::MAX,
    ;
}

/// Sliding-window crash detector.
pub struct CrashDetector {
    window: VecDeque<bool>,
    max_size: usize,
    consecutive_failures: usize,
}

impl CrashDetector {
    /// Outcomes currently in the window, oldest first.
    pub closed spec fn recent(&self) -> Seq<bool> {
        self.window@
    }

    /// How many outcomes the window keeps.
    pub closed spec fn window_size(&self) -> nat {
        self.max_size as nat
    }

    /// Length of the current run of failures.
    pub closed spec fn failure_streak(&self) -> nat {
        self.consecutive_failures as nat
    }

    /// The detector's invariant: the window never holds more than its size.
    pub open spec fn wf(&self) -> bool {
        self.recent().len() <= self.window_size()
    }

    pub fn new(window_size: usize) -> (d: Self)
        ensures
            d.wf(),
            d.recent() == Seq::<bool>::empty(),
            d.window_size() == window_size,
            d.failure_streak() == 0,
    {
        CrashDetector {
            window: VecDeque::with_capacity(window_size),
            max_size: window_size,
            consecutive_failures: 0,
        }
    }

    /// Records the outcome of one run: a success resets the failure streak,
    /// a failure extends it.
    pub fn record(&mut self, success: bool)
        requires
            old(self).wf(),
            !success ==> old(self).failure_streak() < usize::MAX,
        ensures
            final(self).wf(),
            final(self).recent() == window_after(
                old(self).recent(),
                old(self).window_size(),
                success,
            ),
            final(self).window_size() == old(self).window_size(),
            final(self).failure_streak() == if success {
                0
            } else {
                old(self).failure_streak() + 1
            },
    {
        self.window.push_back(success);
        if self.window.len() > self.max_size {
            self.window.pop_front();
        }
        if !success {
            self.consecutive_failures = self.consecutive_failures + 1;
        } else {
            self.consecutive_failures = 0;
        }
    }

    /// Number of failed runs in the window.
    pub fn failures(&self) -> (n: usize)
        ensures
            n == count_failures(self.recent()),
    {
        let mut n: usize = 0;
        let mut i: usize = 0;
        while i < self.window.len()
            invariant
                i <= self.window@.len(),
                n == count_failures(self.window@.take(i as int)),
                n <= i,
            decreases self.window@.len() - i,
        {
            assert(self.window@.take(i + 1).drop_last() =~= self.window@.take(i as int));
            if !self.window[i] {
                n = n + 1;
            }
            i = i + 1;
        }
        assert(self.window@.take(i as int) =~= self.window@);
        n
    }

    /// Number of outcomes currently in the window.
    pub fn len(&self) -> (n: usize)
        ensures
            n == self.recent().len(),
    {
        self.window.len()
    }

    /// Length of the current failure streak.
    pub fn consecutive_failures(&self) -> (n: usize)
        ensures
            n == self.failure_streak(),
    {
        self.consecutive_failures
    }

    /// Whether a rollback is advised: never while the window is not yet full;
    /// otherwise when the failure rate in the window is at least
    /// `threshold_num / threshold_den`, or when the failure streak has reached
    /// `max_consecutive`. An empty full window (size 0) has no failure rate.
    pub fn should_rollback(
        &self,
        threshold_num: usize,
        threshold_den: usize,
        max_consecutive: usize,
    ) -> (advised: bool)
        requires
            threshold_den > 0,
        ensures
            advised == rollback_advised(
                self.recent(),
                self.window_size(),
                self.failure_streak(),
                threshold_num as nat,
                threshold_den as nat,
                max_consecutive as nat,
            ),
    {
        let total = self.window.len();
        if total < self.max_size {
            return false;
        }
        let failures = self.failures();
        proof {
            lemma_product_fits(failures as nat, threshold_den as nat);
            lemma_product_fits(threshold_num as nat, total as nat);
        }
        let lhs: u128 = (failures as u128) * (threshold_den as u128);
        let rhs: u128 = (threshold_num as u128) * (total as u128);
        (total > 0 && lhs >= rhs) || self.consecutive_failures >= max_consecutive
    }
}

} // verus!
