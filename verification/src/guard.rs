//! A model of one plugin's guard: the mutual-exclusion state machine that
//! serializes every access to that plugin's state, with recovery from a
//! holder that ended abnormally. Histories of guard operations are modelled
//! as sequences, and the laws at the bottom are proved of every well-formed
//! history: work under the guard never interleaves, and poisoning never
//! denies the next acquisition.

use vstd::prelude::*;

verus! {

/// The guard's state: free, held by one invocation, or poisoned because its
/// last holder ended abnormally.
pub enum GuardState {
    Open,
    Held(int),
    Poisoned,
}

/// One operation on the guard, tagged with the invocation performing it.
pub enum GuardOp {
    /// The invocation takes the guard; from a poisoned guard this recovers
    /// the contained state and proceeds.
    Acquire(int),
    /// The holder reads or writes the plugin's state.
    Work(int),
    /// The holder ends normally and frees the guard.
    Release(int),
    /// The holder ends abnormally; the guard records the poisoning.
    Abort(int),
}

/// The guard's transition relation: what `op` does in state `s`, or nothing
/// if `op` is not enabled there.
pub open spec fn guard_step(s: GuardState, op: GuardOp) -> Option<GuardState> {
    match op {
        GuardOp::Acquire(a) => match s {
            GuardState::Open => Some(GuardState::Held(a)),
            GuardState::Poisoned => Some(GuardState::Held(a)),
            GuardState::Held(_) => None,
        },
        GuardOp::Work(a) => if s == GuardState::Held(a) {
            Some(s)
        } else {
            None
        },
        GuardOp::Release(a) => if s == GuardState::Held(a) {
            Some(GuardState::Open)
        } else {
            None
        },
        GuardOp::Abort(a) => if s == GuardState::Held(a) {
            Some(GuardState::Poisoned)
        } else {
            None
        },
    }
}

/// The state a history of operations leaves the guard in, if every
/// operation was enabled when it ran.
pub open spec fn state_after(tr: Seq<GuardOp>, s0: GuardState) -> Option<GuardState>
    decreases tr.len(),
{
    if tr.len() == 0 {
        Some(s0)
    } else {
        match state_after(tr.drop_last(), s0) {
            Some(s) => guard_step(s, tr.last()),
            None => None,
        }
    }
}

/// How often invocation `a` acquired the guard in the history.
pub open spec fn acquires_of(tr: Seq<GuardOp>, a: int) -> int
    decreases tr.len(),
{
    if tr.len() == 0 {
        0
    } else {
        acquires_of(tr.drop_last(), a) + if tr.last() == GuardOp::Acquire(a) {
            1int
        } else {
            0int
        }
    }
}

/// How often invocation `a` gave the guard up, normally or abnormally.
pub open spec fn ends_of(tr: Seq<GuardOp>, a: int) -> int
    decreases tr.len(),
{
    if tr.len() == 0 {
        0
    } else {
        ends_of(tr.drop_last(), a) + if tr.last() == GuardOp::Release(a) || tr.last()
            == GuardOp::Abort(a) {
            1int
        } else {
            0int
        }
    }
}

/// A well-formed history: it starts from a free guard, every operation was
/// enabled when it ran, and each invocation takes the guard at most once.
pub open spec fn wf_trace(tr: Seq<GuardOp>) -> bool {
    state_after(tr, GuardState::Open) is Some && forall|a: int| acquires_of(tr, a) <= 1
}

pub proof fn lemma_counts_nonneg(tr: Seq<GuardOp>, a: int)
    ensures
        acquires_of(tr, a) >= 0,
        ends_of(tr, a) >= 0,
    decreases tr.len(),
{
    if tr.len() > 0 {
        lemma_counts_nonneg(tr.drop_last(), a);
    }
}

/// A history that ran in full also ran in every prefix.
pub proof fn lemma_prefix_defined(tr: Seq<GuardOp>, s0: GuardState, p: int)
    requires
        state_after(tr, s0) is Some,
        0 <= p <= tr.len(),
    ensures
        state_after(tr.subrange(0, p), s0) is Some,
    decreases tr.len() - p,
{
    if p < tr.len() {
        lemma_prefix_defined(tr, s0, p + 1);
        assert(tr.subrange(0, p + 1).drop_last() =~= tr.subrange(0, p));
        assert(state_after(tr.subrange(0, p + 1), s0) is Some);
    } else {
        assert(tr.subrange(0, tr.len() as int) =~= tr);
    }
}

/// One step of the prefix states.
pub proof fn lemma_prefix_step(tr: Seq<GuardOp>, s0: GuardState, p: int)
    requires
        0 <= p < tr.len(),
    ensures
        state_after(tr.subrange(0, p + 1), s0) == (match state_after(tr.subrange(0, p), s0) {
            Some(s) => guard_step(s, tr[p]),
            None => None,
        }),
{
    assert(tr.subrange(0, p + 1).drop_last() =~= tr.subrange(0, p));
    assert(tr.subrange(0, p + 1).last() == tr[p]);
}

/// The counts grow along the history.
pub proof fn lemma_counts_mono(tr: Seq<GuardOp>, a: int, j: int, k: int)
    requires
        0 <= j <= k <= tr.len(),
    ensures
        acquires_of(tr.subrange(0, j), a) <= acquires_of(tr.subrange(0, k), a),
        ends_of(tr.subrange(0, j), a) <= ends_of(tr.subrange(0, k), a),
    decreases k - j,
{
    if j < k {
        lemma_counts_mono(tr, a, j, k - 1);
        assert(tr.subrange(0, k).drop_last() =~= tr.subrange(0, k - 1));
    }
}

/// An invocation holds the guard exactly when it has one more acquisition
/// than it has ends.
pub proof fn lemma_holding_counts(tr: Seq<GuardOp>, a: int)
    requires
        state_after(tr, GuardState::Open) is Some,
    ensures
        state_after(tr, GuardState::Open) == Some(GuardState::Held(a)) ==> acquires_of(tr, a)
            == ends_of(tr, a) + 1,
        state_after(tr, GuardState::Open) != Some(GuardState::Held(a)) ==> acquires_of(tr, a)
            == ends_of(tr, a),
    decreases tr.len(),
{
    if tr.len() > 0 {
        let pre = tr.drop_last();
        assert(state_after(pre, GuardState::Open) is Some);
        lemma_holding_counts(pre, a);
    }
}

/// Mutual exclusion: in a well-formed history, work by two invocations
/// never interleaves. If invocation `a` works at two instants and someone
/// works in between, that someone is `a` itself: no action of another
/// invocation can come between a holder's accesses to the plugin's state.
pub proof fn lemma_mutual_exclusion(tr: Seq<GuardOp>, a: int, b: int, i: int, j: int, k: int)
    requires
        wf_trace(tr),
        0 <= i < j < k < tr.len(),
        tr[i] == GuardOp::Work(a),
        tr[j] == GuardOp::Work(b),
        tr[k] == GuardOp::Work(a),
    ensures
        a == b,
{
    if a != b {
        lemma_prefix_defined(tr, GuardState::Open, i);
        lemma_prefix_defined(tr, GuardState::Open, i + 1);
        lemma_prefix_defined(tr, GuardState::Open, j);
        lemma_prefix_defined(tr, GuardState::Open, j + 1);
        lemma_prefix_defined(tr, GuardState::Open, k);
        lemma_prefix_defined(tr, GuardState::Open, k + 1);
        lemma_prefix_step(tr, GuardState::Open, i);
        lemma_prefix_step(tr, GuardState::Open, j);
        lemma_prefix_step(tr, GuardState::Open, k);
        let si = state_after(tr.subrange(0, i), GuardState::Open)->Some_0;
        let sj = state_after(tr.subrange(0, j), GuardState::Open)->Some_0;
        let sk = state_after(tr.subrange(0, k), GuardState::Open)->Some_0;
        assert(guard_step(si, tr[i]) is Some);
        assert(si == GuardState::Held(a));
        assert(sj == GuardState::Held(b));
        assert(sk == GuardState::Held(a));
        lemma_holding_counts(tr.subrange(0, i), a);
        lemma_holding_counts(tr.subrange(0, j), a);
        lemma_holding_counts(tr.subrange(0, k), a);
        lemma_counts_nonneg(tr.subrange(0, i), a);
        lemma_counts_mono(tr, a, i, j);
        lemma_counts_mono(tr, a, j, k);
        lemma_counts_mono(tr, a, k, tr.len() as int);
        assert(tr.subrange(0, tr.len() as int) =~= tr);
        assert(acquires_of(tr.subrange(0, k), a) >= 2);
        assert(acquires_of(tr, a) >= 2);
        assert(false);
    }
}

/// Poisoning never denies the guard: from a poisoned guard — its last
/// holder ended abnormally — the next acquisition is enabled, exactly as
/// from a free one; the invocation recovers the state and proceeds.
pub proof fn lemma_poison_recovery(s: GuardState, a: int)
    requires
        !(s is Held),
    ensures
        guard_step(s, GuardOp::Acquire(a)) == Some(GuardState::Held(a)),
{
}

/// The history one completed invocation writes on its guard: it takes the
/// guard, works on the plugin's state, and gives the guard up — normally,
/// or abnormally if its action failed.
pub open spec fn invocation_trace(inv: int, failed: bool) -> Seq<GuardOp> {
    if failed {
        seq![GuardOp::Acquire(inv), GuardOp::Work(inv), GuardOp::Abort(inv)]
    } else {
        seq![GuardOp::Acquire(inv), GuardOp::Work(inv), GuardOp::Release(inv)]
    }
}

/// The history a sequence of completed invocations writes, in order.
pub open spec fn invocations_trace(invs: Seq<(int, bool)>) -> Seq<GuardOp>
    decreases invs.len(),
{
    if invs.len() == 0 {
        Seq::empty()
    } else {
        invocations_trace(invs.drop_last()) + invocation_trace(invs.last().0, invs.last().1)
    }
}

/// Appending one completed invocation with a fresh identity to a settled
/// well-formed history keeps it well-formed and settled.
pub proof fn lemma_invocation_appends(tr: Seq<GuardOp>, a: int, failed: bool)
    requires
        wf_trace(tr),
        !(state_after(tr, GuardState::Open)->Some_0 is Held),
        acquires_of(tr, a) == 0,
    ensures
        wf_trace(tr + invocation_trace(a, failed)),
        state_after(tr + invocation_trace(a, failed), GuardState::Open) == Some(
            if failed {
                GuardState::Poisoned
            } else {
                GuardState::Open
            },
        ),
        forall|x: int| x != a ==> acquires_of(tr + invocation_trace(a, failed), x)
            == acquires_of(tr, x),
        acquires_of(tr + invocation_trace(a, failed), a) == 1,
{
    let t3 = tr + invocation_trace(a, failed);
    let t2 = t3.drop_last();
    let t1 = t2.drop_last();
    assert(t1.drop_last() =~= tr);
    assert(t1.last() == GuardOp::Acquire(a));
    assert(t2.last() == GuardOp::Work(a));
    assert(state_after(t1, GuardState::Open) == Some(GuardState::Held(a)));
    assert(state_after(t2, GuardState::Open) == Some(GuardState::Held(a)));
    assert(t3.last() == if failed {
        GuardOp::Abort(a)
    } else {
        GuardOp::Release(a)
    });
    assert forall|x: int| acquires_of(t3, x) == acquires_of(tr, x) + (if x == a {
        1int
    } else {
        0int
    }) by {
        assert(acquires_of(t3, x) == acquires_of(t2, x));
        assert(acquires_of(t2, x) == acquires_of(t1, x));
        assert(acquires_of(t1, x) == acquires_of(tr, x) + if x == a {
            1int
        } else {
            0int
        });
    }
    assert forall|x: int| acquires_of(t3, x) <= 1 by {
        assert(acquires_of(tr, x) <= 1);
        lemma_counts_nonneg(tr, x);
        if x == a {
            assert(acquires_of(t3, x) == 1);
        }
    }
}

/// How many of the invocations carry identity `x`.
pub open spec fn count_id(invs: Seq<(int, bool)>, x: int) -> int
    decreases invs.len(),
{
    if invs.len() == 0 {
        0
    } else {
        count_id(invs.drop_last(), x) + if invs.last().0 == x {
            1int
        } else {
            0int
        }
    }
}

/// Liveness of the guard under failure: any sequence of completed
/// invocations, each under its own identity and with any mix of successes
/// and failures, writes a well-formed guard history that ends with the
/// guard available — never held, so never denied to whatever comes next.
/// A failing invocation poisons the guard; it never disables it.
pub proof fn lemma_failures_never_deny(invs: Seq<(int, bool)>)
    requires
        forall|x: int| count_id(invs, x) <= 1,
    ensures
        wf_trace(invocations_trace(invs)),
        !(state_after(invocations_trace(invs), GuardState::Open)->Some_0 is Held),
        forall|x: int| acquires_of(invocations_trace(invs), x) == count_id(invs, x),
    decreases invs.len(),
{
    if invs.len() > 0 {
        let pre = invs.drop_last();
        let a = invs.last().0;
        let failed = invs.last().1;
        assert forall|x: int| count_id(pre, x) <= 1 by {
            lemma_count_id_nonneg(pre, x);
            assert(count_id(invs, x) == count_id(pre, x) + if a == x {
                1int
            } else {
                0int
            });
        }
        lemma_failures_never_deny(pre);
        assert(count_id(invs, a) == count_id(pre, a) + 1);
        lemma_count_id_nonneg(pre, a);
        assert(count_id(pre, a) == 0);
        lemma_invocation_appends(invocations_trace(pre), a, failed);
        assert(invocations_trace(invs) == invocations_trace(pre) + invocation_trace(a, failed));
        assert forall|x: int| acquires_of(invocations_trace(invs), x) == count_id(invs, x) by {
            assert(count_id(invs, x) == count_id(pre, x) + if a == x {
                1int
            } else {
                0int
            });
            if x == a {
                assert(acquires_of(invocations_trace(pre) + invocation_trace(a, failed), a) == 1);
            } else {
                assert(acquires_of(invocations_trace(pre) + invocation_trace(a, failed), x)
                    == acquires_of(invocations_trace(pre), x));
            }
        }
    }
}

pub proof fn lemma_count_id_nonneg(invs: Seq<(int, bool)>, x: int)
    ensures
        count_id(invs, x) >= 0,
    decreases invs.len(),
{
    if invs.len() > 0 {
        lemma_count_id_nonneg(invs.drop_last(), x);
    }
}

/// An abnormal end keeps the history well-formed for the next invocation:
/// after a holder aborts, a fresh invocation can still acquire the guard,
/// and the extended history is again well-formed.
pub proof fn lemma_abort_never_blocks(tr: Seq<GuardOp>, b: int)
    requires
        wf_trace(tr),
        state_after(tr, GuardState::Open) == Some(GuardState::Poisoned),
        acquires_of(tr, b) == 0,
    ensures
        wf_trace(tr.push(GuardOp::Acquire(b))),
        state_after(tr.push(GuardOp::Acquire(b)), GuardState::Open) == Some(GuardState::Held(b)),
{
    let ext = tr.push(GuardOp::Acquire(b));
    assert(ext.drop_last() =~= tr);
    assert(ext.last() == GuardOp::Acquire(b));
    assert(state_after(ext, GuardState::Open) == Some(GuardState::Held(b)));
    assert forall|a: int| acquires_of(ext, a) <= 1 by {
        assert(acquires_of(ext, a) == acquires_of(tr, a) + if GuardOp::Acquire(b)
            == GuardOp::Acquire(a) {
            1int
        } else {
            0int
        });
    }
}

} // verus!
