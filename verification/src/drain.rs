//! The outbox drain policy: which queued ops are acknowledged, retried or
//! dead-lettered, and when a failing FIFO head backs off.
//!
//! The drain itself sends each op's API calls (see [`crate::outbox`]) and
//! reports the outcome here; these functions decide what happens to the op,
//! to the head-retry record and to the drain's tally.

use vstd::prelude::*;
use crate::text::{dec_digits, push_decimal};

verus! {

/// Consecutive countable failures of the same head op before it is dropped.
pub const OUTBOX_DEAD_LETTER_ATTEMPTS: u32 = 10;

/// How a delivery attempt ended.
#[derive(Clone, Copy, Debug, PartialEq, Eq, Structural)]
pub enum OpOutcome {
    /// The server accepted the op.
    Delivered,
    /// The server will never accept it (rejected / invalid).
    Permanent,
    /// A failure that may be deterministic (5xx / decode / empty body): retried
    /// against a budget.
    Countable,
    /// Offline, throttled or unauthenticated: retried indefinitely.
    Transient,
}

/// Retry bookkeeping for a failing outbox FIFO head.
#[derive(Clone, Copy, Debug, PartialEq, Eq, Structural)]
pub struct HeadRetry {
    pub op_id: u64,
    pub failures: u32,
    pub skip_drains: u32,
}

/// What the drain does with one op after its attempt.
#[derive(Clone, Copy, Debug, PartialEq, Eq, Structural)]
pub enum OpAction {
    /// Delivered: acknowledge (remove) it and go on.
    Ack,
    /// Permanently rejected: acknowledge (drop) it and go on.
    DropRejected,
    /// Failed every budgeted retry: acknowledge (drop) it and go on.
    DropExhausted,
    /// Countable failure within budget: keep it, back off, stop this drain.
    RetryLater,
    /// Transient failure: keep it, stop this drain.
    KeepQueued,
}

/// How a drain starts.
#[derive(Clone, Copy, Debug, PartialEq, Eq, Structural)]
pub enum DrainStart {
    /// Nothing queued: no network I/O, connectivity unchanged.
    Idle,
    /// The failing head is still backing off: skip this drain.
    Backoff,
    /// Send the queued ops.
    Proceed,
}

/// Running totals of one drain.
#[derive(Clone, Copy, Debug, PartialEq, Eq, Structural)]
pub struct DrainTally {
    pub failures: u32,
    pub dropped: u32,
    pub needs_pull: bool,
}

/// `2^min(failures, 4) - 1`: drains skipped before re-attempting a head op with
/// `failures` consecutive countable failures (1, 3, 7, then 15).
pub open spec fn skips_spec(failures: u32) -> u32 {
    if failures == 0 {
        0
    } else if failures == 1 {
        1
    } else if failures == 2 {
        3
    } else if failures == 3 {
        7
    } else {
        15
    }
}

/// Drains to skip before re-attempting a head op with `failures` consecutive
/// countable failures.
pub fn drain_skips(failures: u32) -> (r: u32)
    ensures
        r == skips_spec(failures),
{
    let m: u32 = if failures < 4 {
        failures
    } else {
        4
    };
    let p: u32 = if m == 0 {
        1
    } else if m == 1 {
        2
    } else if m == 2 {
        4
    } else if m == 3 {
        8
    } else {
        16
    };
    p - 1
}

/// The head-retry record and start decision at the beginning of a drain whose
/// FIFO head is `head` (`None` = nothing queued).
pub open spec fn start_spec(hr: Option<HeadRetry>, head: Option<u64>) -> (Option<HeadRetry>, DrainStart) {
    match head {
        None => (hr, DrainStart::Idle),
        Some(h) => match hr {
            Some(r) => if r.op_id == h && r.skip_drains > 0 {
                (Some(HeadRetry { skip_drains: (r.skip_drains - 1) as u32, ..r }), DrainStart::Backoff)
            } else if r.op_id != h {
                (None, DrainStart::Proceed)
            } else {
                (hr, DrainStart::Proceed)
            },
            None => (None, DrainStart::Proceed),
        },
    }
}

/// Whether a drain may run at all: "Go Offline" holds every queued op until
/// the user reconnects, and without an API client (not signed in yet) ops
/// stay queued until credentials arrive. A held drain touches nothing.
pub fn drain_gate(manual_offline: bool, has_client: bool) -> (go: bool)
    ensures
        go == (!manual_offline && has_client),
{
    !manual_offline && has_client
}

/// The connection error a drain leaves when ops failed.
pub open spec fn failed_ops_msg(failures: u32) -> Seq<char> {
    dec_digits(failures as nat) + " pending action(s) failed to sync"@
}

/// The connection error to record after a drain: none when every attempted
/// op went through (or was dropped), else how many failed.
pub fn drain_failure_status(tally: &DrainTally) -> (m: Option<String>)
    ensures
        tally.failures == 0 ==> m is None,
        tally.failures > 0 ==> (m matches Some(s) && s@ == failed_ops_msg(tally.failures)),
{
    if tally.failures == 0 {
        return None;
    }
    let mut s = String::new();
    push_decimal(&mut s, tally.failures as u64);
    s.append(" pending action(s) failed to sync");
    Some(s)
}

/// Begin a drain: a head still backing off consumes one skipped drain; a
/// record for a different head is stale and dropped.
pub fn start_drain(hr: &mut Option<HeadRetry>, head: Option<u64>) -> (d: DrainStart)
    ensures
        (*final(hr), d) == start_spec(*old(hr), head),
{
    match head {
        None => DrainStart::Idle,
        Some(h) => {
            match *hr {
                Some(r) => {
                    if r.op_id == h && r.skip_drains > 0 {
                        *hr = Some(HeadRetry { skip_drains: r.skip_drains - 1, ..r });
                        DrainStart::Backoff
                    } else if r.op_id != h {
                        *hr = None;
                        DrainStart::Proceed
                    } else {
                        DrainStart::Proceed
                    }
                },
                None => DrainStart::Proceed,
            }
        },
    }
}

/// The attempt number of a countable failure of `op_id` given the record.
pub open spec fn attempt_spec(hr: Option<HeadRetry>, op_id: u64) -> int {
    match hr {
        Some(h) => if h.op_id == op_id {
            h.failures + 1
        } else {
            1
        },
        None => 1,
    }
}

/// The record and action after attempt of `op_id` ended with `outcome`.
pub open spec fn after_spec(hr: Option<HeadRetry>, op_id: u64, outcome: OpOutcome) -> (
    Option<HeadRetry>,
    OpAction,
) {
    let ends_record = hr matches Some(h) && h.op_id == op_id;
    match outcome {
        OpOutcome::Delivered => (if ends_record {
            None
        } else {
            hr
        }, OpAction::Ack),
        OpOutcome::Permanent => (if ends_record {
            None
        } else {
            hr
        }, OpAction::DropRejected),
        OpOutcome::Countable => {
            let attempt = attempt_spec(hr, op_id);
            if attempt >= OUTBOX_DEAD_LETTER_ATTEMPTS {
                (None, OpAction::DropExhausted)
            } else {
                (
                    Some(
                        HeadRetry {
                            op_id,
                            failures: attempt as u32,
                            skip_drains: skips_spec(attempt as u32),
                        },
                    ),
                    OpAction::RetryLater,
                )
            }
        },
        OpOutcome::Transient => (hr, OpAction::KeepQueued),
    }
}

/// Whether the drain stops after this action (the FIFO head stays queued, so
/// nothing behind it may be delivered out of order).
pub open spec fn stops(a: OpAction) -> bool {
    a is RetryLater || a is KeepQueued
}

/// The tally after an action.
pub open spec fn tally_spec(t: DrainTally, a: OpAction, pulls: bool) -> DrainTally {
    match a {
        OpAction::Ack => DrainTally { needs_pull: t.needs_pull || pulls, ..t },
        OpAction::DropRejected | OpAction::DropExhausted => DrainTally {
            dropped: (t.dropped + 1) as u32,
            ..t
        },
        _ => DrainTally { failures: (t.failures + 1) as u32, ..t },
    }
}

impl DrainTally {
    /// A fresh tally.
    pub fn new() -> (t: DrainTally)
        ensures
            t == (DrainTally { failures: 0, dropped: 0, needs_pull: false }),
    {
        DrainTally { failures: 0, dropped: 0, needs_pull: false }
    }
}

/// Decide what happens to `op_id` after its delivery attempt ended with
/// `outcome`, updating the head-retry record and the tally. `pulls` says
/// whether the op needs a pull after delivery.
pub fn after_op(
    hr: &mut Option<HeadRetry>,
    tally: &mut DrainTally,
    op_id: u64,
    outcome: OpOutcome,
    pulls: bool,
) -> (a: OpAction)
    requires
        old(tally).failures < u32::MAX,
        old(tally).dropped < u32::MAX,
        *old(hr) matches Some(h) ==> h.failures < OUTBOX_DEAD_LETTER_ATTEMPTS,
    ensures
        (*final(hr), a) == after_spec(*old(hr), op_id, outcome),
        *final(tally) == tally_spec(*old(tally), a, pulls),
        *final(hr) matches Some(h) ==> h.failures < OUTBOX_DEAD_LETTER_ATTEMPTS,
{
    let ends_record = match *hr {
        Some(h) => h.op_id == op_id,
        None => false,
    };
    let a = match outcome {
        OpOutcome::Delivered => {
            if ends_record {
                *hr = None;
            }
            OpAction::Ack
        },
        OpOutcome::Permanent => {
            if ends_record {
                *hr = None;
            }
            OpAction::DropRejected
        },
        OpOutcome::Countable => {
            let attempt: u32 = match *hr {
                Some(h) => if h.op_id == op_id {
                    h.failures + 1
                } else {
                    1
                },
                None => 1,
            };
            if attempt >= OUTBOX_DEAD_LETTER_ATTEMPTS {
                *hr = None;
                OpAction::DropExhausted
            } else {
                *hr = Some(
                    HeadRetry { op_id, failures: attempt, skip_drains: drain_skips(attempt) },
                );
                OpAction::RetryLater
            }
        },
        OpOutcome::Transient => OpAction::KeepQueued,
    };
    match a {
        OpAction::Ack => {
            tally.needs_pull = tally.needs_pull || pulls;
        },
        OpAction::DropRejected | OpAction::DropExhausted => {
            tally.dropped = tally.dropped + 1;
        },
        _ => {
            tally.failures = tally.failures + 1;
        },
    }
    a
}

/// How the drain ends: pull when a delivered op needs it (the pull settles
/// connectivity); otherwise the status follows the failures seen.
#[derive(Clone, Copy, Debug, PartialEq, Eq, Structural)]
pub enum DrainEnd {
    Pull,
    Offline,
    Online,
}

/// The drain's ending: a pull when needed, else offline when any failure was
/// classified as offline, else online.
pub fn drain_end(tally: &DrainTally, went_offline: bool) -> (e: DrainEnd)
    ensures
        e == (if tally.needs_pull {
            DrainEnd::Pull
        } else if went_offline {
            DrainEnd::Offline
        } else {
            DrainEnd::Online
        }),
{
    if tally.needs_pull {
        DrainEnd::Pull
    } else if went_offline {
        DrainEnd::Offline
    } else {
        DrainEnd::Online
    }
}

/// The head-retry record and tally after the first `k` ops of a drain were
/// attempted in FIFO order (`outs[i]` is how the delivery of `ops[i]` ended,
/// `pulls[i]` whether it needs a pull after delivery).
pub open spec fn drain_state(
    hr: Option<HeadRetry>,
    t: DrainTally,
    ops: Seq<u64>,
    pulls: Seq<bool>,
    outs: Seq<OpOutcome>,
    k: nat,
) -> (Option<HeadRetry>, DrainTally)
    decreases k,
{
    if k == 0 {
        (hr, t)
    } else {
        let prev = drain_state(hr, t, ops, pulls, outs, (k - 1) as nat);
        let step = after_spec(prev.0, ops[k - 1], outs[k - 1]);
        (step.0, tally_spec(prev.1, step.1, pulls[k - 1]))
    }
}

/// What the drain does with the `k`-th op (counting from 0) once the ops
/// before it were attempted.
pub open spec fn action_at(
    hr: Option<HeadRetry>,
    t: DrainTally,
    ops: Seq<u64>,
    pulls: Seq<bool>,
    outs: Seq<OpOutcome>,
    k: nat,
) -> OpAction {
    after_spec(drain_state(hr, t, ops, pulls, outs, k).0, ops[k as int], outs[k as int]).1
}

/// How a drain over the queued ops went.
#[derive(Debug)]
pub struct DrainRun {
    /// The ops acknowledged (delivered, rejected or out of budget), in order.
    pub acked: Vec<u64>,
    /// How many ops were attempted.
    pub attempted: usize,
    /// Whether an op was kept queued, ending the drain early.
    pub stopped: bool,
}

/// Run a drain over the queued ops in FIFO order, `outcomes[i]` being how the
/// delivery of `ops[i]` ends. Ops are attempted strictly in order; the first
/// op kept queued (a transient failure, or a countable one within budget)
/// stops the drain, and nothing behind it is attempted or acknowledged. Every
/// acknowledged op was delivered, rejected for good, or ran out of budget.
pub fn run_drain(
    hr: &mut Option<HeadRetry>,
    tally: &mut DrainTally,
    ops: &Vec<u64>,
    pulls: &Vec<bool>,
    outcomes: &Vec<OpOutcome>,
) -> (run: DrainRun)
    requires
        pulls.len() == ops.len(),
        outcomes.len() == ops.len(),
        old(tally).failures + ops.len() <= u32::MAX,
        old(tally).dropped + ops.len() <= u32::MAX,
        *old(hr) matches Some(h) ==> h.failures < OUTBOX_DEAD_LETTER_ATTEMPTS,
    ensures
        run.attempted <= ops.len(),
        !run.stopped ==> run.attempted == ops.len(),
        run.stopped ==> run.attempted >= 1 && stops(
            action_at(*old(hr), *old(tally), ops@, pulls@, outcomes@, (run.attempted - 1) as nat),
        ),
        forall|i: nat|
            i + 1 < run.attempted || (i < run.attempted && !run.stopped) ==> !stops(
                #[trigger] action_at(*old(hr), *old(tally), ops@, pulls@, outcomes@, i),
            ),
        run.acked@ == ops@.subrange(
            0,
            run.attempted - (if run.stopped {
                1int
            } else {
                0int
            }),
        ),
        (*final(hr), *final(tally)) == drain_state(
            *old(hr),
            *old(tally),
            ops@,
            pulls@,
            outcomes@,
            run.attempted as nat,
        ),
        *final(hr) matches Some(h) ==> h.failures < OUTBOX_DEAD_LETTER_ATTEMPTS,
{
    let ghost hr0 = *hr;
    let ghost t0 = *tally;
    let mut acked: Vec<u64> = Vec::new();
    let mut i: usize = 0;
    while i < ops.len()
        invariant
            pulls.len() == ops.len(),
            outcomes.len() == ops.len(),
            i <= ops.len(),
            hr0 == *old(hr),
            t0 == *old(tally),
            (*hr, *tally) == drain_state(hr0, t0, ops@, pulls@, outcomes@, i as nat),
            tally.failures <= t0.failures + i,
            tally.dropped <= t0.dropped + i,
            t0.failures + ops.len() <= u32::MAX,
            t0.dropped + ops.len() <= u32::MAX,
            *hr matches Some(h) ==> h.failures < OUTBOX_DEAD_LETTER_ATTEMPTS,
            forall|j: nat| j < i ==> !stops(#[trigger] action_at(hr0, t0, ops@, pulls@, outcomes@, j)),
            acked@ == ops@.subrange(0, i as int),
        decreases ops.len() - i,
    {
        let a = after_op(hr, tally, ops[i], outcomes[i], pulls[i]);
        assert(action_at(hr0, t0, ops@, pulls@, outcomes@, i as nat) == a);
        assert(drain_state(hr0, t0, ops@, pulls@, outcomes@, (i + 1) as nat) == (*hr, *tally));
        i = i + 1;
        match a {
            OpAction::RetryLater | OpAction::KeepQueued => {
                return DrainRun { acked, attempted: i, stopped: true };
            },
            _ => {
                acked.push(ops[i - 1]);
                assert(acked@ =~= ops@.subrange(0, i as int));
            },
        }
    }
    DrainRun { acked, attempted: i, stopped: false }
}

/// An op is acknowledged (the drain goes on past it) exactly when it was
/// delivered, rejected for good, or failed countably on its last budgeted
/// attempt; every other outcome keeps it queued and stops the drain.
pub proof fn lemma_acked_means_settled(hr: Option<HeadRetry>, op_id: u64, outcome: OpOutcome)
    ensures
        !stops(after_spec(hr, op_id, outcome).1) <==> (outcome is Delivered || outcome is Permanent
            || (outcome is Countable && attempt_spec(hr, op_id) >= OUTBOX_DEAD_LETTER_ATTEMPTS)),
{
}

/// The head-retry record after `n` consecutive countable failures of the same
/// head op, starting from no record (`None` once the op was dropped).
pub open spec fn after_failures(op_id: u64, n: nat) -> Option<HeadRetry>
    decreases n,
{
    if n == 0 {
        None
    } else {
        after_spec(after_failures(op_id, (n - 1) as nat), op_id, OpOutcome::Countable).0
    }
}

/// The budget law: a head op that fails countably on every attempt is kept,
/// with `k` failures recorded after its `k`-th attempt, for attempts
/// 1..=9, and the 10th attempt drops it. Backoff drains in between
/// (`start_drain`) only decrement `skip_drains`, never `failures`.
pub proof fn lemma_dead_letter_budget(op_id: u64, n: nat)
    requires
        1 <= n <= OUTBOX_DEAD_LETTER_ATTEMPTS,
    ensures
        n < OUTBOX_DEAD_LETTER_ATTEMPTS ==> after_failures(op_id, n) == Some(
            HeadRetry { op_id, failures: n as u32, skip_drains: skips_spec(n as u32) },
        ),
        n < OUTBOX_DEAD_LETTER_ATTEMPTS ==> after_spec(
            after_failures(op_id, (n - 1) as nat),
            op_id,
            OpOutcome::Countable,
        ).1 == OpAction::RetryLater,
        n == OUTBOX_DEAD_LETTER_ATTEMPTS ==> after_spec(
            after_failures(op_id, (n - 1) as nat),
            op_id,
            OpOutcome::Countable,
        ).1 == OpAction::DropExhausted,
    decreases n,
{
    if n > 1 {
        lemma_dead_letter_budget(op_id, (n - 1) as nat);
    }
}

/// A backoff drain keeps the failure count and consumes exactly one skip.
pub proof fn lemma_backoff_keeps_failures(hr: HeadRetry)
    requires
        hr.skip_drains > 0,
    ensures
        start_spec(Some(hr), Some(hr.op_id)) == (
            Some(HeadRetry { skip_drains: (hr.skip_drains - 1) as u32, ..hr }),
            DrainStart::Backoff,
        ),
{
}

/// Transient failures never arm or change the retry budget, and stop the
/// drain with the op still queued.
pub proof fn lemma_transient_unbudgeted(hr: Option<HeadRetry>, op_id: u64)
    ensures
        after_spec(hr, op_id, OpOutcome::Transient) == (hr, OpAction::KeepQueued),
        stops(OpAction::KeepQueued),
{
}

} // verus!
