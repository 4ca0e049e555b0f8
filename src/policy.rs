//! One throttling policy: a sliding-window counter with an optional minimum
//! spacing between recorded events and a lockout once the count is reached.
use vstd::prelude::*;

verus! {

/// Milliseconds in one second.
pub const SECOND_MS: u64 = 1000;

/// Largest timestamp (in milliseconds) the engine accepts; it also bounds
/// every duration of a policy, so that sums of the two never overflow.
pub const MAX_TIME_MS: u64 = 4_611_686_018_427_387_904;

/// Whole seconds needed to cover `ms` milliseconds (rounded up).
pub open spec fn secs_ceil(ms: int) -> int {
    (ms + 999) / 1000
}

/// The fixed parameters of one policy.
#[derive(Clone, Copy, Debug, PartialEq, Eq)]
pub struct PolicyParams {
    /// Length of the sliding window.
    pub window_ms: u64,
    /// Minimum distance between two recorded events, if the policy has one.
    pub spacing_ms: Option<u64>,
    /// Number of recorded events allowed within the window.
    pub max_count: u64,
    /// Length of the lockout imposed once the count is reached.
    pub lockout_ms: u64,
    /// Whether an allowed event reports how many attempts remain.
    pub report_remaining: bool,
}

impl PolicyParams {
    pub open spec fn wf(&self) -> bool {
        &&& self.window_ms <= MAX_TIME_MS
        &&& self.lockout_ms <= MAX_TIME_MS
        &&& (self.spacing_ms matches Some(sp) ==> sp <= MAX_TIME_MS)
    }
}

/// Why an evaluation was refused.
#[derive(Clone, Copy, Debug, PartialEq, Eq, Structural)]
pub enum DenyReason {
    /// A lockout is in effect.
    Lockout,
    /// The previous recorded event is too recent.
    Spacing,
    /// The window already holds the maximum number of events; a lockout starts.
    CountExceeded,
}

/// The outcome of one evaluation.
#[derive(Clone, Copy, Debug, PartialEq, Eq, Structural)]
pub enum Verdict {
    /// The event was allowed and recorded.
    Allowed { remaining_attempts: Option<u64> },
    /// A check-only probe found that the event would be allowed; nothing was recorded.
    AllowedProbe,
    /// The event was refused; retrying makes sense after `cooldown_remaining` seconds.
    Denied { cooldown_remaining: u64, reason: DenyReason },
}

/// Mutable state of one policy for one device.
#[derive(Debug)]
pub struct PolicyState {
    /// Recorded events, oldest first.
    pub timestamps: Vec<u64>,
    /// End of the current lockout, if one was imposed and not yet cleared.
    pub expiry: Option<u64>,
}

/// Mathematical model of a `PolicyState`.
pub struct PolicyView {
    pub timestamps: Seq<u64>,
    pub expiry: Option<u64>,
}

impl View for PolicyState {
    type V = PolicyView;

    open spec fn view(&self) -> PolicyView {
        PolicyView { timestamps: self.timestamps@, expiry: self.expiry }
    }
}

impl PolicyView {
    /// Every stored time fits the engine's bounds.
    pub open spec fn wf(&self) -> bool {
        &&& forall|i: int| 0 <= i < self.timestamps.len() ==> self.timestamps[i] <= MAX_TIME_MS
        &&& (self.expiry matches Some(e) ==> e <= 2 * MAX_TIME_MS)
    }

    /// The state of a policy that has never been used.
    pub open spec fn fresh() -> PolicyView {
        PolicyView { timestamps: Seq::empty(), expiry: None }
    }
}

impl PolicyState {
    pub open spec fn wf(&self) -> bool {
        self@.wf()
    }

    /// An unused policy state: no history, no lockout.
    pub fn new() -> (r: PolicyState)
        ensures
            r@ == PolicyView::fresh(),
            r.wf(),
    {
        PolicyState { timestamps: Vec::new(), expiry: None }
    }
}

/// The events `t` of `ts` that still lie inside the window ending at `now`
/// (`now < t + window_ms`), in their original order.
pub open spec fn recent(ts: Seq<u64>, now: u64, window_ms: u64) -> Seq<u64>
    decreases ts.len(),
{
    if ts.len() == 0 {
        ts
    } else {
        let r = recent(ts.drop_last(), now, window_ms);
        if now < ts.last() + window_ms {
            r.push(ts.last())
        } else {
            r
        }
    }
}

/// The wait in seconds that the spacing rule imposes at `now`, given the
/// recorded events `ts`, or `None` when the rule does not apply.
pub open spec fn spacing_wait(p: PolicyParams, ts: Seq<u64>, now: u64) -> Option<u64> {
    match p.spacing_ms {
        Some(sp) => if ts.len() > 0 && now < ts.last() + sp {
            Some(secs_ceil(ts.last() + sp - now) as u64)
        } else {
            None
        },
        None => None,
    }
}

/// The state after the lazy clearing of an expired lockout at `now`
/// (the caller has already checked that no lockout is active).
pub open spec fn cleared(s: PolicyView) -> PolicyView {
    if s.expiry is Some {
        PolicyView::fresh()
    } else {
        s
    }
}

/// One evaluation of policy `p` on state `s` at time `now`: the new state
/// and the verdict. The checks run in a fixed order: active lockout, lazy
/// clearing of an expired lockout, check-only probe, then pruning, spacing,
/// count threshold and recording.
pub open spec fn evaluate_spec(p: PolicyParams, s: PolicyView, now: u64, check_only: bool) -> (
    PolicyView,
    Verdict,
) {
    if s.expiry is Some && now < s.expiry->0 {
        (
            s,
            Verdict::Denied {
                cooldown_remaining: secs_ceil(s.expiry->0 - now) as u64,
                reason: DenyReason::Lockout,
            },
        )
    } else {
        let s1 = cleared(s);
        if check_only {
            match spacing_wait(p, s1.timestamps, now) {
                Some(w) => (s1, Verdict::Denied { cooldown_remaining: w, reason: DenyReason::Spacing }),
                None => (s1, Verdict::AllowedProbe),
            }
        } else {
            let kept = recent(s1.timestamps, now, p.window_ms);
            match spacing_wait(p, kept, now) {
                Some(w) => (
                    PolicyView { timestamps: kept, expiry: None },
                    Verdict::Denied { cooldown_remaining: w, reason: DenyReason::Spacing },
                ),
                None => if kept.len() >= p.max_count {
                    (
                        PolicyView { timestamps: kept, expiry: Some((now + p.lockout_ms) as u64) },
                        Verdict::Denied {
                            cooldown_remaining: secs_ceil(p.lockout_ms as int) as u64,
                            reason: DenyReason::CountExceeded,
                        },
                    )
                } else {
                    (
                        PolicyView { timestamps: kept.push(now), expiry: None },
                        Verdict::Allowed {
                            remaining_attempts: if p.report_remaining {
                                Some((p.max_count - (kept.len() + 1)) as u64)
                            } else {
                                None
                            },
                        },
                    )
                },
            }
        }
    }
}

/// Seconds needed to cover `ms` milliseconds, rounded up.
pub fn ceil_secs(ms: u64) -> (r: u64)
    requires
        ms <= 2 * MAX_TIME_MS,
    ensures
        r == secs_ceil(ms as int),
{
    (ms + 999) / SECOND_MS
}

/// The events of `ts` inside the window of length `window_ms` ending at `now`,
/// in their original order.
pub fn prune(ts: &Vec<u64>, now: u64, window_ms: u64) -> (r: Vec<u64>)
    requires
        window_ms <= MAX_TIME_MS,
        forall|i: int| 0 <= i < ts@.len() ==> ts@[i] <= MAX_TIME_MS,
    ensures
        r@ == recent(ts@, now, window_ms),
        forall|i: int| 0 <= i < r@.len() ==> r@[i] <= MAX_TIME_MS,
{
    let mut kept: Vec<u64> = Vec::new();
    let mut i: usize = 0;
    while i < ts.len()
        invariant
            0 <= i <= ts@.len(),
            window_ms <= MAX_TIME_MS,
            forall|j: int| 0 <= j < ts@.len() ==> ts@[j] <= MAX_TIME_MS,
            kept@ == recent(ts@.take(i as int), now, window_ms),
            forall|j: int| 0 <= j < kept@.len() ==> kept@[j] <= MAX_TIME_MS,
        decreases ts@.len() - i,
    {
        let t = ts[i];
        proof {
            assert(ts@.take(i + 1).drop_last() =~= ts@.take(i as int));
            assert(ts@.take(i + 1).last() == t);
        }
        if now < t + window_ms {
            kept.push(t);
        }
        i = i + 1;
    }
    proof {
        assert(ts@.take(ts@.len() as int) =~= ts@);
    }
    kept
}

/// The spacing rule's wait at `now` for the recorded events `ts`.
fn spacing_check(p: &PolicyParams, ts: &Vec<u64>, now: u64) -> (r: Option<u64>)
    requires
        p.wf(),
        forall|i: int| 0 <= i < ts@.len() ==> ts@[i] <= MAX_TIME_MS,
    ensures
        r == spacing_wait(*p, ts@, now),
{
    match p.spacing_ms {
        Some(sp) => {
            if ts.len() > 0 {
                let last = ts[ts.len() - 1];
                if now < last + sp {
                    return Some(ceil_secs(last + sp - now));
                }
            }
            None
        },
        None => None,
    }
}

/// Evaluates policy `params` on `state` at time `now` (milliseconds).
/// A check-only evaluation records nothing, though it still clears an
/// expired lockout.
pub fn evaluate(params: &PolicyParams, state: &mut PolicyState, now: u64, check_only: bool) -> (r:
    Verdict)
    requires
        params.wf(),
        old(state).wf(),
        now <= MAX_TIME_MS,
    ensures
        final(state).wf(),
        (final(state)@, r) == evaluate_spec(*params, old(state)@, now, check_only),
{
    if let Some(e) = state.expiry {
        if now < e {
            return Verdict::Denied { cooldown_remaining: ceil_secs(e - now), reason: DenyReason::Lockout };
        }
        state.expiry = None;
        state.timestamps = Vec::new();
        assert(state@.timestamps =~= Seq::empty());
    }
    assert(state@ == cleared(old(state)@));
    assert(state@.wf());
    assert(forall|i: int| 0 <= i < state@.timestamps.len() ==> state@.timestamps[i] <= MAX_TIME_MS);
    assert(state@.timestamps == state.timestamps@);
    if check_only {
        let wait = spacing_check(params, &state.timestamps, now);
        return match wait {
            Some(w) => Verdict::Denied { cooldown_remaining: w, reason: DenyReason::Spacing },
            None => Verdict::AllowedProbe,
        };
    }
    let kept = prune(&state.timestamps, now, params.window_ms);
    state.timestamps = kept;
    if let Some(w) = spacing_check(params, &state.timestamps, now) {
        return Verdict::Denied { cooldown_remaining: w, reason: DenyReason::Spacing };
    }
    if state.timestamps.len() as u64 >= params.max_count {
        state.expiry = Some(now + params.lockout_ms);
        return Verdict::Denied {
            cooldown_remaining: ceil_secs(params.lockout_ms),
            reason: DenyReason::CountExceeded,
        };
    }
    state.timestamps.push(now);
    let remaining = if params.report_remaining {
        Some(params.max_count - state.timestamps.len() as u64)
    } else {
        None
    };
    Verdict::Allowed { remaining_attempts: remaining }
}

} // verus!
