//! Properties of the decision engine, stated over its specification and
//! proved once for all inputs.
use vstd::prelude::*;
use crate::device::{
    device_step, request_params, resend_params, Action, DeviceView, LOCKOUT_MS, REQUEST_MAX_COUNT,
    REQUEST_SPACING_MS, RESEND_MAX_COUNT, WINDOW_MS,
};
use crate::policy::{
    evaluate_spec, recent, secs_ceil, spacing_wait, DenyReason, PolicyParams, PolicyView, Verdict, MAX_TIME_MS,
};

verus! {

/// One call of the engine for a device: what is asked, when, and whether
/// it is only a probe.
pub struct Evaluation {
    pub action: Action,
    pub now: u64,
    pub check_only: bool,
}

/// The device state after the evaluations `evs`, in order, starting from `d`.
pub open spec fn run_device(d: DeviceView, evs: Seq<Evaluation>) -> DeviceView
    decreases evs.len(),
{
    if evs.len() == 0 {
        d
    } else {
        let e = evs.last();
        device_step(run_device(d, evs.drop_last()), e.action, e.now, e.check_only).0
    }
}

/// The policy state after real evaluations at the times `times`, in order.
pub open spec fn run_policy(p: PolicyParams, s: PolicyView, times: Seq<u64>) -> PolicyView
    decreases times.len(),
{
    if times.len() == 0 {
        s
    } else {
        evaluate_spec(p, run_policy(p, s, times.drop_last()), times.last(), false).0
    }
}

/// The policy state after check-only evaluations at the times `times`, in order.
pub open spec fn run_probes(p: PolicyParams, s: PolicyView, times: Seq<u64>) -> PolicyView
    decreases times.len(),
{
    if times.len() == 0 {
        s
    } else {
        evaluate_spec(p, run_probes(p, s, times.drop_last()), times.last(), true).0
    }
}

/// Any number of initial-request evaluations leave the resend policy's
/// state as it was.
pub proof fn lemma_requests_leave_resend_alone(d: DeviceView, evs: Seq<Evaluation>)
    requires
        forall|i: int| 0 <= i < evs.len() ==> #[trigger] evs[i].action == Action::Request,
    ensures
        run_device(d, evs).resend == d.resend,
    decreases evs.len(),
{
    if evs.len() > 0 {
        lemma_requests_leave_resend_alone(d, evs.drop_last());
        assert(evs[evs.len() - 1].action == Action::Request);
    }
}

/// Any number of resend evaluations leave the initial-request policy's
/// state as it was.
pub proof fn lemma_resends_leave_request_alone(d: DeviceView, evs: Seq<Evaluation>)
    requires
        forall|i: int| 0 <= i < evs.len() ==> #[trigger] evs[i].action == Action::Resend,
    ensures
        run_device(d, evs).request == d.request,
    decreases evs.len(),
{
    if evs.len() > 0 {
        lemma_resends_leave_request_alone(d, evs.drop_last());
        assert(evs[evs.len() - 1].action == Action::Resend);
    }
}

/// Pruning never lengthens the history.
pub proof fn lemma_recent_len(ts: Seq<u64>, now: u64, window_ms: u64)
    ensures
        recent(ts, now, window_ms).len() <= ts.len(),
    decreases ts.len(),
{
    if ts.len() > 0 {
        lemma_recent_len(ts.drop_last(), now, window_ms);
    }
}

/// Pruning keeps a history whose events all lie inside the window.
pub proof fn lemma_recent_keeps_all(ts: Seq<u64>, now: u64, window_ms: u64)
    requires
        forall|i: int| 0 <= i < ts.len() ==> now < #[trigger] ts[i] + window_ms,
    ensures
        recent(ts, now, window_ms) == ts,
    decreases ts.len(),
{
    if ts.len() > 0 {
        lemma_recent_keeps_all(ts.drop_last(), now, window_ms);
        assert(ts.drop_last().push(ts.last()) =~= ts);
    }
}

/// The smallest distance that the policy's spacing rule demands between two
/// recorded events.
pub open spec fn min_gap(p: PolicyParams) -> int {
    match p.spacing_ms {
        Some(sp) => sp as int,
        None => 0,
    }
}

/// `times` is non-decreasing, consecutive times are at least the policy's
/// spacing apart, and all of them lie within one window.
pub open spec fn paced_in_one_window(p: PolicyParams, times: Seq<u64>) -> bool {
    &&& times.len() > 0
    &&& forall|i: int, j: int| 0 <= i <= j < times.len() ==> times[i] <= times[j]
    &&& forall|i: int| 0 <= i < times.len() - 1 ==> times[i] + min_gap(p) <= #[trigger] times[i + 1]
    &&& times.last() < times[0] + p.window_ms
    &&& times.last() <= MAX_TIME_MS
}

/// At the `k`-th of paced times, the first `k` are all still inside the
/// window and the spacing rule does not apply.
proof fn lemma_paced_open(p: PolicyParams, times: Seq<u64>, k: int)
    requires
        paced_in_one_window(p, times),
        0 <= k < times.len(),
    ensures
        recent(times.take(k), times[k], p.window_ms) == times.take(k),
        spacing_wait(p, times.take(k), times[k]) is None,
{
    let prev = times.take(k);
    let now = times[k];
    assert forall|i: int| 0 <= i < prev.len() implies now < #[trigger] prev[i] + p.window_ms by {
        assert(times[0] <= prev[i]);
        assert(now <= times.last());
    }
    lemma_recent_keeps_all(prev, now, p.window_ms);
    if k > 0 {
        assert(prev.last() == times[k - 1]);
        assert(times[k - 1] + min_gap(p) <= times[k - 1 + 1]);
    }
}

/// From a fresh state, real evaluations paced as the policy asks and lying
/// within one window are each recorded, up to the policy's maximum count.
proof fn lemma_paced_history(p: PolicyParams, times: Seq<u64>, k: int)
    requires
        paced_in_one_window(p, times),
        0 <= k <= times.len(),
        k <= p.max_count,
    ensures
        run_policy(p, PolicyView::fresh(), times.take(k)) == (PolicyView {
            timestamps: times.take(k),
            expiry: None,
        }),
    decreases k,
{
    if k == 0 {
        assert(times.take(0) =~= Seq::<u64>::empty());
    } else {
        let prev = times.take(k - 1);
        assert(times.take(k).drop_last() =~= prev);
        assert(times.take(k).last() == times[k - 1]);
        lemma_paced_history(p, times, k - 1);
        lemma_paced_open(p, times, k - 1);
        assert(prev.push(times[k - 1]) =~= times.take(k));
    }
}

/// From a fresh state, with real evaluations paced as the policy asks and
/// all inside one window: the first `max_count` are allowed (reporting the
/// attempts left where the policy does), and the next one is denied for the
/// whole lockout, which then is in effect.
pub proof fn lemma_budget_then_lockout(p: PolicyParams, times: Seq<u64>)
    requires
        p.wf(),
        paced_in_one_window(p, times),
        times.len() == p.max_count + 1,
    ensures
        forall|k: int|
            0 <= k < p.max_count ==> #[trigger] evaluate_spec(
                p,
                run_policy(p, PolicyView::fresh(), times.take(k)),
                times[k],
                false,
            ).1 == (Verdict::Allowed {
                remaining_attempts: if p.report_remaining {
                    Some((p.max_count - (k + 1)) as u64)
                } else {
                    None
                },
            }),
        evaluate_spec(
            p,
            run_policy(p, PolicyView::fresh(), times.take(p.max_count as int)),
            times.last(),
            false,
        ) == (
            PolicyView {
                timestamps: times.take(p.max_count as int),
                expiry: Some((times.last() + p.lockout_ms) as u64),
            },
            Verdict::Denied {
                cooldown_remaining: secs_ceil(p.lockout_ms as int) as u64,
                reason: DenyReason::CountExceeded,
            },
        ),
{
    assert forall|k: int| 0 <= k < p.max_count implies #[trigger] evaluate_spec(
        p,
        run_policy(p, PolicyView::fresh(), times.take(k)),
        times[k],
        false,
    ).1 == (Verdict::Allowed {
        remaining_attempts: if p.report_remaining {
            Some((p.max_count - (k + 1)) as u64)
        } else {
            None
        },
    }) by {
        lemma_paced_history(p, times, k);
        lemma_paced_open(p, times, k);
    }
    let m = p.max_count as int;
    lemma_paced_history(p, times, m);
    lemma_paced_open(p, times, m);
}

/// Five paced initial requests within one hour are allowed with 4, 3, 2, 1
/// and 0 attempts left; the sixth is denied for 3600 seconds and starts a
/// lockout.
pub proof fn lemma_request_budget(times: Seq<u64>)
    requires
        paced_in_one_window(request_params(), times),
        times.len() == REQUEST_MAX_COUNT + 1,
    ensures
        forall|k: int|
            0 <= k < 5 ==> #[trigger] evaluate_spec(
                request_params(),
                run_policy(request_params(), PolicyView::fresh(), times.take(k)),
                times[k],
                false,
            ).1 == (Verdict::Allowed { remaining_attempts: Some((4 - k) as u64) }),
        evaluate_spec(
            request_params(),
            run_policy(request_params(), PolicyView::fresh(), times.take(5)),
            times[5],
            false,
        ) == (
            PolicyView {
                timestamps: times.take(5),
                expiry: Some((times[5] + LOCKOUT_MS) as u64),
            },
            Verdict::Denied { cooldown_remaining: 3600, reason: DenyReason::CountExceeded },
        ),
{
    lemma_budget_then_lockout(request_params(), times);
}

/// Three resends within one hour are allowed however close together they
/// come; the fourth is denied for 3600 seconds and starts a lockout.
pub proof fn lemma_resend_budget(times: Seq<u64>)
    requires
        paced_in_one_window(resend_params(), times),
        times.len() == RESEND_MAX_COUNT + 1,
    ensures
        forall|k: int|
            0 <= k < 3 ==> #[trigger] evaluate_spec(
                resend_params(),
                run_policy(resend_params(), PolicyView::fresh(), times.take(k)),
                times[k],
                false,
            ).1 == (Verdict::Allowed { remaining_attempts: None }),
        evaluate_spec(
            resend_params(),
            run_policy(resend_params(), PolicyView::fresh(), times.take(3)),
            times[3],
            false,
        ) == (
            PolicyView {
                timestamps: times.take(3),
                expiry: Some((times[3] + LOCKOUT_MS) as u64),
            },
            Verdict::Denied { cooldown_remaining: 3600, reason: DenyReason::CountExceeded },
        ),
{
    lemma_budget_then_lockout(resend_params(), times);
}

/// The resend policy has no spacing rule: without a lockout and with fewer
/// than three resends in the window, a resend is allowed and recorded, however
/// recent the last one.
pub proof fn lemma_resend_ignores_spacing(s: PolicyView, now: u64)
    requires
        s.expiry is None,
        recent(s.timestamps, now, WINDOW_MS).len() < RESEND_MAX_COUNT,
    ensures
        evaluate_spec(resend_params(), s, now, false) == (
            PolicyView { timestamps: recent(s.timestamps, now, WINDOW_MS).push(now), expiry: None },
            Verdict::Allowed { remaining_attempts: None },
        ),
{
}

/// Once a lockout has expired, the next real evaluation finds the policy
/// open with an empty history: it is allowed and its record is the only one.
/// A probe at that time clears the state the same way and records nothing.
pub proof fn lemma_expired_lockout_reopens(p: PolicyParams, s: PolicyView, now: u64)
    requires
        p.max_count >= 1,
        s.expiry matches Some(e) && e <= now,
    ensures
        evaluate_spec(p, s, now, false) == (
            PolicyView { timestamps: seq![now], expiry: None },
            Verdict::Allowed {
                remaining_attempts: if p.report_remaining {
                    Some((p.max_count - 1) as u64)
                } else {
                    None
                },
            },
        ),
        evaluate_spec(p, s, now, true) == (PolicyView::fresh(), Verdict::AllowedProbe),
{
    let empty = Seq::<u64>::empty();
    assert(recent(empty, now, p.window_ms) == empty);
    assert(empty.push(now) =~= seq![now]);
}

/// A real initial request less than 150 seconds after the last recorded one
/// is denied for the rest of those 150 seconds (rounded up to whole seconds)
/// and is not recorded.
pub proof fn lemma_request_spacing(s: PolicyView, now: u64)
    requires
        s.expiry is None,
        s.timestamps.len() > 0,
        s.timestamps.last() <= now < s.timestamps.last() + REQUEST_SPACING_MS,
    ensures
        evaluate_spec(request_params(), s, now, false) == (
            PolicyView { timestamps: recent(s.timestamps, now, WINDOW_MS), expiry: None },
            Verdict::Denied {
                cooldown_remaining: secs_ceil(
                    s.timestamps.last() + REQUEST_SPACING_MS - now,
                ) as u64,
                reason: DenyReason::Spacing,
            },
        ),
        recent(s.timestamps, now, WINDOW_MS).len() <= s.timestamps.len(),
{
    let ts = s.timestamps;
    let kept = recent(ts, now, WINDOW_MS);
    assert(kept == recent(ts.drop_last(), now, WINDOW_MS).push(ts.last()));
    lemma_recent_len(ts, now, WINDOW_MS);
}

/// A probe never records: it leaves the state as it is, or clears a lockout
/// that has already expired.
pub proof fn lemma_probe_records_nothing(p: PolicyParams, s: PolicyView, now: u64)
    ensures
        evaluate_spec(p, s, now, true).0 == s || (s.expiry matches Some(e) && e <= now
            && evaluate_spec(p, s, now, true).0 == PolicyView::fresh()),
{
}

/// A probe is invisible to any later real evaluation.
pub proof fn lemma_probe_transparent(p: PolicyParams, s: PolicyView, probe_at: u64, now: u64)
    requires
        probe_at <= now,
    ensures
        evaluate_spec(p, evaluate_spec(p, s, probe_at, true).0, now, false) == evaluate_spec(
            p,
            s,
            now,
            false,
        ),
{
}

/// Any number of probes, all made no later than `now`, are invisible to a
/// real evaluation at `now`.
pub proof fn lemma_probes_transparent(p: PolicyParams, s: PolicyView, probes: Seq<u64>, now: u64)
    requires
        forall|i: int| 0 <= i < probes.len() ==> #[trigger] probes[i] <= now,
    ensures
        evaluate_spec(p, run_probes(p, s, probes), now, false) == evaluate_spec(p, s, now, false),
    decreases probes.len(),
{
    if probes.len() > 0 {
        let rest = probes.drop_last();
        assert(probes[probes.len() - 1] <= now);
        lemma_probe_transparent(p, run_probes(p, s, rest), probes.last(), now);
        lemma_probes_transparent(p, s, rest, now);
    }
}

/// During a lockout a probe is denied with the seconds left until the lockout
/// ends (rounded up) and changes nothing.
pub proof fn lemma_probe_reports_lockout(p: PolicyParams, s: PolicyView, now: u64)
    requires
        s.expiry matches Some(e) && now < e,
    ensures
        evaluate_spec(p, s, now, true) == (
            s,
            Verdict::Denied {
                cooldown_remaining: secs_ceil(s.expiry->0 - now) as u64,
                reason: DenyReason::Lockout,
            },
        ),
{
}

} // verus!
