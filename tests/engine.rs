use reset_guard::device::{
    request_policy, resend_policy, Action, DeviceState, LOCKOUT_MS, REQUEST_SPACING_MS, WINDOW_MS,
};
use reset_guard::policy::{ceil_secs, evaluate, prune, DenyReason, PolicyState, Verdict};
use reset_guard::store::DeviceStore;

fn secs(s: u64) -> u64 {
    s * 1000
}

fn allowed(n: u64) -> Verdict {
    Verdict::Allowed { remaining_attempts: Some(n) }
}

fn denied(secs: u64, reason: DenyReason) -> Verdict {
    Verdict::Denied { cooldown_remaining: secs, reason }
}

#[test]
fn five_requests_then_lockout_scenario() {
    let mut store = DeviceStore::new();
    let d1 = String::from("D1");
    for (i, t) in [0u64, 150, 300, 450, 600].iter().enumerate() {
        let v = store.evaluate(&d1, Action::Request, secs(*t), false);
        assert_eq!(v, allowed(4 - i as u64));
    }
    // One second after the fifth request the spacing rule answers first.
    assert_eq!(
        store.evaluate(&d1, Action::Request, secs(601), false),
        denied(149, DenyReason::Spacing)
    );
    // Once the spacing has elapsed the count threshold locks the device out.
    assert_eq!(
        store.evaluate(&d1, Action::Request, secs(750), false),
        denied(3600, DenyReason::CountExceeded)
    );
    let st = store.lookup(&d1).unwrap();
    assert_eq!(st.request.expiry, Some(secs(750) + LOCKOUT_MS));
    assert_eq!(st.request.timestamps.len(), 5);
}

#[test]
fn resend_probe_on_empty_history() {
    let mut store = DeviceStore::new();
    let d1 = String::from("D1");
    assert_eq!(
        store.evaluate(&d1, Action::Resend, 0, true),
        Verdict::AllowedProbe
    );
    let st = store.lookup(&d1).unwrap();
    assert!(st.resend.timestamps.is_empty());
    assert_eq!(st.resend.expiry, None);
    assert!(st.request.timestamps.is_empty());
    assert_eq!(st.request.expiry, None);
}

#[test]
fn policies_are_independent() {
    let mut d = DeviceState::new();
    for t in [0u64, 150, 300, 450, 600, 750] {
        d.evaluate(Action::Request, secs(t), false);
    }
    assert!(d.request.expiry.is_some());
    assert!(d.resend.timestamps.is_empty());
    assert_eq!(d.resend.expiry, None);
    assert_eq!(
        d.evaluate(Action::Resend, secs(760), false),
        Verdict::Allowed { remaining_attempts: None }
    );
    let before = d.request.timestamps.clone();
    let expiry = d.request.expiry;
    for t in [761u64, 762, 763, 764] {
        d.evaluate(Action::Resend, secs(t), false);
    }
    assert!(d.resend.expiry.is_some());
    assert_eq!(d.request.timestamps, before);
    assert_eq!(d.request.expiry, expiry);
}

#[test]
fn lockout_expires_and_history_restarts() {
    let mut d = DeviceState::new();
    for t in [0u64, 150, 300, 450, 600, 750] {
        d.evaluate(Action::Request, secs(t), false);
    }
    let expiry = secs(750) + LOCKOUT_MS;
    assert_eq!(d.request.expiry, Some(expiry));
    assert_eq!(
        d.evaluate(Action::Request, expiry - 1, false),
        denied(1, DenyReason::Lockout)
    );
    assert_eq!(d.evaluate(Action::Request, expiry, false), allowed(4));
    assert_eq!(d.request.timestamps, vec![expiry]);
    assert_eq!(d.request.expiry, None);
}

#[test]
fn spacing_denial_is_not_recorded() {
    let mut d = DeviceState::new();
    assert_eq!(d.evaluate(Action::Request, secs(10), false), allowed(4));
    assert_eq!(
        d.evaluate(Action::Request, secs(10) + 40_500, false),
        denied(110, DenyReason::Spacing)
    );
    assert_eq!(d.request.timestamps, vec![secs(10)]);
    assert_eq!(
        d.evaluate(Action::Request, secs(10) + REQUEST_SPACING_MS, false),
        allowed(3)
    );
}

#[test]
fn probes_do_not_consume_budget() {
    let mut probed = DeviceState::new();
    let mut plain = DeviceState::new();
    for t in [0u64, 1, 2, 3, 4, 5, 6, 7] {
        assert_eq!(
            probed.evaluate(Action::Resend, secs(t), true),
            Verdict::AllowedProbe
        );
        assert_eq!(
            probed.evaluate(Action::Request, secs(t), true),
            Verdict::AllowedProbe
        );
    }
    assert!(probed.request.timestamps.is_empty());
    assert!(probed.resend.timestamps.is_empty());
    for t in [10u64, 160, 310] {
        assert_eq!(
            probed.evaluate(Action::Request, secs(t), false),
            plain.evaluate(Action::Request, secs(t), false)
        );
    }
}

#[test]
fn probe_reports_spacing() {
    let mut d = DeviceState::new();
    d.evaluate(Action::Request, secs(100), false);
    assert_eq!(
        d.evaluate(Action::Request, secs(200), true),
        denied(50, DenyReason::Spacing)
    );
    assert_eq!(d.request.timestamps, vec![secs(100)]);
    assert_eq!(
        d.evaluate(Action::Request, secs(250), true),
        Verdict::AllowedProbe
    );
}

#[test]
fn probe_reports_active_lockout() {
    let mut d = DeviceState::new();
    for t in [0u64, 1, 2] {
        d.evaluate(Action::Resend, secs(t), false);
    }
    assert_eq!(
        d.evaluate(Action::Resend, secs(3), false),
        denied(3600, DenyReason::CountExceeded)
    );
    let expiry = d.resend.expiry;
    assert_eq!(
        d.evaluate(Action::Resend, secs(3) + 1_800_000 + 300, true),
        denied(1800, DenyReason::Lockout)
    );
    assert_eq!(d.resend.expiry, expiry);
    assert_eq!(d.resend.timestamps.len(), 3);
}

#[test]
fn probe_clears_expired_lockout() {
    let mut d = DeviceState::new();
    for t in [0u64, 1, 2, 3] {
        d.evaluate(Action::Resend, secs(t), false);
    }
    let expiry = d.resend.expiry.unwrap();
    assert_eq!(
        d.evaluate(Action::Resend, expiry, true),
        Verdict::AllowedProbe
    );
    assert_eq!(d.resend.expiry, None);
    assert!(d.resend.timestamps.is_empty());
}

#[test]
fn resend_budget_without_spacing() {
    let mut d = DeviceState::new();
    for t in [0u64, 1, 2] {
        assert_eq!(
            d.evaluate(Action::Resend, secs(t), false),
            Verdict::Allowed { remaining_attempts: None }
        );
    }
    assert_eq!(
        d.evaluate(Action::Resend, secs(3), false),
        denied(3600, DenyReason::CountExceeded)
    );
    assert_eq!(d.resend.expiry, Some(secs(3) + LOCKOUT_MS));
}

#[test]
fn window_slides() {
    let mut d = DeviceState::new();
    for t in [0u64, 150, 300, 450, 600] {
        d.evaluate(Action::Request, secs(t), false);
    }
    // The first request leaves the window exactly one hour after it was made.
    assert_eq!(d.evaluate(Action::Request, WINDOW_MS, false), allowed(0));
    assert_eq!(d.request.timestamps.len(), 5);
    assert_eq!(d.request.timestamps[0], secs(150));
}

#[test]
fn prune_keeps_recent_in_order() {
    let ts = vec![1000u64, 5000, 9000, 12000];
    assert_eq!(prune(&ts, 12000, 7001), vec![5000, 9000, 12000]);
    assert_eq!(prune(&ts, 12000, 7000), vec![9000, 12000]);
    assert_eq!(prune(&Vec::new(), 5, 10), Vec::<u64>::new());
}

#[test]
fn ceil_secs_rounds_up() {
    assert_eq!(ceil_secs(0), 0);
    assert_eq!(ceil_secs(1), 1);
    assert_eq!(ceil_secs(1000), 1);
    assert_eq!(ceil_secs(1001), 2);
    assert_eq!(ceil_secs(3_600_000), 3600);
}

#[test]
fn policy_evaluate_directly() {
    let p = request_policy();
    let mut s = PolicyState::new();
    assert_eq!(evaluate(&p, &mut s, 0, false), allowed(4));
    let r = resend_policy();
    let mut s2 = PolicyState::new();
    assert_eq!(
        evaluate(&r, &mut s2, 0, false),
        Verdict::Allowed { remaining_attempts: None }
    );
    assert_eq!(r.spacing_ms, None);
    assert_eq!(p.spacing_ms, Some(REQUEST_SPACING_MS));
}

#[test]
fn action_names_route() {
    let resend = String::from("resend");
    let request = String::from("request");
    let other = String::from("Resend");
    assert_eq!(Action::from_name(Some(&resend)), Action::Resend);
    assert_eq!(Action::from_name(Some(&request)), Action::Request);
    assert_eq!(Action::from_name(Some(&other)), Action::Request);
    assert_eq!(Action::from_name(None), Action::Request);
}

#[test]
fn store_keeps_devices_apart() {
    let mut store = DeviceStore::new();
    let a = String::from("A");
    let b = String::from("B");
    assert_eq!(store.len(), 0);
    assert!(store.lookup(&a).is_none());
    assert_eq!(store.evaluate(&a, Action::Request, 0, false), allowed(4));
    assert_eq!(store.evaluate(&b, Action::Request, 0, false), allowed(4));
    assert_eq!(
        store.evaluate(&a, Action::Request, 1000, false),
        denied(149, DenyReason::Spacing)
    );
    assert_eq!(store.len(), 2);
    assert_eq!(store.lookup(&b).unwrap().request.timestamps, vec![0]);
}
