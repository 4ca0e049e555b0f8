//! A device's throttling state: the initial-request policy and the resend
//! policy, kept apart, and the routing of an action to one of them.
use vstd::prelude::*;
use crate::policy::{
    evaluate, evaluate_spec, PolicyParams, PolicyState, PolicyView, Verdict, MAX_TIME_MS,
};

verus! {

/// Length of the sliding window of both policies: one hour.
pub const WINDOW_MS: u64 = 3_600_000;

/// Minimum spacing between two recorded initial requests: 150 seconds.
pub const REQUEST_SPACING_MS: u64 = 150_000;

/// Initial requests allowed within the window.
pub const REQUEST_MAX_COUNT: u64 = 5;

/// Resends allowed within the window.
pub const RESEND_MAX_COUNT: u64 = 3;

/// Length of the lockout of both policies: one hour.
pub const LOCKOUT_MS: u64 = 3_600_000;

/// The initial-request policy.
pub open spec fn request_params() -> PolicyParams {
    PolicyParams {
        window_ms: WINDOW_MS,
        spacing_ms: Some(REQUEST_SPACING_MS),
        max_count: REQUEST_MAX_COUNT,
        lockout_ms: LOCKOUT_MS,
        report_remaining: true,
    }
}

/// The resend policy: no spacing rule, no report of remaining attempts.
pub open spec fn resend_params() -> PolicyParams {
    PolicyParams {
        window_ms: WINDOW_MS,
        spacing_ms: None,
        max_count: RESEND_MAX_COUNT,
        lockout_ms: LOCKOUT_MS,
        report_remaining: false,
    }
}

/// The parameters of the initial-request policy.
pub fn request_policy() -> (r: PolicyParams)
    ensures
        r == request_params(),
        r.wf(),
{
    PolicyParams {
        window_ms: WINDOW_MS,
        spacing_ms: Some(REQUEST_SPACING_MS),
        max_count: REQUEST_MAX_COUNT,
        lockout_ms: LOCKOUT_MS,
        report_remaining: true,
    }
}

/// The parameters of the resend policy.
pub fn resend_policy() -> (r: PolicyParams)
    ensures
        r == resend_params(),
        r.wf(),
{
    PolicyParams {
        window_ms: WINDOW_MS,
        spacing_ms: None,
        max_count: RESEND_MAX_COUNT,
        lockout_ms: LOCKOUT_MS,
        report_remaining: false,
    }
}

/// The action a caller asks for.
#[derive(Clone, Copy, Debug, PartialEq, Eq, Structural)]
pub enum Action {
    /// Request a reset: the initial-request policy.
    Request,
    /// Resend a reset code: the resend policy.
    Resend,
}

/// The action named by `name`: `"resend"` selects the resend policy, any
/// other name the initial-request policy.
pub open spec fn action_of(name: Seq<char>) -> Action {
    if name == "resend"@ {
        Action::Resend
    } else {
        Action::Request
    }
}

impl Action {
    /// Routes an optional action name; an absent name means `Request`.
    pub fn from_name(name: Option<&String>) -> (r: Action)
        ensures
            r == (match name {
                Some(n) => action_of(n@),
                None => Action::Request,
            }),
    {
        match name {
            Some(n) => {
                let resend = String::from_str("resend");
                if *n == resend {
                    Action::Resend
                } else {
                    Action::Request
                }
            },
            None => Action::Request,
        }
    }
}

/// Throttling state of one device.
#[derive(Debug)]
pub struct DeviceState {
    /// State of the initial-request policy.
    pub request: PolicyState,
    /// State of the resend policy.
    pub resend: PolicyState,
}

/// Mathematical model of a `DeviceState`.
pub struct DeviceView {
    pub request: PolicyView,
    pub resend: PolicyView,
}

impl View for DeviceState {
    type V = DeviceView;

    open spec fn view(&self) -> DeviceView {
        DeviceView { request: self.request@, resend: self.resend@ }
    }
}

impl DeviceView {
    pub open spec fn wf(&self) -> bool {
        self.request.wf() && self.resend.wf()
    }

    /// The state of a device seen for the first time.
    pub open spec fn fresh() -> DeviceView {
        DeviceView { request: PolicyView::fresh(), resend: PolicyView::fresh() }
    }
}

/// One evaluation of `action` for a device in state `d`: the action's own
/// policy is evaluated, the other one is left as it is.
pub open spec fn device_step(d: DeviceView, action: Action, now: u64, check_only: bool) -> (
    DeviceView,
    Verdict,
) {
    match action {
        Action::Request => {
            let (s, v) = evaluate_spec(request_params(), d.request, now, check_only);
            (DeviceView { request: s, resend: d.resend }, v)
        },
        Action::Resend => {
            let (s, v) = evaluate_spec(resend_params(), d.resend, now, check_only);
            (DeviceView { request: d.request, resend: s }, v)
        },
    }
}

impl DeviceState {
    pub open spec fn wf(&self) -> bool {
        self@.wf()
    }

    /// A device with no history and no lockout.
    pub fn new() -> (r: DeviceState)
        ensures
            r@ == DeviceView::fresh(),
            r.wf(),
    {
        DeviceState { request: PolicyState::new(), resend: PolicyState::new() }
    }

    /// Evaluates `action` at time `now` (milliseconds).
    pub fn evaluate(&mut self, action: Action, now: u64, check_only: bool) -> (r: Verdict)
        requires
            old(self).wf(),
            now <= MAX_TIME_MS,
        ensures
            final(self).wf(),
            (final(self)@, r) == device_step(old(self)@, action, now, check_only),
    {
        match action {
            Action::Request => {
                let p = request_policy();
                evaluate(&p, &mut self.request, now, check_only)
            },
            Action::Resend => {
                let p = resend_policy();
                evaluate(&p, &mut self.resend, now, check_only)
            },
        }
    }
}

} // verus!
