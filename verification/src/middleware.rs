//! The decisions of the request middleware: what to log and whether the
//! call goes on to the next handler.
//!
//! The host's side (sending the log, waiting for it, calling the next
//! handler, returning the fault) is carried out by the caller, which acts on
//! the `Admission` that `decide_call` returns.

use vstd::prelude::*;

use crate::config::{mode_name, Mode};
use crate::policy::{rejection_for, Policy, PolicyView};
use crate::request::{reason_text, MiddlewareHeader};

verus! {

/// The event name of a logged policy decision.
pub const LOG_EVENT: &'static str = "ua_policy_decision";

/// How long, in milliseconds, a decision log may hold up the call.
pub const LOG_TIMEOUT_MILLIS: u64 = 100;

/// The message of the fault that refuses a call.
pub const REJECTION_MESSAGE: &'static str = "Client User-Agent is not allowed";

/// How a call ends once the middleware has decided.
#[derive(Clone, Copy, Debug, PartialEq, Eq, Structural)]
pub enum Completion {
    /// Hand the original request, unchanged, to the next handler.
    Forward,
    /// Refuse the call without calling the next handler.
    Reject,
}

/// How a call ends: refused only when the policy refuses it and enforces.
pub open spec fn decided_completion(
    policy: PolicyView,
    endpoint: Seq<char>,
    headers: Seq<MiddlewareHeader>,
) -> Completion {
    if rejection_for(policy, endpoint, headers) is Some && policy.mode == Mode::Enforce {
        Completion::Reject
    } else {
        Completion::Forward
    }
}

/// The decision field of a log: `reject` when enforcing, else `would_reject`.
pub open spec fn decision_text(mode: Mode) -> Seq<char> {
    match mode {
        Mode::Enforce => "reject"@,
        Mode::Observe => "would_reject"@,
    }
}

/// The fields of a logged decision. They are fixed names: none of them
/// carries the User-Agent or anything else from the request.
pub struct DecisionLog {
    pub reason: &'static str,
    pub mode: &'static str,
    pub decision: &'static str,
}

/// What the middleware does with a call.
pub enum Admission {
    /// The User-Agent is allowed: forward the call, with nothing logged.
    Forward,
    /// The User-Agent is not allowed: log the decision, then end the call as
    /// `then` says, whatever became of the log.
    Report { log: DecisionLog, then: Completion },
}

/// Decides on a call.
pub fn decide_call(policy: &Policy, endpoint: &str, headers: &[MiddlewareHeader]) -> (admission:
    Admission)
    ensures
        admission is Forward <==> rejection_for(policy@, endpoint@, headers@) is None,
        admission matches Admission::Report { log, then } ==> {
            &&& log.reason@ == reason_text(rejection_for(policy@, endpoint@, headers@).unwrap())
            &&& log.mode@ == mode_name(policy@.mode)
            &&& log.decision@ == decision_text(policy@.mode)
            &&& then == decided_completion(policy@, endpoint@, headers@)
        },
{
    match policy.rejection(endpoint, headers) {
        None => Admission::Forward,
        Some(reason) => {
            let mode = policy.mode();
            let enforce = mode == Mode::Enforce;
            let log = DecisionLog {
                reason: reason.as_str(),
                mode: mode.as_str(),
                decision: if enforce {
                    "reject"
                } else {
                    "would_reject"
                },
            };
            let then = if enforce {
                Completion::Reject
            } else {
                Completion::Forward
            };
            Admission::Report { log, then }
        },
    }
}

/// In observe mode no call is refused: every call goes on to the next
/// handler, logged or not.
pub proof fn lemma_observe_never_refuses(
    policy: PolicyView,
    endpoint: Seq<char>,
    headers: Seq<MiddlewareHeader>,
)
    requires
        policy.mode == Mode::Observe,
    ensures
        decided_completion(policy, endpoint, headers) == Completion::Forward,
{
}

/// In enforce mode a call is refused exactly when the policy has a reason
/// to refuse it.
pub proof fn lemma_enforce_refuses_exactly_the_rejected(
    policy: PolicyView,
    endpoint: Seq<char>,
    headers: Seq<MiddlewareHeader>,
)
    requires
        policy.mode == Mode::Enforce,
    ensures
        (decided_completion(policy, endpoint, headers) == Completion::Reject) <==> rejection_for(
            policy,
            endpoint,
            headers,
        ) is Some,
{
}

} // verus!
