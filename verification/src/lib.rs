//! Inbound User-Agent access control for a model-serving gateway.
//!
//! A policy is read from a JSON configuration, compiles an allow-list of
//! regular expressions once, and then decides on each request from its
//! endpoint and its `User-Agent` header: the model listing may be exempt; a
//! missing, repeated, oversized, non-UTF-8, empty or non-printable value is
//! refused; a well-formed value must match one allowed pattern as a whole.
//! In observe mode a refusal is only logged; in enforce mode the call ends.

pub mod config;
pub mod json;
pub mod middleware;
pub mod policy;
pub mod regex_bridge;
pub mod request;
pub mod text;

pub use config::{ConfigError, Configuration, Mode, DEFAULT_PATTERN};
pub use json::JsonValue;
pub use middleware::{
    decide_call, Admission, Completion, DecisionLog, LOG_EVENT, LOG_TIMEOUT_MILLIS,
    REJECTION_MESSAGE,
};
pub use policy::Policy;
pub use request::{is_model_query, screen_request, MiddlewareHeader, RejectReason, Screening};
