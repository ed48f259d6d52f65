use cps_block_ua::{
    decide_call, is_model_query, screen_request, Admission, Completion, ConfigError, Configuration,
    JsonValue, MiddlewareHeader, Mode, Policy, RejectReason, Screening, DEFAULT_PATTERN, LOG_EVENT,
    LOG_TIMEOUT_MILLIS, REJECTION_MESSAGE,
};

fn ua(value: &[u8]) -> MiddlewareHeader {
    MiddlewareHeader {
        name: "user-agent".into(),
        value: value.into(),
    }
}

fn text(value: &str) -> JsonValue {
    JsonValue::String(value.to_owned())
}

fn object(members: Vec<(&str, JsonValue)>) -> JsonValue {
    JsonValue::Object(
        members
            .into_iter()
            .map(|(name, value)| (name.to_owned(), value))
            .collect(),
    )
}

fn list(items: &[&str]) -> JsonValue {
    JsonValue::Array(items.iter().map(|i| text(i)).collect())
}

fn error_of(value: JsonValue) -> ConfigError {
    match Policy::from_value(value) {
        Ok(_) => panic!("configuration was accepted"),
        Err(e) => e,
    }
}

#[test]
fn default_configuration_has_documented_values() {
    let config = Configuration::default();
    assert_eq!(config.mode, Mode::Observe);
    assert_eq!(config.allow_patterns, vec![DEFAULT_PATTERN.to_owned()]);
    assert!(config.allow_models);
    assert_eq!(Mode::default(), Mode::Observe);
}

#[test]
fn mode_names_are_the_configured_names() {
    assert_eq!(Mode::Observe.as_str(), "observe");
    assert_eq!(Mode::Enforce.as_str(), "enforce");
    for mode in [Mode::Observe, Mode::Enforce] {
        let p = Policy::from_value(object(vec![("mode", text(mode.as_str()))])).unwrap();
        assert_eq!(p.mode(), mode);
    }
}

#[test]
fn mode_may_be_given_as_a_unit_variant_object() {
    let p = Policy::from_value(object(vec![(
        "mode",
        object(vec![("enforce", JsonValue::Null)]),
    )]))
    .unwrap();
    assert_eq!(p.mode(), Mode::Enforce);
    assert_eq!(
        error_of(object(vec![("mode", object(vec![("enforce", JsonValue::Number)]))])),
        ConfigError::Shape
    );
    assert_eq!(
        error_of(object(vec![(
            "mode",
            object(vec![("enforce", JsonValue::Null), ("observe", JsonValue::Null)])
        )])),
        ConfigError::Shape
    );
}

#[test]
fn configuration_errors_have_their_kinds() {
    assert_eq!(error_of(JsonValue::Null), ConfigError::Shape);
    assert_eq!(error_of(JsonValue::Bool(true)), ConfigError::Shape);
    assert_eq!(error_of(object(vec![("mode", JsonValue::Null)])), ConfigError::Shape);
    assert_eq!(error_of(object(vec![("allow_models", JsonValue::Number)])), ConfigError::Shape);
    assert_eq!(
        error_of(object(vec![(
            "allow_patterns",
            JsonValue::Array(vec![text("a"), JsonValue::Number])
        )])),
        ConfigError::Shape
    );
    assert_eq!(
        error_of(object(vec![("mode", text("observe")), ("mode", text("enforce"))])),
        ConfigError::Shape
    );
    assert_eq!(error_of(object(vec![("allow_patterns", list(&[]))])), ConfigError::PatternLimits);
    let too_many = vec!["a"; 33];
    assert_eq!(
        error_of(object(vec![("allow_patterns", list(&too_many))])),
        ConfigError::PatternLimits
    );
    let long = "é".repeat(513);
    assert_eq!(
        error_of(object(vec![("allow_patterns", list(&[long.as_str()]))])),
        ConfigError::PatternLimits
    );
    assert_eq!(error_of(object(vec![("allow_patterns", list(&["("]))])), ConfigError::PatternSyntax);
    assert_eq!(
        error_of(object(vec![("allow_patterns", list(&["foo)|(?:bar"]))])),
        ConfigError::PatternSyntax
    );
    assert!(ConfigError::Shape.message().contains("object"));
    assert!(ConfigError::PatternLimits.message().contains("1 to 32"));
    assert!(ConfigError::PatternSyntax.message().contains("invalid regex"));
}

#[test]
fn limits_accept_their_largest_values() {
    let max_patterns = vec!["a"; 32];
    assert!(Policy::from_value(object(vec![("allow_patterns", list(&max_patterns))])).is_ok());
    let longest = "a".repeat(1024);
    assert!(Policy::from_value(object(vec![("allow_patterns", list(&[longest.as_str()]))])).is_ok());
}

#[test]
fn model_queries_are_recognised() {
    assert!(is_model_query("/v1/models"));
    assert!(is_model_query("/v1/models/gpt-5"));
    assert!(is_model_query("/v1/models/..."));
    assert!(!is_model_query("/v1/models/."));
    assert!(!is_model_query("/v1/models/a#b"));
    assert!(!is_model_query("/v1/model"));
    assert!(!is_model_query(""));
}

#[test]
fn screening_trims_optional_whitespace_only() {
    let headers = [ua(b" \tcodex-cli/1.0 (x) \t")];
    match screen_request(true, "/v1/responses", &headers) {
        Screening::Candidate(s) => assert_eq!(s, "codex-cli/1.0 (x)"),
        _ => panic!("expected a candidate"),
    }
    let exempt = [ua(b"\xff")];
    assert!(matches!(screen_request(true, "/v1/models", &exempt), Screening::Exempt));
    assert!(matches!(
        screen_request(false, "/v1/models", &exempt),
        Screening::Refused(RejectReason::InvalidUa)
    ));
}

#[test]
fn padding_does_not_change_the_answer() {
    let p = Policy::from_value(object(vec![])).unwrap();
    for core in ["codex-cli/0.1.0", "curl/8.0", ""] {
        let padded = format!(" \t {core}\t ");
        assert_eq!(
            p.rejection_reason("/v1/responses", &[ua(core.as_bytes())]),
            p.rejection_reason("/v1/responses", &[ua(padded.as_bytes())]),
        );
    }
}

#[test]
fn size_limit_is_counted_before_trimming() {
    let p = Policy::from_value(object(vec![("allow_patterns", list(&["a+"]))])).unwrap();
    let exact = vec![b'a'; 4096];
    assert_eq!(p.rejection_reason("/v1/responses", &[ua(&exact)]), None);
    let mut padded = vec![b' '];
    padded.extend_from_slice(&exact);
    assert_eq!(p.rejection_reason("/v1/responses", &[ua(&padded)]), Some("oversized_ua"));
}

#[test]
fn other_headers_are_ignored() {
    let p = Policy::from_value(object(vec![])).unwrap();
    let headers = [
        MiddlewareHeader {
            name: "x-user-agent".into(),
            value: b"curl/8.0".to_vec(),
        },
        ua(b"codex-cli/0.144.0"),
        MiddlewareHeader {
            name: "authorization".into(),
            value: b"\xff".to_vec(),
        },
    ];
    assert_eq!(p.rejection_reason("/v1/responses", &headers), None);
    assert_eq!(p.rejection(&"/v1/responses", &headers[..1]), Some(RejectReason::MissingUa));
}

#[test]
fn reasons_have_their_names() {
    let names = [
        (RejectReason::MissingUa, "missing_ua"),
        (RejectReason::DuplicateUa, "duplicate_ua"),
        (RejectReason::OversizedUa, "oversized_ua"),
        (RejectReason::InvalidUa, "invalid_ua"),
        (RejectReason::EmptyUa, "empty_ua"),
        (RejectReason::UnmatchedUa, "unmatched_ua"),
    ];
    for (reason, name) in names {
        assert_eq!(reason.as_str(), name);
    }
}

#[test]
fn enforce_refuses_and_logs_fixed_fields() {
    let p = Policy::from_value(object(vec![("mode", text("enforce"))])).unwrap();
    match decide_call(&p, "/v1/responses", &[ua(b"third-party-client/private-user-marker")]) {
        Admission::Report { log, then } => {
            assert_eq!(log.reason, "unmatched_ua");
            assert_eq!(log.mode, "enforce");
            assert_eq!(log.decision, "reject");
            assert_eq!(then, Completion::Reject);
        }
        Admission::Forward => panic!("expected a report"),
    }
    assert!(matches!(
        decide_call(&p, "/v1/responses", &[ua(b"codex-cli/1.2.3")]),
        Admission::Forward
    ));
    assert_eq!(LOG_EVENT, "ua_policy_decision");
    assert_eq!(LOG_TIMEOUT_MILLIS, 100);
    assert_eq!(REJECTION_MESSAGE, "Client User-Agent is not allowed");
}

#[test]
fn observe_logs_and_forwards() {
    let p = Policy::from_value(object(vec![])).unwrap();
    match decide_call(&p, "/v1/responses", &[]) {
        Admission::Report { log, then } => {
            assert_eq!(log.reason, "missing_ua");
            assert_eq!(log.mode, "observe");
            assert_eq!(log.decision, "would_reject");
            assert_eq!(then, Completion::Forward);
        }
        Admission::Forward => panic!("expected a report"),
    }
}

#[test]
fn header_order_name_case_and_other_headers_are_ignored() {
    let p = Policy::from_value(object(vec![])).unwrap();
    let other = |name: &str, value: &[u8]| MiddlewareHeader {
        name: name.into(),
        value: value.to_vec(),
    };
    for value in [b"codex-cli/0.144.0".as_slice(), b"curl/8.0", b" ", b"\xff"] {
        let first = [
            other("accept", b"*/*"),
            MiddlewareHeader {
                name: "User-Agent".into(),
                value: value.to_vec(),
            },
            other("x-trace", b"1"),
        ];
        let second = [
            other("x-extra", b"\xfe"),
            other("x-trace", b"1"),
            MiddlewareHeader {
                name: "USER-agent".into(),
                value: value.to_vec(),
            },
        ];
        assert_eq!(
            p.rejection_reason("/v1/responses", &first),
            p.rejection_reason("/v1/responses", &second)
        );
    }
    let twice = [ua(b"curl/8.0"), other("accept", b"*/*"), ua(b"codex-cli/1.0")];
    let twice_reordered = [ua(b"codex-cli/1.0"), ua(b"curl/8.0")];
    assert_eq!(p.rejection_reason("/v1/responses", &twice), Some("duplicate_ua"));
    assert_eq!(p.rejection_reason("/v1/responses", &twice_reordered), Some("duplicate_ua"));
}
