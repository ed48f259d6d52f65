//! The compiled policy: building it from a configuration, and deciding on a
//! request's User-Agent.

use vstd::prelude::*;
use vstd::utf8::encode_utf8;

use regex::RegexSet;

use crate::config::{decode_configuration, ConfigError, Configuration, ConfigurationView, Mode};
use crate::json::JsonValue;
use crate::regex_bridge::{
    compile_regex, compile_regex_set, regex_compiles, regex_set_compiles, regex_set_is_match,
    regex_set_default_syntax, regex_set_patterns, set_is_match,
};
use crate::request::{
    is_model_query_path, lemma_screening_depends_only_on_user_agent_values, reason_text,
    request_screening, user_agent_values, value_screening, screen_request, MiddlewareHeader,
    RejectReason, Screening, ScreeningView,
};

verus! {

/// The most patterns an allow-list may hold.
pub const MAX_PATTERNS: usize = 32;

/// The longest pattern, in bytes.
pub const MAX_PATTERN_BYTES: usize = 1024;

/// The compile budget of each regex, for its program and for its lazy DFA, in bytes.
pub const REGEX_SIZE_LIMIT: usize = 2097152;

/// A pattern wrapped so that it must match the whole haystack: `\A(?:p)\z`.
pub open spec fn anchored(pattern: Seq<char>) -> Seq<char> {
    "\\A(?:"@ + pattern + ")\\z"@
}

/// Every pattern of a list, anchored.
pub open spec fn anchored_all(patterns: Seq<Seq<char>>) -> Seq<Seq<char>> {
    patterns.map_values(|p: Seq<char>| anchored(p))
}

/// 1 to 32 patterns, each nonempty and at most 1024 bytes of UTF-8.
pub open spec fn pattern_limits_hold(patterns: Seq<Seq<char>>) -> bool {
    &&& 1 <= patterns.len() <= MAX_PATTERNS
    &&& forall|i: int|
        0 <= i < patterns.len() ==> #[trigger] patterns[i].len() > 0 && encode_utf8(
            patterns[i],
        ).len() <= MAX_PATTERN_BYTES
}

/// Each pattern compiles on its own, within the budget.
pub open spec fn patterns_compile(patterns: Seq<Seq<char>>) -> bool {
    forall|i: int|
        0 <= i < patterns.len() ==> #[trigger] regex_compiles(
            patterns[i],
            REGEX_SIZE_LIMIT as nat,
        )
}

/// A policy as values.
pub struct PolicyView {
    pub mode: Mode,
    pub allow_patterns: Seq<Seq<char>>,
    pub allow_models: bool,
}

/// The policy that a configuration gives: its patterns within the limits,
/// each compiling alone, and all of them anchored compiling as one set.
pub open spec fn policy_from_configuration(config: ConfigurationView) -> Result<
    PolicyView,
    ConfigError,
> {
    if !pattern_limits_hold(config.allow_patterns) {
        Err(ConfigError::PatternLimits)
    } else if !patterns_compile(config.allow_patterns) {
        Err(ConfigError::PatternSyntax)
    } else if !regex_set_compiles(anchored_all(config.allow_patterns), REGEX_SIZE_LIMIT as nat) {
        Err(ConfigError::PatternSyntax)
    } else {
        Ok(
            PolicyView {
                mode: config.mode,
                allow_patterns: config.allow_patterns,
                allow_models: config.allow_models,
            },
        )
    }
}

/// The policy that a JSON configuration gives.
pub open spec fn policy_from_value(value: JsonValue) -> Result<PolicyView, ConfigError> {
    match decode_configuration(value) {
        Ok(config) => policy_from_configuration(config),
        Err(e) => Err(e),
    }
}

/// Why a policy refuses a request, if it does: the screening's reason, or
/// no anchored pattern matching the trimmed User-Agent.
pub open spec fn rejection_for(
    policy: PolicyView,
    endpoint: Seq<char>,
    headers: Seq<MiddlewareHeader>,
) -> Option<RejectReason> {
    match request_screening(policy.allow_models, endpoint, headers) {
        ScreeningView::Exempt => None,
        ScreeningView::Refused(reason) => Some(reason),
        ScreeningView::Candidate(ua) => if regex_set_is_match(
            anchored_all(policy.allow_patterns),
            ua,
        ) {
            None
        } else {
            Some(RejectReason::UnmatchedUa)
        },
    }
}

/// A compiled User-Agent policy.
pub struct Policy {
    mode: Mode,
    patterns: RegexSet,
    allow_models: bool,
    allow_patterns: Ghost<Seq<Seq<char>>>,
}

impl View for Policy {
    type V = PolicyView;

    closed spec fn view(&self) -> PolicyView {
        PolicyView {
            mode: self.mode,
            allow_patterns: self.allow_patterns@,
            allow_models: self.allow_models,
        }
    }
}

/// Builds `\A(?:p)\z` from a pattern.
pub fn anchor_pattern(pattern: &String) -> (wrapped: String)
    ensures
        wrapped@ == anchored(pattern@),
{
    let mut wrapped = "\\A(?:".to_owned();
    wrapped.append(pattern.as_str());
    wrapped.append(")\\z");
    wrapped
}

impl Policy {
    /// The set always holds the configured patterns, anchored, compiled with
    /// the default syntax options; they are within the limits and compile.
    #[verifier::type_invariant]
    closed spec fn well_formed(self) -> bool {
        &&& regex_set_patterns(self.patterns) == anchored_all(self.allow_patterns@)
        &&& regex_set_default_syntax(self.patterns)
        &&& pattern_limits_hold(self.allow_patterns@)
        &&& patterns_compile(self.allow_patterns@)
        &&& regex_set_compiles(anchored_all(self.allow_patterns@), REGEX_SIZE_LIMIT as nat)
    }

    /// Compiles the allow-list of a configuration.
    pub fn from_configuration(config: Configuration) -> (policy: Result<Policy, ConfigError>)
        ensures
            match policy {
                Ok(p) => policy_from_configuration(config@) == Ok::<PolicyView, ConfigError>(p@),
                Err(e) => policy_from_configuration(config@) == Err::<PolicyView, ConfigError>(e),
            },
    {
        let ghost patterns = config@.allow_patterns;
        let n = config.allow_patterns.len();
        if n == 0 || n > MAX_PATTERNS {
            return Err(ConfigError::PatternLimits);
        }
        for i in 0..n
            invariant
                n == config.allow_patterns@.len(),
                patterns == config@.allow_patterns,
                forall|j: int|
                    0 <= j < i ==> #[trigger] patterns[j].len() > 0 && encode_utf8(
                        patterns[j],
                    ).len() <= MAX_PATTERN_BYTES,
        {
            let p = config.allow_patterns[i].as_str();
            assert(patterns[i as int] == p@);
            if p.is_empty() || p.as_bytes().len() > MAX_PATTERN_BYTES {
                return Err(ConfigError::PatternLimits);
            }
        }
        for i in 0..n
            invariant
                n == config.allow_patterns@.len(),
                patterns == config@.allow_patterns,
                pattern_limits_hold(patterns),
                forall|j: int|
                    0 <= j < i ==> #[trigger] regex_compiles(
                        patterns[j],
                        REGEX_SIZE_LIMIT as nat,
                    ),
        {
            match compile_regex(config.allow_patterns[i].as_str(), REGEX_SIZE_LIMIT) {
                Ok(_) => {},
                Err(_) => {
                    assert(!regex_compiles(patterns[i as int], REGEX_SIZE_LIMIT as nat));
                    return Err(ConfigError::PatternSyntax);
                },
            }
        }
        let mut wrapped: Vec<String> = Vec::new();
        for i in 0..n
            invariant
                n == config.allow_patterns@.len(),
                patterns == config@.allow_patterns,
                wrapped@.len() == i,
                forall|j: int| 0 <= j < i ==> #[trigger] wrapped@[j]@ == anchored(patterns[j]),
        {
            wrapped.push(anchor_pattern(&config.allow_patterns[i]));
        }
        assert(wrapped@.map_values(|p: String| p@) =~= anchored_all(patterns));
        match compile_regex_set(&wrapped, REGEX_SIZE_LIMIT) {
            Ok(set) => Ok(
                Policy {
                    mode: config.mode,
                    patterns: set,
                    allow_models: config.allow_models,
                    allow_patterns: Ghost(patterns),
                },
            ),
            Err(_) => Err(ConfigError::PatternSyntax),
        }
    }

    /// Reads and compiles a JSON configuration.
    pub fn from_value(value: JsonValue) -> (policy: Result<Policy, ConfigError>)
        ensures
            match policy {
                Ok(p) => policy_from_value(value) == Ok::<PolicyView, ConfigError>(p@),
                Err(e) => policy_from_value(value) == Err::<PolicyView, ConfigError>(e),
            },
    {
        match Configuration::from_json(&value) {
            Ok(config) => Policy::from_configuration(config),
            Err(e) => Err(e),
        }
    }

    /// The configured mode.
    pub fn mode(&self) -> (mode: Mode)
        ensures
            mode == self@.mode,
    {
        self.mode
    }

    /// Why the request is refused, if it is: `None` lets it through.
    pub fn rejection(&self, endpoint: &str, headers: &[MiddlewareHeader]) -> (reason: Option<
        RejectReason,
    >)
        ensures
            reason == rejection_for(self@, endpoint@, headers@),
    {
        proof {
            use_type_invariant(self);
        }
        match screen_request(self.allow_models, endpoint, headers) {
            Screening::Exempt => None,
            Screening::Refused(reason) => Some(reason),
            Screening::Candidate(ua) => {
                if set_is_match(&self.patterns, ua) {
                    None
                } else {
                    Some(RejectReason::UnmatchedUa)
                }
            },
        }
    }

    /// The name of the reason why the request is refused, if it is: `None`
    /// means allowed, a reason means reject (or would reject in observe
    /// mode). The headers are only read, so the request goes on unchanged.
    pub fn rejection_reason(&self, endpoint: &str, headers: &[MiddlewareHeader]) -> (reason: Option<
        &'static str,
    >)
        ensures
            reason is None <==> rejection_for(self@, endpoint@, headers@) is None,
            reason matches Some(name) ==> name@ == reason_text(
                rejection_for(self@, endpoint@, headers@).unwrap(),
            ),
    {
        match self.rejection(endpoint, headers) {
            Some(reason) => Some(reason.as_str()),
            None => None,
        }
    }
}

/// With the exemption on, a model query is let through whatever its headers.
pub proof fn lemma_model_queries_are_exempt(
    policy: PolicyView,
    endpoint: Seq<char>,
    headers: Seq<MiddlewareHeader>,
)
    requires
        policy.allow_models,
        is_model_query_path(endpoint),
    ensures
        rejection_for(policy, endpoint, headers) is None,
{
}

/// The endpoint matters only through the model exemption: when the
/// exemption is off, or neither endpoint is a model query, two requests with
/// the same headers get the same answer.
pub proof fn lemma_endpoint_matters_only_for_models(
    policy: PolicyView,
    endpoint: Seq<char>,
    other_endpoint: Seq<char>,
    headers: Seq<MiddlewareHeader>,
)
    requires
        !policy.allow_models || (!is_model_query_path(endpoint) && !is_model_query_path(
            other_endpoint,
        )),
    ensures
        rejection_for(policy, endpoint, headers) == rejection_for(
            policy,
            other_endpoint,
            headers,
        ),
{
}

/// A policy sees a request's headers only through the multiset of its
/// User-Agent values: reordering the headers, changing the ASCII case of
/// their names, or adding or removing headers of other names (which keep
/// that multiset, by `lemma_header_order_is_ignored`,
/// `lemma_name_case_is_ignored` and `lemma_other_headers_are_ignored`)
/// leaves the answer as it was.
pub proof fn lemma_rejection_sees_only_user_agent_values(
    policy: PolicyView,
    endpoint: Seq<char>,
    headers: Seq<MiddlewareHeader>,
    other_headers: Seq<MiddlewareHeader>,
)
    requires
        user_agent_values(headers).to_multiset() == user_agent_values(other_headers).to_multiset(),
    ensures
        rejection_for(policy, endpoint, headers) == rejection_for(policy, endpoint, other_headers),
{
    lemma_screening_depends_only_on_user_agent_values(
        policy.allow_models,
        endpoint,
        headers,
        other_headers,
    );
}

/// The form that every allowed pattern takes in the compiled set: `\A(?:`,
/// the pattern, then `)\z`. The group keeps a top-level alternation of the
/// pattern between the two anchors, so each pattern must match the whole
/// User-Agent, never a prefix or a substring of it.
pub proof fn lemma_patterns_are_grouped_and_anchored(pattern: Seq<char>)
    ensures
        anchored(pattern) == seq!['\\', 'A', '(', '?', ':'] + pattern + seq![')', '\\', 'z'],
{
    reveal_strlit("\\A(?:");
    reveal_strlit(")\\z");
    assert("\\A(?:"@ =~= seq!['\\', 'A', '(', '?', ':']);
    assert(")\\z"@ =~= seq![')', '\\', 'z']);
}

/// A well-formed User-Agent that is the one User-Agent of a request to an
/// endpoint that is not exempt is let through exactly when the set of the
/// configured patterns, each written `\A(?:p)\z`, matches it, and is refused
/// as unmatched otherwise, whatever the mode and the models flag.
pub proof fn lemma_candidate_is_decided_by_the_whole_value_patterns(
    policy: PolicyView,
    endpoint: Seq<char>,
    headers: Seq<MiddlewareHeader>,
    ua: Seq<char>,
)
    requires
        !policy.allow_models || !is_model_query_path(endpoint),
        user_agent_values(headers).len() == 1,
        value_screening(user_agent_values(headers)[0]) == ScreeningView::Candidate(ua),
    ensures
        ({
            let wrapped = Seq::new(
                policy.allow_patterns.len(),
                |i: int|
                    seq!['\\', 'A', '(', '?', ':'] + policy.allow_patterns[i] + seq![')', '\\', 'z'],
            );
            &&& regex_set_is_match(wrapped, ua) ==> rejection_for(policy, endpoint, headers) is None
            &&& !regex_set_is_match(wrapped, ua) ==> rejection_for(policy, endpoint, headers)
                == Some(RejectReason::UnmatchedUa)
        }),
{
    let wrapped = Seq::new(
        policy.allow_patterns.len(),
        |i: int| seq!['\\', 'A', '(', '?', ':'] + policy.allow_patterns[i] + seq![')', '\\', 'z'],
    );
    assert forall|i: int| 0 <= i < wrapped.len() implies #[trigger] wrapped[i] == anchored_all(
        policy.allow_patterns,
    )[i] by {
        lemma_patterns_are_grouped_and_anchored(policy.allow_patterns[i]);
    }
    assert(wrapped =~= anchored_all(policy.allow_patterns));
}

/// The models flag matters only through the model exemption: at an endpoint
/// that is not a model query, flipping it leaves every answer unchanged, so
/// turning the exemption off never lets anything through unchecked.
pub proof fn lemma_models_flag_matters_only_for_model_queries(
    policy: PolicyView,
    endpoint: Seq<char>,
    headers: Seq<MiddlewareHeader>,
)
    requires
        !is_model_query_path(endpoint),
    ensures
        rejection_for(policy, endpoint, headers) == rejection_for(
            PolicyView {
                mode: policy.mode,
                allow_patterns: policy.allow_patterns,
                allow_models: !policy.allow_models,
            },
            endpoint,
            headers,
        ),
{
}

/// An accepted configuration keeps all of it: the policy holds every
/// configured pattern, in order, with nothing dropped or added, and the
/// configured mode and models flag.
pub proof fn lemma_accepted_configuration_is_kept_whole(config: ConfigurationView)
    ensures
        policy_from_configuration(config) matches Ok(policy) ==> {
            &&& policy.allow_patterns.len() == config.allow_patterns.len()
            &&& forall|i: int|
                0 <= i < config.allow_patterns.len() ==> policy.allow_patterns[i]
                    == config.allow_patterns[i]
            &&& policy.mode == config.mode
            &&& policy.allow_models == config.allow_models
        },
{
}

/// A configuration is either refused or gives a policy whose allow-list
/// holds 1 to 32 nonempty patterns of at most 1024 bytes that all compile:
/// a bad configuration never yields a policy that lets everything through
/// unchecked.
pub proof fn lemma_accepted_configuration_is_well_formed(value: JsonValue)
    ensures
        policy_from_value(value) matches Ok(policy) ==> {
            &&& pattern_limits_hold(policy.allow_patterns)
            &&& patterns_compile(policy.allow_patterns)
            &&& regex_set_compiles(anchored_all(policy.allow_patterns), REGEX_SIZE_LIMIT as nat)
        },
{
}

} // verus!
