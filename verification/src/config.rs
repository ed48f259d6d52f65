//! The policy configuration: its mode, its allow-list, and how it is read
//! from the JSON configuration that the host hands over.

use vstd::prelude::*;

use crate::json::{
    distinct_member_names, json_bool, json_strings, member, strings_of, JsonValue,
};

verus! {

/// The built-in allow-list entry: the Codex clients, a version of two to
/// four numeric parts with an optional pre-release or build suffix, and an
/// optional printable platform description after one space.
pub const DEFAULT_PATTERN: &'static str = "(?:codex_cli_rs|codex-cli|codex-tui|codex_exec|codex_vscode|Codex Desktop)/[0-9]+(?:\\.[0-9]+){1,3}(?:[-+][0-9A-Za-z.-]+)?(?: [ -~]*)?";

/// What the policy does with a request whose User-Agent is not allowed.
#[derive(Clone, Copy, Debug, PartialEq, Eq, Structural)]
pub enum Mode {
    /// Record the decision and let the request through.
    Observe,
    /// Record the decision and refuse the request.
    Enforce,
}

/// The name under which a mode is configured and reported.
pub open spec fn mode_name(mode: Mode) -> Seq<char> {
    match mode {
        Mode::Observe => "observe"@,
        Mode::Enforce => "enforce"@,
    }
}

/// The mode that a configured name selects.
pub open spec fn mode_named(name: Seq<char>) -> Option<Mode> {
    if name == "observe"@ {
        Some(Mode::Observe)
    } else if name == "enforce"@ {
        Some(Mode::Enforce)
    } else {
        None
    }
}

/// A JSON value read as a mode: its name as a string, or an object whose
/// one member is the name with a `null` value.
pub open spec fn json_mode(value: JsonValue) -> Option<Mode> {
    match value {
        JsonValue::String(name) => mode_named(name@),
        JsonValue::Object(members) => if members@.len() == 1 && members@[0].1 is Null {
            mode_named(members@[0].0@)
        } else {
            None
        },
        _ => None,
    }
}

impl Mode {
    /// The configuration name of this mode.
    pub fn as_str(self) -> (name: &'static str)
        ensures
            name@ == mode_name(self),
    {
        match self {
            Mode::Observe => "observe",
            Mode::Enforce => "enforce",
        }
    }

    /// The mode that a name selects, if it names one.
    pub fn named(name: &String) -> (mode: Option<Mode>)
        ensures
            mode == mode_named(name@),
    {
        if *name == "observe".to_owned() {
            Some(Mode::Observe)
        } else if *name == "enforce".to_owned() {
            Some(Mode::Enforce)
        } else {
            None
        }
    }

    /// Reads a JSON value as a mode.
    pub fn from_json(value: &JsonValue) -> (mode: Option<Mode>)
        ensures
            mode == json_mode(*value),
    {
        match value {
            JsonValue::String(name) => Mode::named(name),
            JsonValue::Object(members) => {
                if members.len() == 1 {
                    match &members[0].1 {
                        JsonValue::Null => Mode::named(&members[0].0),
                        _ => None,
                    }
                } else {
                    None
                }
            },
            _ => None,
        }
    }
}

/// The name under which a mode is reported selects that mode again when it
/// is configured.
pub proof fn lemma_mode_names_round_trip(mode: Mode)
    ensures
        mode_named(mode_name(mode)) == Some(mode),
{
    reveal_strlit("observe");
    reveal_strlit("enforce");
    assert("observe"@[0] != "enforce"@[0]);
}

impl Default for Mode {
    fn default() -> (mode: Mode)
        ensures
            mode == Mode::Observe,
    {
        Mode::Observe
    }
}

/// Why a configuration is refused.
#[derive(Clone, Copy, Debug, PartialEq, Eq, Structural)]
pub enum ConfigError {
    /// Not an object of the documented members and types.
    Shape,
    /// Not 1 to 32 patterns, each nonempty and at most 1024 bytes.
    PatternLimits,
    /// A pattern that is not a regex or exceeds the compilation budget.
    PatternSyntax,
}

impl ConfigError {
    /// The message for this error; it never quotes the configuration.
    pub fn message(self) -> (text: &'static str)
        ensures
            text@ == config_error_text(self),
    {
        match self {
            ConfigError::Shape => "configuration must be an object with mode, allow_patterns and/or allow_models of the documented types",
            ConfigError::PatternLimits => "allow_patterns must contain 1 to 32 nonempty patterns of at most 1024 bytes each",
            ConfigError::PatternSyntax => "allow_patterns contains an invalid regex or exceeds the regex compilation budget",
        }
    }
}

/// The message of a configuration error.
pub open spec fn config_error_text(error: ConfigError) -> Seq<char> {
    match error {
        ConfigError::Shape => "configuration must be an object with mode, allow_patterns and/or allow_models of the documented types"@,
        ConfigError::PatternLimits => "allow_patterns must contain 1 to 32 nonempty patterns of at most 1024 bytes each"@,
        ConfigError::PatternSyntax => "allow_patterns contains an invalid regex or exceeds the regex compilation budget"@,
    }
}

/// The members of a configuration, before its patterns are checked.
pub struct Configuration {
    pub mode: Mode,
    pub allow_patterns: Vec<String>,
    pub allow_models: bool,
}

/// A configuration as values.
pub struct ConfigurationView {
    pub mode: Mode,
    pub allow_patterns: Seq<Seq<char>>,
    pub allow_models: bool,
}

impl View for Configuration {
    type V = ConfigurationView;

    open spec fn view(&self) -> ConfigurationView {
        ConfigurationView {
            mode: self.mode,
            allow_patterns: self.allow_patterns@.map_values(|p: String| p@),
            allow_models: self.allow_models,
        }
    }
}

/// The configuration of a member that is left out: observe, the built-in
/// pattern, and the model listing exempt.
pub open spec fn default_configuration() -> ConfigurationView {
    ConfigurationView {
        mode: Mode::Observe,
        allow_patterns: seq![DEFAULT_PATTERN@],
        allow_models: true,
    }
}

impl Default for Configuration {
    fn default() -> (config: Configuration)
        ensures
            config@ == default_configuration(),
    {
        let config = Configuration {
            mode: Mode::Observe,
            allow_patterns: vec![DEFAULT_PATTERN.to_owned()],
            allow_models: true,
        };
        assert(config@.allow_patterns =~= seq![DEFAULT_PATTERN@]);
        config
    }
}

/// A member name and value that a configuration accepts.
pub open spec fn configuration_member(name: Seq<char>, value: JsonValue) -> bool {
    if name == "mode"@ {
        json_mode(value) is Some
    } else if name == "allow_patterns"@ {
        json_strings(value) is Some
    } else if name == "allow_models"@ {
        json_bool(value) is Some
    } else {
        false
    }
}

/// The members of an object that a configuration accepts: each known and
/// of its type, none twice.
pub open spec fn configuration_members(members: Seq<(String, JsonValue)>) -> bool {
    &&& forall|i: int|
        0 <= i < members.len() ==> configuration_member(#[trigger] members[i].0@, members[i].1)
    &&& distinct_member_names(members)
}

/// The configuration that a JSON value holds: an object whose members are
/// all known, distinct and of their types; a missing member keeps its default.
pub open spec fn decode_configuration(value: JsonValue) -> Result<ConfigurationView, ConfigError> {
    match value {
        JsonValue::Object(members) => if configuration_members(members@) {
            let defaults = default_configuration();
            Ok(
                ConfigurationView {
                    mode: match member(members@, "mode"@) {
                        Some(v) => json_mode(v).unwrap(),
                        None => defaults.mode,
                    },
                    allow_patterns: match member(members@, "allow_patterns"@) {
                        Some(v) => json_strings(v).unwrap(),
                        None => defaults.allow_patterns,
                    },
                    allow_models: match member(members@, "allow_models"@) {
                        Some(v) => json_bool(v).unwrap(),
                        None => defaults.allow_models,
                    },
                },
            )
        } else {
            Err(ConfigError::Shape)
        },
        _ => Err(ConfigError::Shape),
    }
}

/// A member that a configuration gives replaces its default entirely: a
/// given allow-list replaces the built-in pattern instead of adding to it.
pub proof fn lemma_given_patterns_replace_defaults(value: JsonValue, list: JsonValue)
    requires
        value matches JsonValue::Object(members) && member(members@, "allow_patterns"@) == Some(
            list,
        ),
        decode_configuration(value) is Ok,
    ensures
        decode_configuration(value)->Ok_0.allow_patterns == json_strings(list).unwrap(),
{
}

/// The value that `member` finds belongs to a member of that name.
proof fn lemma_member_belongs(members: Seq<(String, JsonValue)>, key: Seq<char>)
    requires
        member(members, key) is Some,
    ensures
        exists|i: int|
            0 <= i < members.len() && #[trigger] members[i].0@ == key && members[i].1 == member(
                members,
                key,
            )->Some_0,
    decreases members.len(),
{
    if members.last().0@ != key {
        lemma_member_belongs(members.drop_last(), key);
        let i = choose|i: int|
            0 <= i < members.drop_last().len() && #[trigger] members.drop_last()[i].0@ == key
                && members.drop_last()[i].1 == member(members.drop_last(), key)->Some_0;
        assert(members[i] == members.drop_last()[i]);
    } else {
        assert(members[members.len() - 1].0@ == key);
    }
}

/// Each member that an accepted configuration gives sets its field to the
/// given value, and each member it leaves out keeps the documented default:
/// observe, the built-in pattern alone, and the model listing exempt.
pub proof fn lemma_members_set_their_fields(value: JsonValue)
    requires
        decode_configuration(value) is Ok,
    ensures
        value matches JsonValue::Object(members) && ({
            let config = decode_configuration(value)->Ok_0;
            &&& (member(members@, "allow_models"@) matches Some(JsonValue::Bool(b))
                ==> config.allow_models == b)
            &&& (member(members@, "allow_models"@) is None ==> config.allow_models)
            &&& (member(members@, "mode"@) matches Some(JsonValue::String(name)) ==> (
            config.mode == Mode::Enforce <==> name@ == "enforce"@))
            &&& (member(members@, "mode"@) is None ==> config.mode == Mode::Observe)
            &&& (member(members@, "allow_patterns"@) matches Some(JsonValue::Array(items)) ==> {
                &&& config.allow_patterns.len() == items@.len()
                &&& forall|i: int|
                    0 <= i < items@.len() ==> (#[trigger] items@[i] matches JsonValue::String(s)
                        && config.allow_patterns[i] == s@)
            })
            &&& (member(members@, "allow_patterns"@) is None ==> config.allow_patterns == seq![
                DEFAULT_PATTERN@,
            ])
        }),
{
    reveal_strlit("observe");
    reveal_strlit("enforce");
    assert("observe"@ != "enforce"@) by {
        assert("observe"@[0] != "enforce"@[0]);
    }
    if let JsonValue::Object(members) = value {
        if let Some(JsonValue::String(name)) = member(members@, "mode"@) {
            lemma_member_belongs(members@, "mode"@);
            let k = choose|k: int|
                0 <= k < members@.len() && #[trigger] members@[k].0@ == "mode"@ && members@[k].1
                    == member(members@, "mode"@)->Some_0;
            assert(configuration_member(members@[k].0@, members@[k].1));
            assert(mode_named(name@) is Some);
        }
        if let Some(JsonValue::Array(items)) = member(members@, "allow_patterns"@) {
            let config = decode_configuration(value)->Ok_0;
            lemma_member_belongs(members@, "allow_patterns"@);
            let k = choose|k: int|
                0 <= k < members@.len() && #[trigger] members@[k].0@ == "allow_patterns"@
                    && members@[k].1 == member(members@, "allow_patterns"@)->Some_0;
            assert(configuration_member(members@[k].0@, members@[k].1));
            assert(json_strings(JsonValue::Array(items)) is Some);
            assert forall|i: int| 0 <= i < items@.len() implies (#[trigger] items@[i] matches JsonValue::String(
                s,
            ) && config.allow_patterns[i] == s@) by {
                assert(items@[i] is String);
            }
        }
    }
}

impl Configuration {
    /// Reads a configuration from a JSON value.
    pub fn from_json(value: &JsonValue) -> (config: Result<Configuration, ConfigError>)
        ensures
            match config {
                Ok(c) => decode_configuration(*value) == Ok::<ConfigurationView, ConfigError>(c@),
                Err(e) => decode_configuration(*value) == Err::<ConfigurationView, ConfigError>(e),
            },
    {
        let members = match value {
            JsonValue::Object(members) => members,
            _ => {
                return Err(ConfigError::Shape);
            },
        };
        let mode_key = "mode".to_owned();
        let patterns_key = "allow_patterns".to_owned();
        let models_key = "allow_models".to_owned();
        let mut config = Configuration::default();
        let ghost defaults = default_configuration();
        let n = members.len();
        for i in 0..n
            invariant
                n == members@.len(),
                *value == JsonValue::Object(*members),
                mode_key@ == "mode"@,
                patterns_key@ == "allow_patterns"@,
                models_key@ == "allow_models"@,
                defaults == default_configuration(),
                configuration_members(members@.take(i as int)),
                config@.mode == match member(members@.take(i as int), "mode"@) {
                    Some(v) => json_mode(v).unwrap(),
                    None => defaults.mode,
                },
                config@.allow_patterns == match member(
                    members@.take(i as int),
                    "allow_patterns"@,
                ) {
                    Some(v) => json_strings(v).unwrap(),
                    None => defaults.allow_patterns,
                },
                config@.allow_models == match member(members@.take(i as int), "allow_models"@) {
                    Some(v) => json_bool(v).unwrap(),
                    None => defaults.allow_models,
                },
        {
            proof {
                reveal_strlit("mode");
                reveal_strlit("allow_patterns");
                reveal_strlit("allow_models");
            }
            let ghost before = members@.take(i as int);
            let ghost after = members@.take(i + 1);
            assert(after.drop_last() =~= before);
            assert(after.last() == members@[i as int]);
            assert("mode"@ != "allow_patterns"@ && "mode"@ != "allow_models"@
                && "allow_patterns"@ != "allow_models"@) by {
                assert("mode"@.len() != "allow_patterns"@.len());
                assert("mode"@.len() != "allow_models"@.len());
                assert("allow_patterns"@[6] != "allow_models"@[6]);
            }
            let name = &members[i].0;
            let member_value = &members[i].1;
            for j in 0..i
                invariant
                    i < n,
                    n == members@.len(),
                    after == members@.take(i + 1),
                    *value == JsonValue::Object(*members),
                    *name == members@[i as int].0,
                    forall|k: int| 0 <= k < j ==> members@[k].0@ != members@[i as int].0@,
            {
                if members[j].0 == *name {
                    assert(!distinct_member_names(members@));
                    assert(!configuration_members(after)) by {
                        assert(after[j as int].0@ == after[i as int].0@);
                    }
                    return Err(ConfigError::Shape);
                }
            }
            if *name == mode_key {
                match Mode::from_json(member_value) {
                    Some(mode) => {
                        config.mode = mode;
                    },
                    None => {
                        assert(!configuration_member(after[i as int].0@, after[i as int].1));
                        return Err(ConfigError::Shape);
                    },
                }
            } else if *name == patterns_key {
                match strings_of(member_value) {
                    Some(patterns) => {
                        config.allow_patterns = patterns;
                    },
                    None => {
                        assert(!configuration_member(after[i as int].0@, after[i as int].1));
                        return Err(ConfigError::Shape);
                    },
                }
            } else if *name == models_key {
                match member_value {
                    JsonValue::Bool(b) => {
                        config.allow_models = *b;
                    },
                    _ => {
                        assert(!configuration_member(after[i as int].0@, after[i as int].1));
                        return Err(ConfigError::Shape);
                    },
                }
            } else {
                assert(!configuration_member(after[i as int].0@, after[i as int].1));
                return Err(ConfigError::Shape);
            }
            assert(configuration_members(after)) by {
                assert forall|a: int, b: int| 0 <= a < b < after.len() implies after[a].0@
                    != after[b].0@ by {
                    if b < i {
                        assert(before[a] == after[a] && before[b] == after[b]);
                    }
                }
            }
        }
        assert(members@.take(n as int) =~= members@);
        Ok(config)
    }
}

} // verus!
