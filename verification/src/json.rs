//! A JSON value as the gateway's handshake delivers a configuration.

use vstd::prelude::*;

verus! {

/// A JSON document: the shape of a parsed value, with the contents that the
/// configuration reads. Numbers carry no payload: no configuration field
/// accepts one, so only their presence matters.
pub enum JsonValue {
    Null,
    Bool(bool),
    Number,
    String(String),
    Array(Vec<JsonValue>),
    /// The members of an object, in document order.
    Object(Vec<(String, JsonValue)>),
}

/// The value of the last member named `key`, if any.
pub open spec fn member(entries: Seq<(String, JsonValue)>, key: Seq<char>) -> Option<JsonValue>
    decreases entries.len(),
{
    if entries.len() == 0 {
        None
    } else if entries.last().0@ == key {
        Some(entries.last().1)
    } else {
        member(entries.drop_last(), key)
    }
}

/// No two members share a name.
pub open spec fn distinct_member_names(entries: Seq<(String, JsonValue)>) -> bool {
    forall|i: int, j: int| 0 <= i < j < entries.len() ==> entries[i].0@ != entries[j].0@
}

/// The value read as a boolean.
pub open spec fn json_bool(value: JsonValue) -> Option<bool> {
    match value {
        JsonValue::Bool(b) => Some(b),
        _ => None,
    }
}

/// The text of a JSON string; empty for any other value.
pub open spec fn json_text(value: JsonValue) -> Seq<char> {
    match value {
        JsonValue::String(s) => s@,
        _ => Seq::empty(),
    }
}

/// The value read as a list of strings.
pub open spec fn json_strings(value: JsonValue) -> Option<Seq<Seq<char>>> {
    match value {
        JsonValue::Array(items) => if forall|i: int|
            0 <= i < items@.len() ==> #[trigger] items@[i] is String {
            Some(items@.map_values(|item: JsonValue| json_text(item)))
        } else {
            None
        },
        _ => None,
    }
}

/// Reads a value as a list of strings.
pub fn strings_of(value: &JsonValue) -> (strings: Option<Vec<String>>)
    ensures
        match strings {
            Some(v) => json_strings(*value) == Some(v@.map_values(|s: String| s@)),
            None => json_strings(*value) is None,
        },
{
    match value {
        JsonValue::Array(items) => {
            let mut out: Vec<String> = Vec::new();
            for i in 0..items.len()
                invariant
                    *value == JsonValue::Array(*items),
                    out@.len() == i,
                    forall|j: int| 0 <= j < i ==> #[trigger] items@[j] is String,
                    forall|j: int| 0 <= j < i ==> out@[j]@ == json_text(#[trigger] items@[j]),
            {
                match &items[i] {
                    JsonValue::String(s) => {
                        out.push(s.clone());
                    },
                    _ => {
                        assert(!(items@[i as int] is String));
                        return None;
                    },
                }
            }
            assert(out@.map_values(|s: String| s@) =~= items@.map_values(
                |item: JsonValue| json_text(item),
            ));
            Some(out)
        },
        _ => None,
    }
}

} // verus!
