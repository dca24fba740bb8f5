//! JSON text of the settings file and of proxied response bodies, through
//! serde_json.
use vstd::prelude::*;
use crate::settings::{pairs_map, ScalarView, SettingValue};

verus! {

#[verifier::external_type_specification]
#[verifier::external_body]
pub struct ExJsonNumber(serde_json::Number);

/// The JSON object text that serde_json writes for a list of entries.
pub uninterp spec fn settings_json(entries: Seq<(Seq<char>, ScalarView)>) -> Seq<char>;

/// The entries that serde_json reads from a text holding a JSON object of
/// scalar values, or `None` where the text is no such object.
pub uninterp spec fn settings_from_json(text: Seq<char>) -> Option<Seq<(Seq<char>, ScalarView)>>;

/// Whether serde_json accepts the text as a JSON document.
pub uninterp spec fn json_accepts(text: Seq<char>) -> bool;

/// The entries as plain values.
pub open spec fn pairs_view(s: Seq<(String, SettingValue)>) -> Seq<(Seq<char>, ScalarView)> {
    s.map_values(|p: (String, SettingValue)| (p.0@, p.1@))
}

/// Relies on serde_json::to_string over a serde_json::Map of scalar values.
/// The text is a function of the entries alone. It is always written: string
/// keys and scalar values never make serialization fail. Reading it back
/// gives each key its last value, floats included (`float_roundtrip`).
#[verifier::external_body]
pub(crate) fn entries_to_json(entries: &Vec<(String, SettingValue)>) -> (r: Option<String>)
    ensures
        r is Some,
        r->Some_0@ == settings_json(pairs_view(entries@)),
        settings_from_json(r->Some_0@) is Some,
        pairs_map(settings_from_json(r->Some_0@)->Some_0) == pairs_map(pairs_view(entries@)),
{
    let mut object = serde_json::Map::new();
    for (k, v) in entries {
        let value = match v {
            SettingValue::Text(t) => serde_json::Value::String(t.clone()),
            SettingValue::Number(n) => serde_json::Value::Number(n.clone()),
            SettingValue::Bool(b) => serde_json::Value::Bool(*b),
            SettingValue::Null => serde_json::Value::Null,
        };
        object.insert(k.clone(), value);
    }
    serde_json::to_string(&object).ok()
}

/// Relies on serde_json::from_str into a BTreeMap of serde_json::Value: whether
/// the text is an object of scalars, and the entries read, are functions of
/// the text alone.
#[verifier::external_body]
pub(crate) fn entries_from_json(text: &str) -> (r: Option<Vec<(String, SettingValue)>>)
    ensures
        r is None <==> settings_from_json(text@) is None,
        r is Some ==> settings_from_json(text@) == Some(pairs_view(r->Some_0@)),
{
    let map = match serde_json::from_str::<std::collections::BTreeMap<String, serde_json::Value>>(text) {
        Ok(m) => m,
        Err(_) => return None,
    };
    let mut out = Vec::new();
    for (k, v) in map {
        out.push((k, match v {
            serde_json::Value::String(s) => SettingValue::Text(s),
            serde_json::Value::Number(n) => SettingValue::Number(n),
            serde_json::Value::Bool(b) => SettingValue::Bool(b),
            serde_json::Value::Null => SettingValue::Null,
            serde_json::Value::Array(_) | serde_json::Value::Object(_) => return None,
        }));
    }
    Some(out)
}

/// Relies on serde_json::from_str into a serde_json::Value: whether the text
/// parses depends on the text alone; the message is serde_json's.
#[verifier::external_body]
pub(crate) fn json_problem(text: &str) -> (r: Option<String>)
    ensures
        r is None <==> json_accepts(text@),
{
    serde_json::from_str::<serde_json::Value>(text).err().map(|e| e.to_string())
}

} // verus!
