use vstd::prelude::*;

use crate::params::{map_of, ParamMap};

verus! {

/// What serde_json makes of a flat string-to-string mapping: the text
/// of the JSON object, keys in sorted order.
pub uninterp spec fn json_of(parameters: Map<Seq<char>, Seq<char>>) -> Seq<char>;

/// Relies on the Display form of serde_json::Value on an Object holding
/// the entries; serde_json's default map is ordered by key, so the text
/// is a function of the mapping alone.
#[verifier::external_body]
fn json_render(pairs: &Vec<(String, String)>) -> (r: String)
    ensures
        r@ == json_of(map_of(pairs@)),
{
    let mut m = serde_json::Map::new();
    for (k, v) in pairs.iter() {
        m.insert(k.clone(), serde_json::Value::String(v.clone()));
    }
    serde_json::Value::Object(m).to_string()
}

/// The parameters of a task as the JSON object that is uploaded beside
/// a file-based script.
pub fn params_json(parameters: &ParamMap) -> (r: String)
    ensures
        r@ == json_of(parameters@),
{
    json_render(parameters.entries())
}

} // verus!
