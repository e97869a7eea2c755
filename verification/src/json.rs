//! Reading the members of a JSON object with `serde_json`.
use vstd::prelude::*;

verus! {

/// What `serde_json` reads from `text` under the top-level key `key`:
/// `None` where `text` is no JSON document; `Some(None)` where the document
/// has no value under `key`, or one that is no object; else the members of
/// that object (each key, with its value where that value is a string).
pub uninterp spec fn json_object_members(text: Seq<char>, key: Seq<char>) -> Option<
    Option<Seq<(Seq<char>, Option<Seq<char>>)>>,
>;

/// `serde_json::from_str` into a `serde_json::Value`, then `Value::get(key)`
/// and, for an object, its entries with `Value::as_str` of each value. Parse
/// errors come back as `None`; serde_json returns them rather than panicking.
/// The contract only names the result: the JSON grammar and the order of the
/// members (serde_json's map keeps them sorted by key) are not restated.
#[verifier::external_body]
pub(crate) fn object_members(text: &str, key: &str) -> (r: Option<Option<Vec<(String, Option<String>)>>>)
    ensures
        match r {
            None => json_object_members(text@, key@) is None,
            Some(None) => json_object_members(text@, key@) == Some(
                None::<Seq<(Seq<char>, Option<Seq<char>>)>>,
            ),
            Some(Some(v)) => json_object_members(text@, key@) == Some(Some(v.deep_view())),
        },
{
    let value: serde_json::Value = serde_json::from_str(text).ok()?;
    match value.get(key) {
        Some(serde_json::Value::Object(map)) => Some(Some(
            map.iter().map(|(k, v)| (k.clone(), v.as_str().map(|s| s.to_string()))).collect(),
        )),
        _ => Some(None),
    }
}

/// The members of an object, or none where the key held no object.
pub open spec fn members_or_empty(m: Option<Seq<(Seq<char>, Option<Seq<char>>)>>) -> Seq<
    (Seq<char>, Option<Seq<char>>),
> {
    match m {
        Some(v) => v,
        None => seq![],
    }
}

/// The members of an object, or none where the key held no object.
pub fn members_or_empty_exec(m: Option<Vec<(String, Option<String>)>>) -> (r: Vec<(String, Option<String>)>)
    ensures
        r.deep_view() == members_or_empty(m.deep_view()),
{
    match m {
        Some(v) => v,
        None => {
            let r: Vec<(String, Option<String>)> = Vec::new();
            assert(r.deep_view() =~= Seq::<(Seq<char>, Option<Seq<char>>)>::empty());
            r
        },
    }
}

} // verus!
