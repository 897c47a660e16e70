use vstd::prelude::*;

verus! {

#[verifier::external_type_specification]
#[verifier::external_body]
pub struct ExJsonValue(serde_json::Value);

/// The shape of a decoded JSON document, as far as this library reads one:
/// strings, arrays and objects are distinguished; every other value (null,
/// booleans, numbers) is never inspected and collapses into `Other`. Object
/// entries are keyed by their (string) keys.
pub enum JsonTree {
    Str { s: Seq<char> },
    Arr { elems: Seq<JsonTree> },
    Obj { entries: Map<Seq<char>, JsonTree> },
    Other,
}

/// The tree a JSON text decodes to, or `None` when the text is malformed.
/// Decoding is a function of the text alone.
pub uninterp spec fn json_tree_of(s: Seq<char>) -> Option<JsonTree>;

/// The tree a decoded JSON value holds.
pub uninterp spec fn json_view(v: serde_json::Value) -> JsonTree;

/// Relies on serde_json::from_str::<serde_json::Value>: parses a JSON
/// document into its generic value tree, succeeding exactly on well-formed
/// input, whose tree the returned value then holds.
#[verifier::external_body]
pub fn json_parse(s: &str) -> (r: Option<serde_json::Value>)
    ensures
        r is Some <==> json_tree_of(s@) is Some,
        r matches Some(v) ==> Some(json_view(v)) == json_tree_of(s@),
{
    serde_json::from_str::<serde_json::Value>(s).ok()
}

/// Relies on serde_json::Value::get: looks a key up in a JSON object;
/// `None` exactly when the value is not an object or lacks the key.
#[verifier::external_body]
pub fn json_get<'a>(v: &'a serde_json::Value, key: &str) -> (r: Option<&'a serde_json::Value>)
    ensures
        (json_view(*v) matches JsonTree::Obj { entries } ==> {
            &&& r matches Some(w) ==> entries.contains_key(key@) && json_view(*w) == entries[key@]
            &&& r is None ==> !entries.contains_key(key@)
        }),
        !(json_view(*v) is Obj) ==> r is None,
{
    v.get(key)
}

/// Relies on serde_json::Value::as_str: the borrowed string exactly when
/// the value is a JSON string, `None` otherwise.
#[verifier::external_body]
pub fn json_as_str<'a>(v: &'a serde_json::Value) -> (r: Option<&'a str>)
    ensures
        (r matches Some(s) ==> json_view(*v) == (JsonTree::Str { s: s@ })),
        r is None ==> !(json_view(*v) is Str),
{
    v.as_str()
}

/// Relies on serde_json::Value::as_array: the borrowed element vector
/// exactly when the value is a JSON array, with the elements' trees in
/// order; `None` otherwise.
#[verifier::external_body]
pub fn json_as_array<'a>(v: &'a serde_json::Value) -> (r: Option<&'a Vec<serde_json::Value>>)
    ensures
        (r matches Some(a) ==> (json_view(*v) matches JsonTree::Arr { elems }
            && a@.len() == elems.len() && forall|i: int|
            0 <= i < elems.len() ==> json_view(#[trigger] a@[i]) == elems[i])),
        r is None ==> !(json_view(*v) is Arr),
{
    v.as_array()
}

} // verus!
