use vstd::prelude::*;

verus! {

#[verifier::external_type_specification]
#[verifier::external_body]
pub struct ExYamlValue(serde_yaml::Value);

/// The shape of a decoded YAML document, as far as this library reads one:
/// strings, booleans, sequences and mappings are distinguished; every other
/// value (null, numbers, tagged values) is never inspected and collapses
/// into `Other`. Mapping entries are keyed by their string keys, the only
/// keys this library looks up.
pub enum YamlTree {
    Str { s: Seq<char> },
    Bool { b: bool },
    Arr { elems: Seq<YamlTree> },
    Obj { entries: Map<Seq<char>, YamlTree> },
    Other,
}

/// The tree a YAML text decodes to, or `None` when the text is malformed.
/// Decoding is a function of the text alone.
pub uninterp spec fn yaml_tree_of(s: Seq<char>) -> Option<YamlTree>;

/// The tree a decoded YAML value holds.
pub uninterp spec fn yaml_view(v: serde_yaml::Value) -> YamlTree;

/// Relies on serde_yaml::from_str::<serde_yaml::Value>: parses a YAML
/// document into its generic value tree, succeeding exactly on well-formed
/// input, whose tree the returned value then holds.
#[verifier::external_body]
pub fn yaml_parse(s: &str) -> (r: Option<serde_yaml::Value>)
    ensures
        r is Some <==> yaml_tree_of(s@) is Some,
        r matches Some(v) ==> Some(yaml_view(v)) == yaml_tree_of(s@),
{
    serde_yaml::from_str::<serde_yaml::Value>(s).ok()
}

/// Relies on serde_yaml::Value::get: looks a string key up in a YAML
/// mapping; `None` exactly when the value is not a mapping or lacks the key.
#[verifier::external_body]
pub fn yaml_get<'a>(v: &'a serde_yaml::Value, key: &str) -> (r: Option<&'a serde_yaml::Value>)
    ensures
        (yaml_view(*v) matches YamlTree::Obj { entries } ==> {
            &&& r matches Some(w) ==> entries.contains_key(key@) && yaml_view(*w) == entries[key@]
            &&& r is None ==> !entries.contains_key(key@)
        }),
        !(yaml_view(*v) is Obj) ==> r is None,
{
    v.get(key)
}

/// Relies on serde_yaml::Value::as_str: the borrowed string exactly when
/// the value is a YAML string, `None` otherwise.
#[verifier::external_body]
pub fn yaml_as_str<'a>(v: &'a serde_yaml::Value) -> (r: Option<&'a str>)
    ensures
        (r matches Some(s) ==> yaml_view(*v) == (YamlTree::Str { s: s@ })),
        r is None ==> !(yaml_view(*v) is Str),
{
    v.as_str()
}

/// Relies on serde_yaml::Value::as_bool: the boolean exactly when the value
/// is a YAML boolean, `None` otherwise.
#[verifier::external_body]
pub fn yaml_as_bool(v: &serde_yaml::Value) -> (r: Option<bool>)
    ensures
        (r matches Some(b) ==> yaml_view(*v) == (YamlTree::Bool { b })),
        r is None ==> !(yaml_view(*v) is Bool),
{
    v.as_bool()
}

/// Relies on serde_yaml::Value::as_sequence: the borrowed element vector
/// exactly when the value is a YAML sequence, with the elements' trees in
/// order; `None` otherwise.
#[verifier::external_body]
pub fn yaml_as_sequence<'a>(v: &'a serde_yaml::Value) -> (r: Option<&'a Vec<serde_yaml::Value>>)
    ensures
        (r matches Some(a) ==> (yaml_view(*v) matches YamlTree::Arr { elems }
            && a@.len() == elems.len() && forall|i: int|
            0 <= i < elems.len() ==> yaml_view(#[trigger] a@[i]) == elems[i])),
        r is None ==> !(yaml_view(*v) is Arr),
{
    v.as_sequence()
}

} // verus!
