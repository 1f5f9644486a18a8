//! YAML documents as trees.

use vstd::prelude::*;

verus! {

/// A YAML value.
#[derive(Debug)]
pub enum Yaml {
    /// Nothing.
    Null,
    /// A boolean.
    Bool(bool),
    /// A number: its text, and its value if it is a natural number.
    Number(String, Option<u64>),
    /// A text.
    Text(String),
    /// A list of values.
    Sequence(Vec<Yaml>),
    /// A list of keys and values. No key occurs twice.
    Mapping(Vec<(Yaml, Yaml)>),
    /// A value with a tag. The tag has its leading mark.
    Tagged(String, Box<Yaml>),
}

/// The value of the single YAML document that bytes hold, or the description of what is wrong, as
/// `serde_yaml::from_slice` gives it.
pub uninterp spec fn yaml_document(bytes: Seq<u8>) -> Result<Yaml, String>;

/// Parses one YAML document with `serde_yaml::from_slice`. The result depends on the bytes alone.
#[verifier::external_body]
pub(crate) fn parse_yaml(bytes: &[u8]) -> (result: Result<Yaml, String>)
    ensures
        result == yaml_document(bytes@),
{
    serde_yaml::from_slice::<serde_yaml::Value>(bytes).map(yaml_tree).map_err(
        |error| error.to_string(),
    )
}

/// Converts a `serde_yaml::Value` variant by variant. Nothing is claimed of it.
#[verifier::external_body]
fn yaml_tree(value: serde_yaml::Value) -> (result: Yaml) {
    match value {
        serde_yaml::Value::Null => Yaml::Null,
        serde_yaml::Value::Bool(flag) => Yaml::Bool(flag),
        serde_yaml::Value::Number(number) => Yaml::Number(number.to_string(), number.as_u64()),
        serde_yaml::Value::String(text) => Yaml::Text(text),
        serde_yaml::Value::Sequence(items) =>
            Yaml::Sequence(items.into_iter().map(yaml_tree).collect()),
        serde_yaml::Value::Mapping(entries) => Yaml::Mapping(
            entries.into_iter().map(|(key, value)| (yaml_tree(key), yaml_tree(value))).collect(),
        ),
        serde_yaml::Value::Tagged(tagged) =>
            Yaml::Tagged(tagged.tag.to_string(), Box::new(yaml_tree(tagged.value))),
    }
}

/// An opaque value of `serde_yaml`.
#[verifier::external_type_specification]
#[verifier::external_body]
pub struct ExYamlValue(serde_yaml::Value);

/// A key is a given text.
pub open spec fn is_key(key: Yaml, name: Seq<char>) -> bool {
    key matches Yaml::Text(text) && text@ == name
}

/// A value without its tags.
pub open spec fn untagged(value: Yaml) -> Yaml
    decreases value,
{
    match value {
        Yaml::Tagged(_, content) => untagged(*content),
        _ => value,
    }
}

/// The index of the first entry with a textual key, or the length if there is none.
pub open spec fn entry_index(entries: Seq<(Yaml, Yaml)>, name: Seq<char>) -> int
    decreases entries.len(),
{
    if entries.len() == 0 || is_key(entries[0].0, name) {
        0
    } else {
        1 + entry_index(entries.skip(1), name)
    }
}

/// The value of a textual key.
pub open spec fn lookup(entries: Seq<(Yaml, Yaml)>, name: Seq<char>) -> Option<Yaml> {
    let index = entry_index(entries, name);
    if index < entries.len() {
        Some(entries[index].1)
    } else {
        None
    }
}

/// The first entry with a key is where the other keys end.
pub proof fn entry_index_is(entries: Seq<(Yaml, Yaml)>, name: Seq<char>, index: int)
    requires
        0 <= index <= entries.len(),
        forall|i: int| 0 <= i < index ==> !is_key((#[trigger] entries[i]).0, name),
        index < entries.len() ==> is_key(entries[index].0, name),
    ensures
        entry_index(entries, name) == index,
    decreases entries.len(),
{
    if index > 0 {
        assert(!is_key(entries[0].0, name));
        let tail = entries.skip(1);
        assert forall|i: int| 0 <= i < index - 1 implies !is_key((#[trigger] tail[i]).0, name) by {
            assert(tail[i] == entries[i + 1]);
        }
        entry_index_is(tail, name, index - 1);
    }
}

/// Tells whether a key is a given text.
pub fn has_name(key: &Yaml, name: &str) -> (result: bool)
    ensures
        result == is_key(*key, name@),
{
    match key {
        Yaml::Text(text) => crate::text::same_text(text.as_str(), name),
        _ => false,
    }
}

/// Tells whether a key is a given text once its tags are taken away.
pub fn has_untagged_name(key: &Yaml, name: &str) -> (result: bool)
    ensures
        result == is_key(untagged(*key), name@),
    decreases *key,
{
    match key {
        Yaml::Tagged(_, content) => has_untagged_name(content, name),
        key => has_name(key, name),
    }
}

/// Finds the value of a textual key.
pub fn find<'a>(entries: &'a Vec<(Yaml, Yaml)>, name: &str) -> (result: Option<&'a Yaml>)
    ensures
        match (result, lookup(entries@, name@)) {
            (Some(value), Some(expected)) => *value == expected,
            (None, None) => true,
            _ => false,
        },
{
    let mut index: usize = 0;
    while index < entries.len() && !has_name(&entries[index].0, name)
        invariant
            index <= entries@.len(),
            forall|i: int| 0 <= i < index ==> !is_key((#[trigger] entries@[i]).0, name@),
        decreases entries.len() - index,
    {
        index += 1;
    }
    proof {
        entry_index_is(entries@, name@, index as int);
    }
    if index < entries.len() {
        Some(&entries[index].1)
    } else {
        None
    }
}

} // verus!
