//! YAML documents as mathematical values, and the calls into `serde_yaml_ng`
//! that read and change them.
//!
//! `serde_yaml_ng::Value` and `serde_yaml_ng::Mapping` are opaque to the
//! verifier. What such a value holds is described by [`Yaml`], through the two
//! names [`value_holds`] and [`mapping_holds`].

use serde_yaml_ng::{Mapping, Value};
use vstd::prelude::*;

verus! {

/// What a YAML value holds. A number stands for itself by the text that it is
/// written as; nothing here reads or makes one.
pub enum Yaml {
    Null,
    Bool(bool),
    Number(Seq<char>),
    String(Seq<char>),
    Sequence(Seq<Yaml>),
    Mapping(Seq<(Yaml, Yaml)>),
    Tagged(Seq<char>, Box<Yaml>),
}

/// The value inside all tags: `!a !b 1` holds what `1` holds.
pub open spec fn untagged(value: Yaml) -> Yaml
    decreases value,
{
    match value {
        Yaml::Tagged(_, inner) => untagged(*inner),
        _ => value,
    }
}

/// The position of the entry with the given key, or the number of entries if
/// there is none.
pub open spec fn slot(entries: Seq<(Yaml, Yaml)>, key: Yaml) -> int
    decreases entries.len(),
{
    if entries.len() == 0 || entries[0].0 == key {
        0
    } else {
        1 + slot(entries.drop_first(), key)
    }
}

/// Whether some entry has the given key.
pub open spec fn has(entries: Seq<(Yaml, Yaml)>, key: Yaml) -> bool {
    slot(entries, key) < entries.len()
}

/// The value stored under the given key.
pub open spec fn lookup(entries: Seq<(Yaml, Yaml)>, key: Yaml) -> Option<Yaml> {
    if has(entries, key) {
        Some(entries[slot(entries, key)].1)
    } else {
        None
    }
}

/// The entries after `value` is stored under `key`: a key that is there keeps
/// its place, a new one goes to the end.
pub open spec fn put(entries: Seq<(Yaml, Yaml)>, key: Yaml, value: Yaml) -> Seq<(Yaml, Yaml)> {
    if has(entries, key) {
        entries.update(slot(entries, key), (key, value))
    } else {
        entries.push((key, value))
    }
}

/// `slot` is the first position that has the key.
pub proof fn lemma_slot(entries: Seq<(Yaml, Yaml)>, key: Yaml)
    ensures
        0 <= slot(entries, key) <= entries.len(),
        has(entries, key) ==> entries[slot(entries, key)].0 == key,
        forall|i: int| 0 <= i < slot(entries, key) ==> (#[trigger] entries[i]).0 != key,
    decreases entries.len(),
{
    if entries.len() > 0 && entries[0].0 != key {
        let rest = entries.drop_first();
        lemma_slot(rest, key);
        assert forall|i: int| 0 <= i < slot(entries, key) implies (#[trigger] entries[i]).0
            != key by {
            if i > 0 {
                assert(entries[i] == rest[i - 1]);
            }
        }
    }
}

/// A position that has the key, with none before it that does, is `slot`.
pub proof fn lemma_slot_is(entries: Seq<(Yaml, Yaml)>, key: Yaml, at: int)
    requires
        0 <= at <= entries.len(),
        at < entries.len() ==> entries[at].0 == key,
        forall|i: int| 0 <= i < at ==> (#[trigger] entries[i]).0 != key,
    ensures
        slot(entries, key) == at,
{
    lemma_slot(entries, key);
}

/// What is stored under a key is what a lookup of that key gives back, and no
/// other key sees a change.
pub proof fn law_put_then_lookup(entries: Seq<(Yaml, Yaml)>, key: Yaml, value: Yaml, other: Yaml)
    ensures
        lookup(put(entries, key, value), key) == Some(value),
        other != key ==> lookup(put(entries, key, value), other) == lookup(entries, other),
{
    let after = put(entries, key, value);
    lemma_slot(entries, key);
    lemma_slot(entries, other);
    lemma_slot_is(after, key, slot(entries, key));
    if other != key {
        let at = if has(entries, other) {
            slot(entries, other)
        } else {
            after.len() as int
        };
        lemma_slot_is(after, other, at);
    }
}

/// Of two stores under one key the later one counts: the first leaves no trace.
pub proof fn law_put_twice(entries: Seq<(Yaml, Yaml)>, key: Yaml, first: Yaml, second: Yaml)
    ensures
        put(put(entries, key, first), key, second) == put(entries, key, second),
{
    lemma_slot(entries, key);
    lemma_slot_is(put(entries, key, first), key, slot(entries, key));
    assert(put(put(entries, key, first), key, second) =~= put(entries, key, second));
}

/// Storing the value that is already there changes nothing.
pub proof fn law_put_same(entries: Seq<(Yaml, Yaml)>, key: Yaml)
    requires
        has(entries, key),
    ensures
        put(entries, key, lookup(entries, key)->0) == entries,
{
    lemma_slot(entries, key);
    assert(put(entries, key, lookup(entries, key)->0) =~= entries);
}

/// A lookup gives the value of the first entry with the key, and nothing exactly
/// if no entry has it.
pub proof fn law_lookup(entries: Seq<(Yaml, Yaml)>, key: Yaml, value: Yaml)
    ensures
        lookup(entries, key) == Some(value) <==> exists|i: int|
            0 <= i < entries.len() && #[trigger] entries[i] == (key, value) && (forall|j: int|
                0 <= j < i ==> (#[trigger] entries[j]).0 != key),
        lookup(entries, key) is None <==> forall|i: int|
            0 <= i < entries.len() ==> (#[trigger] entries[i]).0 != key,
        has(entries, key) <==> exists|i: int|
            0 <= i < entries.len() && (#[trigger] entries[i]).0 == key,
{
    lemma_slot(entries, key);
    let at = slot(entries, key);
    if has(entries, key) {
        assert(entries[at] == (key, entries[at].1));
    }
    if exists|i: int|
        0 <= i < entries.len() && #[trigger] entries[i] == (key, value) && (forall|j: int|
            0 <= j < i ==> (#[trigger] entries[j]).0 != key) {
        let i = choose|i: int|
            0 <= i < entries.len() && #[trigger] entries[i] == (key, value) && (forall|j: int|
                0 <= j < i ==> (#[trigger] entries[j]).0 != key);
        lemma_slot_is(entries, key, i);
    }
}

/// A store puts a new key at the end, and a key that is there in its first
/// place; no other entry is touched.
pub proof fn law_put(entries: Seq<(Yaml, Yaml)>, key: Yaml, value: Yaml)
    ensures
        (forall|i: int| 0 <= i < entries.len() ==> (#[trigger] entries[i]).0 != key) ==> put(
            entries,
            key,
            value,
        ) == entries.push((key, value)),
        forall|i: int|
            0 <= i < entries.len() && (#[trigger] entries[i]).0 == key && (forall|j: int|
                0 <= j < i ==> (#[trigger] entries[j]).0 != key) ==> put(entries, key, value)
                == entries.update(i, (key, value)),
{
    lemma_slot(entries, key);
    assert forall|i: int|
        0 <= i < entries.len() && (#[trigger] entries[i]).0 == key && (forall|j: int|
            0 <= j < i ==> (#[trigger] entries[j]).0 != key) implies put(entries, key, value)
        == entries.update(i, (key, value)) by {
        lemma_slot_is(entries, key, i);
    }
}

/// Taking a tag off changes nothing of what is inside all tags, a value without
/// a tag is inside already, and what is inside has no tag.
pub proof fn law_untagged(value: Yaml, tag: Seq<char>)
    ensures
        untagged(Yaml::Tagged(tag, Box::new(value))) == untagged(value),
        !(value is Tagged) ==> untagged(value) == value,
        !(untagged(value) is Tagged),
    decreases value,
{
    match value {
        Yaml::Tagged(inner_tag, inner) => {
            law_untagged(*inner, inner_tag);
        },
        _ => {},
    }
    assert(untagged(Yaml::Tagged(tag, Box::new(value))) == untagged(value)) by {
        reveal_with_fuel(untagged, 2);
    }
}

/// `serde_yaml_ng::Value`, any YAML value.
#[verifier::external_type_specification]
#[verifier::external_body]
pub struct ExValue(serde_yaml_ng::Value);

/// `serde_yaml_ng::Mapping`, a YAML mapping that keeps the order of insertion.
#[verifier::external_type_specification]
#[verifier::external_body]
pub struct ExMapping(serde_yaml_ng::Mapping);

/// What a `serde_yaml_ng::Value` holds.
pub uninterp spec fn value_holds(value: serde_yaml_ng::Value) -> Yaml;

/// The entries of a `serde_yaml_ng::Mapping`, in their order.
pub uninterp spec fn mapping_holds(mapping: serde_yaml_ng::Mapping) -> Seq<(Yaml, Yaml)>;

/// `Value::as_mapping` gives the mapping that the value holds inside all tags,
/// and `None` exactly for a value that holds something else there.
pub assume_specification[ serde_yaml_ng::Value::as_mapping ](value: &Value) -> (found: Option<
    &Mapping,
>)
    ensures
        match found {
            Some(mapping) => untagged(value_holds(*value)) == Yaml::Mapping(
                mapping_holds(*mapping),
            ),
            None => !(untagged(value_holds(*value)) is Mapping),
        },
;

/// `Value::as_str` gives the text of a string inside all tags, and `None`
/// exactly for a value that holds something else there.
pub assume_specification[ serde_yaml_ng::Value::as_str ](value: &Value) -> (found: Option<&str>)
    ensures
        match found {
            Some(text) => untagged(value_holds(*value)) == Yaml::String(text@),
            None => !(untagged(value_holds(*value)) is String),
        },
;

/// `Mapping::default` is the mapping without entries.
pub assume_specification[ <serde_yaml_ng::Mapping as core::default::Default>::default ]() -> (mapping:
    Mapping)
    ensures
        mapping_holds(mapping) == Seq::<(Yaml, Yaml)>::empty(),
;

/// `Mapping::clone` holds the same entries in the same order.
pub assume_specification[ <serde_yaml_ng::Mapping as Clone>::clone ](mapping: &Mapping) -> (copy:
    Mapping)
    ensures
        mapping_holds(copy) == mapping_holds(*mapping),
;

/// `Mapping::insert` stores the value under the key: in place if the mapping
/// has the key, at the end if not. It hands back the value that was replaced.
///
/// Only for string keys: those are the same key exactly if they are the same
/// text, which is not so of every YAML value (`0.0` and `-0.0` are one key).
pub assume_specification[ serde_yaml_ng::Mapping::insert ](
    mapping: &mut Mapping,
    k: Value,
    v: Value,
) -> (replaced: Option<Value>)
    requires
        value_holds(k) is String,
    ensures
        mapping_holds(*final(mapping)) == put(
            mapping_holds(*old(mapping)),
            value_holds(k),
            value_holds(v),
        ),
        match replaced {
            Some(value) => lookup(mapping_holds(*old(mapping)), value_holds(k)) == Some(
                value_holds(value),
            ),
            None => lookup(mapping_holds(*old(mapping)), value_holds(k)) is None,
        },
;

/// `Mapping::get` with a string key, given as a `Value`: the value stored under
/// that text, if any.
#[verifier::external_body]
pub(crate) fn get<'a>(mapping: &'a Mapping, key: &Value) -> (found: Option<&'a Value>)
    requires
        value_holds(*key) is String,
    ensures
        match found {
            Some(value) => lookup(mapping_holds(*mapping), value_holds(*key)) == Some(
                value_holds(*value),
            ),
            None => lookup(mapping_holds(*mapping), value_holds(*key)) is None,
        },
{
    mapping.get(key)
}

/// `Mapping::contains_key` with a string key, given as a `Value`: whether
/// something is stored under that text.
#[verifier::external_body]
pub(crate) fn contains_key(mapping: &Mapping, key: Value) -> (found: bool)
    requires
        value_holds(key) is String,
    ensures
        found == has(mapping_holds(*mapping), value_holds(key)),
{
    mapping.contains_key(key)
}

/// `Value::from(&str)` is the YAML string with that text.
#[verifier::external_body]
pub(crate) fn text_value(text: &str) -> (value: Value)
    ensures
        value_holds(value) == Yaml::String(text@),
{
    Value::from(text)
}

/// `Value::from(bool)` is that YAML boolean.
#[verifier::external_body]
pub(crate) fn bool_value(flag: bool) -> (value: Value)
    ensures
        value_holds(value) == Yaml::Bool(flag),
{
    Value::from(flag)
}

/// `Value::from(Mapping)` is the YAML mapping with those entries.
#[verifier::external_body]
pub(crate) fn mapping_value(mapping: Mapping) -> (value: Value)
    ensures
        value_holds(value) == Yaml::Mapping(mapping_holds(mapping)),
{
    Value::from(mapping)
}

} // verus!
