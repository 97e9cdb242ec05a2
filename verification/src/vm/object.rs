//! String-keyed maps of values, kept in a `hashbrown` hash map.

use vstd::prelude::*;
use crate::vm::value::{Value, ValueView};

verus! {

/// A map from names to values: the fields of an object, or the variables of
/// a runtime context.
#[verifier::external_body]
#[derive(Debug, PartialEq)]
pub struct ValueMap {
    inner: hashbrown::HashMap<String, Value>,
}

/// The entries that a map holds, each value by its view.
pub uninterp spec fn map_entries(m: ValueMap) -> Map<Seq<char>, ValueView>;

/// The map with no entries.
pub open spec fn no_entries() -> Map<Seq<char>, ValueView> {
    Map::empty()
}

impl View for ValueMap {
    type V = Map<Seq<char>, ValueView>;

    open spec fn view(&self) -> Map<Seq<char>, ValueView> {
        map_entries(*self)
    }
}

/// `hashbrown::HashMap::new`: a map with no entries.
#[verifier::external_body]
fn hash_new() -> (r: ValueMap)
    ensures
        map_entries(r) == no_entries(),
{
    ValueMap { inner: hashbrown::HashMap::new() }
}

/// `hashbrown::HashMap::insert`: the map holds `value` under `key`
/// afterwards, and its other entries are unchanged.
#[verifier::external_body]
fn hash_insert(map: &mut ValueMap, key: String, value: Value)
    ensures
        map_entries(*final(map)) == map_entries(*old(map)).insert(key@, value@),
{
    map.inner.insert(key, value);
}

/// `hashbrown::HashMap::get`: the value under `key`, if the map holds one.
#[verifier::external_body]
fn hash_get<'a>(map: &'a ValueMap, key: &str) -> (r: Option<&'a Value>)
    ensures
        r matches Some(v) ==> map_entries(*map).contains_key(key@) && v@ == map_entries(*map)[key@],
        r is None ==> !map_entries(*map).contains_key(key@),
{
    map.inner.get(key)
}

/// `hashbrown::HashMap::contains_key`: whether the map holds `key`.
#[verifier::external_body]
fn hash_contains_key(map: &ValueMap, key: &str) -> (r: bool)
    ensures
        r == map_entries(*map).contains_key(key@),
{
    map.inner.contains_key(key)
}

/// `Clone::clone` of `hashbrown::HashMap`: a map with the same entries.
#[verifier::external_body]
fn hash_clone(map: &ValueMap) -> (r: ValueMap)
    ensures
        map_entries(r) == map_entries(*map),
{
    ValueMap { inner: map.inner.clone() }
}

impl ValueMap {
    /// A map with no entries.
    pub fn new() -> (r: ValueMap)
        ensures
            r@ == no_entries(),
    {
        hash_new()
    }

    /// Puts `value` under `key`, in the place of what stood there.
    pub fn insert(&mut self, key: String, value: Value)
        ensures
            final(self)@ == old(self)@.insert(key@, value@),
    {
        hash_insert(self, key, value)
    }

    /// The value under `key`, if there is one.
    pub fn get(&self, key: &str) -> (r: Option<&Value>)
        ensures
            r matches Some(v) ==> self@.contains_key(key@) && v@ == self@[key@],
            r is None ==> !self@.contains_key(key@),
    {
        hash_get(self, key)
    }

    /// Whether there is a value under `key`.
    pub fn contains_key(&self, key: &str) -> (r: bool)
        ensures
            r == self@.contains_key(key@),
    {
        hash_contains_key(self, key)
    }
}

impl Clone for ValueMap {
    fn clone(&self) -> (r: ValueMap)
        ensures
            r@ == self@,
    {
        hash_clone(self)
    }
}

} // verus!
