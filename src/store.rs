//! The shared key-value store, held in a `dashmap::DashMap`.

use dashmap::DashMap;
use vstd::prelude::*;

verus! {

#[verifier::external_type_specification]
#[verifier::external_body]
#[verifier::reject_recursive_types(K)]
#[verifier::reject_recursive_types(V)]
#[verifier::reject_recursive_types(S)]
pub struct ExDashMap<K, V, S>(DashMap<K, V, S>);

/// Key-value entries, as text.
pub type Entries = Map<Seq<char>, Seq<char>>;

/// The entries of a map, keyed and valued by the text of its strings.
pub uninterp spec fn entries_of(m: DashMap<String, String>) -> Entries;

/// Relies on `DashMap::new`: a new map holds no entry.
#[verifier::external_body]
fn map_new() -> (r: DashMap<String, String>)
    ensures
        entries_of(r) == Entries::empty(),
{
    DashMap::new()
}

/// Relies on `DashMap::insert`: the key then maps to the value, and every
/// other entry stays as it was.
#[verifier::external_body]
fn map_insert(m: &mut DashMap<String, String>, key: String, value: String)
    ensures
        entries_of(*final(m)) == entries_of(*old(m)).insert(key@, value@),
{
    m.insert(key, value);
}

/// Relies on `DashMap::get`: the value stored under the key, if there is one.
#[verifier::external_body]
fn map_get(m: &DashMap<String, String>, key: &str) -> (r: Option<String>)
    ensures
        r is None <==> !entries_of(*m).contains_key(key@),
        r matches Some(v) ==> entries_of(*m)[key@] == v@,
{
    m.get(key).map(|entry| entry.value().clone())
}

/// A mapping from keys to values, safe to share between threads.
///
/// Writes take `&mut self`, so the entries change only through the owner.
pub struct Store {
    map: DashMap<String, String>,
}

impl View for Store {
    type V = Entries;

    closed spec fn view(&self) -> Entries {
        entries_of(self.map)
    }
}

impl Store {
    /// An empty store.
    pub fn new() -> (r: Self)
        ensures
            r@ == Entries::empty(),
    {
        Store { map: map_new() }
    }

    /// Inserts the entry, or replaces the value of an existing key.
    pub fn set(&mut self, key: String, value: String)
        ensures
            final(self)@ == old(self)@.insert(key@, value@),
    {
        map_insert(&mut self.map, key, value);
    }

    /// The value stored under `key`, if any.
    pub fn get(&self, key: &str) -> (r: Option<String>)
        ensures
            r is None <==> !self@.contains_key(key@),
            r matches Some(v) ==> self@[key@] == v@,
    {
        map_get(&self.map, key)
    }
}

} // verus!
