//! The in-memory key-value store that the runtime offers to components as
//! the `exorun:host/kv` interface: `get` reads the text stored under a key,
//! `set` stores one.

use vstd::prelude::*;
use crate::name_map::NameMap;

verus! {

/// Key-value store host component: a mapping from texts to texts.
///
/// The store is owned by its holder and changed through `&mut`. Sharing one
/// store between the host functions linked into a component (and clones of
/// the component handle) is the business of the code that links it into
/// the component runtime, which is not part of this library.
pub struct Kv {
    store: NameMap<String>,
}

impl View for Kv {
    type V = Map<Seq<char>, Seq<char>>;

    closed spec fn view(&self) -> Map<Seq<char>, Seq<char>> {
        self.store@
    }
}

impl Kv {
    /// The store's internal consistency.
    pub closed spec fn wf(&self) -> bool {
        self.store.wf()
    }

    /// Creates a new empty key-value store.
    pub fn new() -> (kv: Self)
        ensures
            kv.wf(),
            kv@ == Map::<Seq<char>, Seq<char>>::empty(),
    {
        Kv { store: NameMap::new() }
    }

    /// Returns a snapshot of all key-value pairs in the store.
    pub fn get_store(&self) -> (m: NameMap<String>)
        requires
            self.wf(),
        ensures
            m.wf(),
            m@ == self@,
    {
        self.store.snapshot()
    }

    /// The `get` function of the interface: the value stored under `key`,
    /// if any.
    pub fn get(&self, key: &str) -> (r: Option<String>)
        requires
            self.wf(),
        ensures
            r is Some <==> self@.contains_key(key@),
            r matches Some(v) ==> v@ == self@[key@],
    {
        match self.store.get(key) {
            Some(v) => Some(v.clone()),
            None => None,
        }
    }

    /// The `set` function of the interface: stores `val` under `key`,
    /// replacing what was stored there.
    pub fn set(&mut self, key: String, val: String)
        requires
            old(self).wf(),
        ensures
            final(self).wf(),
            final(self)@ == old(self)@.insert(key@, val@),
    {
        self.store.insert(key, val);
    }
}

impl Default for Kv {
    /// An empty store.
    fn default() -> (kv: Self)
        ensures
            kv.wf(),
            kv@ == Map::<Seq<char>, Seq<char>>::empty(),
    {
        Kv::new()
    }
}


/// What `get` reads back after a `set`: the value just stored under that
/// key, and under every other key what was stored there before.
pub proof fn law_get_after_set(store: Map<Seq<char>, Seq<char>>, key: Seq<char>, val: Seq<char>, other: Seq<char>)
    ensures
        store.insert(key, val).contains_key(key),
        store.insert(key, val)[key] == val,
        other != key ==> (store.insert(key, val).contains_key(other) <==> store.contains_key(other)),
        other != key && store.contains_key(other) ==> store.insert(key, val)[other] == store[other],
{
}

} // verus!
