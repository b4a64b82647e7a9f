//! Resolving natural keys to surrogate identifiers: the short-lived
//! mapping that one run keeps, and the decisions between it and the store.
//! The store keeps one row for a natural key; this module never asks it
//! twice for a key within a run.

use vstd::prelude::*;
use crate::ident::{fresh_id, Id};
use crate::text::str_eq;

verus! {

/// The identifiers that one run has resolved, by natural key.
pub struct IdentityCache {
    entries: Vec<(String, Id)>,
}

/// The mapping that a list of entries stands for: a later entry for a key
/// replaces an earlier one.
pub open spec fn entries_map(entries: Seq<(String, Id)>) -> Map<Seq<char>, Id>
    decreases entries.len(),
{
    if entries.len() == 0 {
        Map::empty()
    } else {
        entries_map(entries.drop_last()).insert(entries.last().0@, entries.last().1)
    }
}

impl View for IdentityCache {
    type V = Map<Seq<char>, Id>;

    closed spec fn view(&self) -> Map<Seq<char>, Id> {
        entries_map(self.entries@)
    }
}

impl IdentityCache {
    /// A mapping that holds nothing.
    pub fn new() -> (cache: IdentityCache)
        ensures
            cache@ == Map::<Seq<char>, Id>::empty(),
    {
        IdentityCache { entries: Vec::new() }
    }

    /// The identifier that the key has in this mapping, if any.
    pub fn get(&self, key: &str) -> (r: Option<Id>)
        ensures
            r == if self@.contains_key(key@) {
                Some(self@[key@])
            } else {
                None::<Id>
            },
    {
        let mut i: usize = self.entries.len();
        assert(self.entries@.take(i as int) == self.entries@);
        while i > 0
            invariant
                i <= self.entries.len(),
                self@.contains_key(key@) == entries_map(self.entries@.take(i as int)).contains_key(
                    key@,
                ),
                self@.contains_key(key@) ==> self@[key@] == entries_map(
                    self.entries@.take(i as int),
                )[key@],
            decreases i,
        {
            let ghost now = self.entries@.take(i as int);
            assert(now.drop_last() == self.entries@.take(i - 1));
            assert(now.last() == self.entries@[i - 1]);
            let entry = &self.entries[i - 1];
            if str_eq(entry.0.as_str(), key) {
                return Some(entry.1);
            }
            i = i - 1;
        }
        None
    }

    /// Records the identifier of a key.
    pub fn insert(&mut self, key: String, id: Id)
        ensures
            final(self)@ == old(self)@.insert(key@, id),
    {
        let ghost before = self.entries@;
        self.entries.push((key, id));
        assert(self.entries@.drop_last() == before);
    }
}

/// A row of the store of identities.
pub struct IdentityRow {
    pub id: Id,
    pub display_name: Seq<char>,
    /// The type of an entity, or the unit of a metric.
    pub attribute: Seq<char>,
}

/// What is to be resolved: a natural key, with the display name and the
/// attribute that a new row would get.
#[derive(Clone, Debug, PartialEq, Eq)]
pub struct Identity {
    pub key: String,
    pub display_name: String,
    /// The type of an entity, or the unit of a metric.
    pub attribute: String,
}

pub struct IdentityView {
    pub key: Seq<char>,
    pub display_name: Seq<char>,
    pub attribute: Seq<char>,
}

impl View for Identity {
    type V = IdentityView;

    open spec fn view(&self) -> IdentityView {
        IdentityView {
            key: self.key@,
            display_name: self.display_name@,
            attribute: self.attribute@,
        }
    }
}

/// What the caller is to do for an identity.
#[derive(Clone, Debug, PartialEq, Eq)]
pub enum ResolveAction {
    /// Use the identifier: the identity is resolved.
    Use { id: Id },
    /// Ask the store for the row of the key.
    LookUp { key: String },
    /// Insert a row with the identifier.
    Insert { id: Id, identity: Identity },
}

pub enum ResolveActionView {
    Use { id: Id },
    LookUp { key: Seq<char> },
    Insert { id: Id, identity: IdentityView },
}

impl View for ResolveAction {
    type V = ResolveActionView;

    open spec fn view(&self) -> ResolveActionView {
        match self {
            ResolveAction::Use { id } => ResolveActionView::Use { id: *id },
            ResolveAction::LookUp { key } => ResolveActionView::LookUp { key: key@ },
            ResolveAction::Insert { id, identity } => ResolveActionView::Insert {
                id: *id,
                identity: identity@,
            },
        }
    }
}

/// The first action for a key: its identifier from the mapping, or a
/// question to the store.
pub open spec fn begin_of(cache: Map<Seq<char>, Id>, key: Seq<char>) -> ResolveActionView {
    if cache.contains_key(key) {
        ResolveActionView::Use { id: cache[key] }
    } else {
        ResolveActionView::LookUp { key }
    }
}

/// The action after the store has answered: the identifier that it holds,
/// or the insertion of a row with a fresh one.
pub open spec fn answer_of(identity: IdentityView, found: Option<Id>, fresh: Id) -> ResolveActionView {
    match found {
        Some(id) => ResolveActionView::Use { id },
        None => ResolveActionView::Insert { id: fresh, identity },
    }
}

/// Begins the resolution of a key.
pub fn begin_resolve(cache: &IdentityCache, key: &str) -> (action: ResolveAction)
    ensures
        action@ == begin_of(cache@, key@),
{
    match cache.get(key) {
        Some(id) => ResolveAction::Use { id },
        None => ResolveAction::LookUp { key: key.to_owned() },
    }
}

/// Goes on after the store has answered, with the identifier that a new
/// row is to get. An identifier that the store holds is remembered.
pub fn on_answer(cache: &mut IdentityCache, identity: Identity, found: Option<Id>, fresh: Id) -> (action:
    ResolveAction)
    ensures
        action@ == answer_of(identity@, found, fresh),
        final(cache)@ == match found {
            Some(id) => old(cache)@.insert(identity.key@, id),
            None => old(cache)@,
        },
{
    match found {
        Some(id) => {
            cache.insert(identity.key, id);
            ResolveAction::Use { id }
        },
        None => ResolveAction::Insert { id: fresh, identity },
    }
}

/// Goes on after the store has answered. The identifier of a new row is
/// drawn at random.
pub fn on_lookup(cache: &mut IdentityCache, identity: Identity, found: Option<Id>) -> (action:
    ResolveAction)
    ensures
        exists|fresh: Id| action@ == #[trigger] answer_of(identity@, found, fresh),
        found is Some ==> action@ == (ResolveActionView::Use { id: found->0 }),
        final(cache)@ == match found {
            Some(id) => old(cache)@.insert(identity.key@, id),
            None => old(cache)@,
        },
{
    match found {
        Some(_) => on_answer(cache, identity, found, 0),
        None => {
            let fresh = fresh_id();
            on_answer(cache, identity, found, fresh)
        },
    }
}

/// Ends the resolution after the row was inserted: the identifier is
/// remembered and used.
pub fn on_inserted(cache: &mut IdentityCache, key: String, id: Id) -> (action: ResolveAction)
    ensures
        action@ == (ResolveActionView::Use { id }),
        final(cache)@ == old(cache)@.insert(key@, id),
{
    cache.insert(key, id);
    ResolveAction::Use { id }
}

/// The state of a store and of the mapping of a run.
pub struct Resolved {
    pub store: Map<Seq<char>, IdentityRow>,
    pub cache: Map<Seq<char>, Id>,
    pub id: Id,
}

/// What the store answers when it is asked for a key.
pub open spec fn stored_id(store: Map<Seq<char>, IdentityRow>, key: Seq<char>) -> Option<Id> {
    if store.contains_key(key) {
        Some(store[key].id)
    } else {
        None
    }
}

/// The resolution of an identity against a store that does as it is
/// asked: the store and the mapping afterwards, and the identifier.
pub open spec fn resolution_of(
    store: Map<Seq<char>, IdentityRow>,
    cache: Map<Seq<char>, Id>,
    identity: IdentityView,
    fresh: Id,
) -> Resolved {
    match begin_of(cache, identity.key) {
        ResolveActionView::Use { id } => Resolved { store, cache, id },
        _ => match answer_of(identity, stored_id(store, identity.key), fresh) {
            ResolveActionView::Use { id } => Resolved {
                store,
                cache: cache.insert(identity.key, id),
                id,
            },
            ResolveActionView::Insert { id, identity } => Resolved {
                store: store.insert(
                    identity.key,
                    IdentityRow {
                        id,
                        display_name: identity.display_name,
                        attribute: identity.attribute,
                    },
                ),
                cache: cache.insert(identity.key, id),
                id,
            },
            ResolveActionView::LookUp { .. } => Resolved { store, cache, id: fresh },
        },
    }
}

/// The mapping of a run holds nothing that the store does not hold.
pub open spec fn agrees(cache: Map<Seq<char>, Id>, store: Map<Seq<char>, IdentityRow>) -> bool {
    forall|key: Seq<char>| #[trigger]
        cache.contains_key(key) ==> store.contains_key(key) && store[key].id == cache[key]
}

/// A resolution keeps the mapping in agreement with the store, leaves the
/// rows of the store as they are, and ends with the row of the key in the
/// store and in the mapping.
pub proof fn lemma_resolution_sound(
    store: Map<Seq<char>, IdentityRow>,
    cache: Map<Seq<char>, Id>,
    identity: IdentityView,
    fresh: Id,
)
    requires
        agrees(cache, store),
    ensures
        ({
            let r = resolution_of(store, cache, identity, fresh);
            &&& agrees(r.cache, r.store)
            &&& stored_id(r.store, identity.key) == Some(r.id)
            &&& r.cache.contains_key(identity.key) && r.cache[identity.key] == r.id
            &&& forall|key: Seq<char>| #[trigger]
                store.contains_key(key) ==> r.store.contains_key(key) && r.store[key] == store[key]
        }),
{
}

/// Resolving the same natural key twice gives the same identifier, within
/// a run (the second resolution goes on with the mapping of the first) and
/// across runs (it starts with any mapping that agrees with the store).
/// The row of the key keeps the display name of the first resolution,
/// whatever name the second one brings.
pub proof fn lemma_identity_stable(
    store: Map<Seq<char>, IdentityRow>,
    cache: Map<Seq<char>, Id>,
    first: IdentityView,
    second: IdentityView,
    later_cache: Map<Seq<char>, Id>,
    fresh: Id,
    fresh_again: Id,
)
    requires
        agrees(cache, store),
        second.key == first.key,
        ({
            let r = resolution_of(store, cache, first, fresh);
            later_cache == r.cache || agrees(later_cache, r.store)
        }),
    ensures
        ({
            let r = resolution_of(store, cache, first, fresh);
            let again = resolution_of(r.store, later_cache, second, fresh_again);
            &&& again.id == r.id
            &&& again.store == r.store
            &&& again.store[first.key].display_name == r.store[first.key].display_name
            &&& !store.contains_key(first.key) ==> r.store[first.key].display_name
                == first.display_name
        }),
{
    lemma_resolution_sound(store, cache, first, fresh);
}

} // verus!
