//! The keyed store: a capability interface and its in-memory implementation.

use std::collections::HashMap;
use vstd::prelude::*;
use crate::user::{User, UserView};

verus! {

broadcast use vstd::std_specs::hash::group_hash_axioms;

/// How long the suspending form of a lookup waits before it looks,
/// in milliseconds.
pub const ASYNC_LOOKUP_DELAY_MILLIS: u64 = 100;

/// What a lookup of `id` finds in `entries`: the entity stored under `id`,
/// or nothing where none is stored there.
pub open spec fn lookup<V>(entries: Map<u64, V>, id: u64) -> Option<V> {
    if entries.contains_key(id) {
        Some(entries[id])
    } else {
        None
    }
}

/// A store of entities, each held under an unsigned identifier.
///
/// `entries` is the store as a mathematical map from identifier to the
/// entity's view, and `key_of` is the identifier under which an entity is
/// stored. The two operations are stated over them.
pub trait Repository<T: View> {
    /// The store's contents.
    spec fn entries(&self) -> Map<u64, T::V>;

    /// The identifier under which `add` stores an entity.
    spec fn key_of(entity: T::V) -> u64;

    /// Every entity is stored under its own identifier, so no two stored
    /// entities share one.
    open spec fn wf(&self) -> bool {
        forall|id: u64| #[trigger]
            self.entries().contains_key(id) ==> Self::key_of(self.entries()[id]) == id
    }

    /// Looks an identifier up: the entity stored under it, or nothing where
    /// none is stored there. The store is left as it is.
    fn get_by_id(&self, id: u64) -> (found: Option<&T>)
        ensures
            lookup(self.entries(), id) == (match found {
                Some(entity) => Some(entity@),
                None => None,
            }),
    ;

    /// Stores an entity under its identifier. An entity already stored under
    /// that identifier is replaced; every other entry is kept. It always
    /// succeeds.
    fn add(&mut self, entity: T)
        ensures
            final(self).entries() == old(self).entries().insert(Self::key_of(entity@), entity@),
            old(self).wf() ==> final(self).wf(),
    ;
}

/// The contents of a store that held `entries` and to which each entity of
/// `entities` was then added, in order.
pub open spec fn add_all<T: View, R: Repository<T>>(
    entries: Map<u64, T::V>,
    entities: Seq<T::V>,
) -> Map<u64, T::V>
    decreases entities.len(),
{
    if entities.len() == 0 {
        entries
    } else {
        add_all::<T, R>(entries, entities.drop_last()).insert(
            R::key_of(entities.last()),
            entities.last(),
        )
    }
}

/// An entity that was just added is what a lookup of its identifier finds,
/// whatever the store held before.
pub proof fn lemma_added_is_found<T: View, R: Repository<T>>(
    entries: Map<u64, T::V>,
    entity: T::V,
)
    ensures
        lookup(entries.insert(R::key_of(entity), entity), R::key_of(entity)) == Some(entity),
{
}

/// Adding an entity changes what is found under no identifier but its own.
pub proof fn lemma_add_keeps_others<T: View, R: Repository<T>>(
    entries: Map<u64, T::V>,
    entity: T::V,
    id: u64,
)
    requires
        id != R::key_of(entity),
    ensures
        lookup(entries.insert(R::key_of(entity), entity), id) == lookup(entries, id),
{
}

/// Adding entities of which none has the identifier `id` leaves what is
/// found under `id` as it was.
pub proof fn lemma_adds_keep_others<T: View, R: Repository<T>>(
    entries: Map<u64, T::V>,
    entities: Seq<T::V>,
    id: u64,
)
    requires
        forall|i: int| 0 <= i < entities.len() ==> R::key_of(#[trigger] entities[i]) != id,
    ensures
        lookup(add_all::<T, R>(entries, entities), id) == lookup(entries, id),
    decreases entities.len(),
{
    if entities.len() > 0 {
        let earlier = entities.drop_last();
        assert forall|i: int| 0 <= i < earlier.len() implies R::key_of(#[trigger] earlier[i])
            != id by {
            assert(earlier[i] == entities[i]);
        }
        lemma_adds_keep_others::<T, R>(entries, earlier, id);
        assert(entities.last() == entities[entities.len() - 1]);
        lemma_add_keeps_others::<T, R>(add_all::<T, R>(entries, earlier), entities.last(), id);
    }
}

/// A lookup of an identifier under which nothing was ever added finds
/// nothing: in a store that started empty and to which any entities with
/// other identifiers were added, `id` is absent.
pub proof fn lemma_never_added_is_absent<T: View, R: Repository<T>>(
    entities: Seq<T::V>,
    id: u64,
)
    requires
        forall|i: int| 0 <= i < entities.len() ==> R::key_of(#[trigger] entities[i]) != id,
    ensures
        lookup(add_all::<T, R>(Map::empty(), entities), id).is_none(),
{
    lemma_adds_keep_others::<T, R>(Map::empty(), entities, id);
}

/// Of two entities added under one identifier only the second is found
/// there: the later add replaces the earlier entity.
pub proof fn lemma_second_add_replaces_first<T: View, R: Repository<T>>(
    entries: Map<u64, T::V>,
    first: T::V,
    second: T::V,
)
    requires
        R::key_of(first) == R::key_of(second),
    ensures
        lookup(
            entries.insert(R::key_of(first), first).insert(R::key_of(second), second),
            R::key_of(first),
        ) == Some(second),
        entries.insert(R::key_of(first), first).insert(R::key_of(second), second)
            == entries.insert(R::key_of(second), second),
{
    assert(entries.insert(R::key_of(first), first).insert(R::key_of(second), second)
        =~= entries.insert(R::key_of(second), second));
}

/// The in-memory store of user records.
pub struct UserRepository {
    users: HashMap<u64, User>,
}

impl View for UserRepository {
    type V = Map<u64, UserView>;

    closed spec fn view(&self) -> Map<u64, UserView> {
        self.users@.map_values(|u: User| u@)
    }
}

impl UserRepository {
    /// An empty store.
    pub fn new() -> (repository: Self)
        ensures
            repository@ == Map::<u64, UserView>::empty(),
            repository.wf(),
    {
        let repository = UserRepository { users: HashMap::new() };
        assert(repository@ =~= Map::<u64, UserView>::empty());
        repository
    }

    /// The number of records in the store.
    pub fn len(&self) -> (count: usize)
        ensures
            count == self@.len(),
    {
        assert(self@.dom() =~= self.users@.dom());
        self.users.len()
    }

    /// Looks an identifier up and hands out an independently owned copy of
    /// the record found. This is the lookup that the suspending form makes
    /// once its wait is over.
    pub fn get_by_id_cloned(&self, id: u64) -> (found: Option<User>)
        ensures
            lookup(self@, id) == (match found {
                Some(user) => Some(user@),
                None => None,
            }),
    {
        match self.users.get(&id) {
            Some(user) => Some(user.clone()),
            None => None,
        }
    }
}

impl Repository<User> for UserRepository {
    open spec fn entries(&self) -> Map<u64, UserView> {
        self@
    }

    open spec fn key_of(entity: UserView) -> u64 {
        entity.id
    }

    fn get_by_id(&self, id: u64) -> (found: Option<&User>) {
        self.users.get(&id)
    }

    fn add(&mut self, entity: User) {
        let ghost before = self@;
        self.users.insert(entity.id, entity);
        assert(self@ =~= before.insert(entity.id, entity@));
    }
}

} // verus!
