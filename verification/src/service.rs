//! The service layer: creates users and writes them through a repository.

use vstd::prelude::*;
use crate::repository::{Repository, UserRepository};
use crate::user::{User, UserView};

verus! {

/// The identifier that the next created user receives: the number of stored
/// records plus one. It goes by the count alone, not by which identifiers
/// are taken, so it may name a record that is already stored.
pub open spec fn next_id(entries: Map<u64, UserView>) -> nat {
    entries.len() + 1
}

/// The user that is created from `name` and `email` in a store that holds
/// `entries`.
pub open spec fn created(entries: Map<u64, UserView>, name: Seq<char>, email: Seq<char>) -> UserView {
    UserView { id: next_id(entries) as u64, name, email }
}

/// The first user created in an empty store has the identifier 1, and the
/// user created next, in the store that then holds the first, has 2.
pub proof fn lemma_first_two_ids(
    name: Seq<char>,
    email: Seq<char>,
    next_name: Seq<char>,
    next_email: Seq<char>,
)
    ensures
        created(Map::empty(), name, email).id == 1,
        created(
            Map::empty().insert(1, created(Map::empty(), name, email)),
            next_name,
            next_email,
        ).id == 2,
{
    let first = created(Map::empty(), name, email);
    assert(Map::<u64, UserView>::empty().insert(1, first).dom() =~= set![1u64]);
}

/// Where the next identifier is already taken, creating a user replaces the
/// record stored there: the store does not grow, so the user created after
/// that receives the same identifier again.
pub proof fn lemma_taken_id_is_reused(
    entries: Map<u64, UserView>,
    name: Seq<char>,
    email: Seq<char>,
)
    requires
        entries.contains_key(created(entries, name, email).id),
    ensures
        next_id(entries.insert(created(entries, name, email).id, created(entries, name, email)))
            == next_id(entries),
{
    let user = created(entries, name, email);
    assert(entries.insert(user.id, user).dom() =~= entries.dom());
}

/// Creates users in one repository, to which it holds exclusive access for
/// as long as it lives.
pub struct UserService<'a> {
    /// The repository that the service writes to. It is public so that
    /// contracts can say how it stands when the service's access ends.
    pub repository: &'a mut UserRepository,
}

impl<'a> UserService<'a> {
    /// The repository as it stands now.
    pub open spec fn repo(&self) -> UserRepository {
        *self.repository
    }

    /// A service bound to `repository`. The repository is untouched, and
    /// whatever the service does to it is what the lender finds when the
    /// service's access ends.
    pub fn new(repository: &'a mut UserRepository) -> (service: Self)
        ensures
            service.repo() == *old(repository),
            *final(service.repository) == *final(repository),
    {
        Self { repository }
    }

    /// Creates a user with the next identifier and the given name and email,
    /// stores a copy of it under that identifier, replacing a record already
    /// stored there, and returns it.
    ///
    /// The store must have room for a further record to be counted.
    pub fn create_user(&mut self, name: String, email: String) -> (user: User)
        requires
            old(self).repo()@.len() < usize::MAX,
        ensures
            user@ == created(old(self).repo()@, name@, email@),
            final(self).repo()@ == old(self).repo()@.insert(user.id, user@),
            old(self).repo().wf() ==> final(self).repo().wf(),
            *final(final(self).repository) == *final(old(self).repository),
    {
        let user = User { id: self.generate_id(), name, email };
        self.repository.add(user.clone());
        user
    }

    /// The identifier that `create_user` would give out now.
    pub fn generate_id(&self) -> (id: u64)
        requires
            self.repo()@.len() < usize::MAX,
        ensures
            id == next_id(self.repo()@),
    {
        (self.repository.len() + 1) as u64
    }
}

} // verus!
