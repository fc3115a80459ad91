//! The user record and the role tag.

use vstd::prelude::*;

verus! {

/// What a user record holds, as mathematical values.
pub struct UserView {
    pub id: u64,
    pub name: Seq<char>,
    pub email: Seq<char>,
}

/// A user record: an identifier, a display name and an email address.
/// Neither text is validated.
#[derive(Debug)]
pub struct User {
    pub id: u64,
    pub name: String,
    pub email: String,
}

impl View for User {
    type V = UserView;

    open spec fn view(&self) -> UserView {
        UserView { id: self.id, name: self.name@, email: self.email@ }
    }
}

impl Clone for User {
    /// An independently owned copy that is equal to the record, field by field.
    fn clone(&self) -> (copy: Self)
        ensures
            copy == *self,
    {
        User { id: self.id, name: self.name.clone(), email: self.email.clone() }
    }
}

/// A classification tag. No operation of the store reads it.
pub enum UserRole {
    Admin,
    User,
    Guest,
}

} // verus!
