//! Player identities as the room sees them.

use vstd::prelude::*;

verus! {

/// A logged-in user: an id, a display name and an avatar.
#[derive(Debug)]
pub struct User {
    pub id: usize,
    pub name: String,
    pub avatar: Avatar,
}

/// The parts a user's avatar is drawn from.
#[derive(Clone, Copy, Debug, PartialEq, Eq, Structural)]
pub struct Avatar {
    pub tie_index: usize,
    pub tie_color_index: usize,
    pub eye_index: usize,
    pub eye_color_index: usize,
}

/// What a client sends to register a user.
#[derive(Debug)]
pub struct UserCreate {
    pub name: String,
    pub avatar: Avatar,
}

impl User {
    /// A user with id 0, an empty name and the first avatar.
    pub fn new_empty() -> (r: Self)
        ensures
            r.id == 0,
            r.name@ == Seq::<char>::empty(),
            r.avatar == (Avatar { tie_index: 0, tie_color_index: 0, eye_index: 0, eye_color_index: 0 }),
    {
        User {
            id: 0,
            name: String::new(),
            avatar: Avatar { tie_index: 0, tie_color_index: 0, eye_index: 0, eye_color_index: 0 },
        }
    }

    /// A copy of this user.
    pub fn copied(&self) -> (r: Self)
        ensures
            r == *self,
    {
        User { id: self.id, name: self.name.clone(), avatar: self.avatar }
    }
}

} // verus!
