//! The rule a new room's name must meet in the directory.

use vstd::prelude::*;

verus! {

/// Why a room could not be created under a name.
#[derive(Clone, Copy, Debug, PartialEq, Eq, Structural)]
pub enum LobbyNameError {
    Empty,
    Taken,
}

impl LobbyNameError {
    /// The reason shown to the client.
    pub fn reason(&self) -> (r: &'static str)
        ensures
            *self == LobbyNameError::Empty ==> r@ == "Lobby name cannot be empty."@,
            *self == LobbyNameError::Taken ==> r@ == "Lobby name already exists."@,
    {
        proof {
            reveal_strlit("Lobby name cannot be empty.");
            reveal_strlit("Lobby name already exists.");
        }
        match self {
            LobbyNameError::Empty => "Lobby name cannot be empty.",
            LobbyNameError::Taken => "Lobby name already exists.",
        }
    }
}

/// Whether some room in `taken` already has `name`.
pub open spec fn name_taken(name: Seq<char>, taken: Seq<String>) -> bool {
    exists|i: int| 0 <= i < taken.len() && (#[trigger] taken[i])@ == name
}

/// Checks a new room's name against the names of the existing rooms: it
/// must be non-empty and not in use.
pub fn check_lobby_name(name: &String, taken: &Vec<String>) -> (r: Result<(), LobbyNameError>)
    ensures
        name@.len() == 0 ==> r == Err::<(), LobbyNameError>(LobbyNameError::Empty),
        name@.len() > 0 && name_taken(name@, taken@) ==> r == Err::<(), LobbyNameError>(LobbyNameError::Taken),
        name@.len() > 0 && !name_taken(name@, taken@) ==> r is Ok,
{
    let s: &str = name.as_str();
    if s.is_empty() {
        return Err(LobbyNameError::Empty);
    }
    let mut i: usize = 0;
    while i < taken.len()
        invariant
            i <= taken@.len(),
            name@.len() > 0,
            forall|j: int| 0 <= j < i ==> (#[trigger] taken@[j])@ != name@,
        decreases taken@.len() - i,
    {
        if taken[i] == *name {
            return Err(LobbyNameError::Taken);
        }
        i += 1;
    }
    Ok(())
}

} // verus!
