//! A player, known by an identifier alone.

use vstd::prelude::*;

verus! {

/// A player. Two players with the same identifier are the same player.
#[derive(Debug, Hash)]
pub struct Player {
    pub id: String,
}

impl View for Player {
    type V = Seq<char>;

    /// The characters of the identifier.
    open spec fn view(&self) -> Seq<char> {
        self.id@
    }
}

impl Player {
    /// The player with the given identifier.
    pub fn new(id: String) -> (player: Player)
        ensures
            player.id == id,
    {
        Player { id }
    }

    /// The identifier.
    pub fn get_id(&self) -> (id: &str)
        ensures
            id@ == self@,
    {
        self.id.as_str()
    }
}

impl Clone for Player {
    fn clone(&self) -> (copy: Player)
        ensures
            copy == *self,
    {
        Player { id: self.id.clone() }
    }
}

impl PartialEq for Player {
    fn eq(&self, other: &Player) -> (equal: bool) {
        self.id == other.id
    }
}

impl Eq for Player {

}

impl vstd::std_specs::cmp::PartialEqSpecImpl for Player {
    open spec fn obeys_eq_spec() -> bool {
        true
    }

    open spec fn eq_spec(&self, other: &Player) -> bool {
        self@ == other@
    }
}

} // verus!
