//! The games that are being played, each under an identifier of its own.

use uuid::Uuid;
use vstd::prelude::*;

use crate::game::{Error, Game};
use crate::keyed::{distinct_keys, lemma_position_of_found, lemma_position_of_prefix, position_of};
use crate::transition::Transition;

verus! {

/// What a store holds: the identifier and the game of each entry, in the
/// order in which the identifiers came in.
pub type Stored = Seq<(Seq<char>, Game)>;

/// The entries after a game has been put in under `key`: it takes the place
/// of the game that was there under that key, or goes to the end.
pub open spec fn with_game(entries: Stored, key: Seq<char>, game: Game) -> Stored {
    if position_of(entries, key) < entries.len() {
        entries.update(position_of(entries, key), (key, game))
    } else {
        entries.push((key, game))
    }
}

/// The entries after the game under `key` has been taken out, if there was one.
pub open spec fn without_game(entries: Stored, key: Seq<char>) -> Stored {
    if position_of(entries, key) < entries.len() {
        entries.remove(position_of(entries, key))
    } else {
        entries
    }
}

/// Makes an identifier for a game.
///
/// Calls `uuid::Uuid::new_v4`, which draws the identifier at random, and
/// turns it into a string. Nothing is claimed of the result.
#[verifier::external_body]
fn fresh_key() -> (key: String) {
    Uuid::new_v4().to_string()
}

/// A store of games. No two games are under the same identifier.
#[derive(Debug)]
pub struct GameStorage {
    map: Vec<(String, Game)>,
}

/// The entries that a row of identifiers and games stands for.
spec fn stored(map: Seq<(String, Game)>) -> Stored {
    Seq::new(map.len(), |i: int| (map[i].0@, map[i].1))
}

impl View for GameStorage {
    type V = Stored;

    closed spec fn view(&self) -> Stored {
        stored(self.map@)
    }
}

/// The position of the entry under `id`, if there is one.
fn find(map: &Vec<(String, Game)>, id: &str) -> (found: Option<usize>)
    ensures
        position_of(stored(map@), id@) < map@.len() ==> found is Some && found->Some_0
            == position_of(stored(map@), id@),
        position_of(stored(map@), id@) >= map@.len() ==> found.is_none(),
{
    let wanted = id.to_owned();
    let ghost entries = stored(map@);
    let mut i: usize = 0;
    while i < map.len()
        invariant
            i <= map@.len(),
            entries == stored(map@),
            wanted@ == id@,
            position_of(entries.take(i as int), id@) == i,
        decreases map@.len() - i,
    {
        proof {
            assert(entries.take(i + 1).drop_last() =~= entries.take(i as int));
            lemma_position_of_prefix(entries, id@, i + 1);
        }
        if map[i].0 == wanted {
            return Some(i);
        }
        i += 1;
    }
    proof {
        assert(entries.take(i as int) =~= entries);
    }
    None
}

impl GameStorage {
    /// No two games are under the same identifier.
    #[verifier::type_invariant]
    pub open spec fn wf(self) -> bool {
        distinct_keys(self@)
    }

    /// A store without games.
    pub fn new() -> (storage: GameStorage)
        ensures
            storage@ == Seq::<(Seq<char>, Game)>::empty(),
    {
        let map: Vec<(String, Game)> = Vec::new();
        proof {
            assert(stored(map@) =~= Seq::<(Seq<char>, Game)>::empty());
        }
        GameStorage { map }
    }

    /// Number of games in the store.
    pub fn len(&self) -> (len: usize)
        ensures
            len == self@.len(),
    {
        self.map.len()
    }

    /// Puts a game in under an identifier made for it, and gives the
    /// identifier.
    pub fn insert_game(&mut self, game: Game) -> (key: String)
        ensures
            final(self)@ == with_game(old(self)@, key@, game),
    {
        let key = fresh_key();
        self.insert_game_as(key, game)
    }

    /// Puts a game in under the given identifier, and gives the identifier
    /// back. A game that was there under that identifier leaves the store.
    pub fn insert_game_as(&mut self, key: String, game: Game) -> (same: String)
        ensures
            same == key,
            final(self)@ == with_game(old(self)@, key@, game),
    {
        proof {
            use_type_invariant(&*self);
            lemma_position_of_found(self@, key@);
        }
        let ghost before = self@;
        let same = key.clone();
        let mut map: Vec<(String, Game)> = Vec::new();
        proof {
            assert(stored(map@) =~= Seq::<(Seq<char>, Game)>::empty());
        }
        core::mem::swap(&mut self.map, &mut map);
        assert(stored(map@) =~= before);
        match find(&map, key.as_str()) {
            Some(at) => {
                let ghost held = map@;
                map.remove(at);
                map.insert(at, (key, game));
                proof {
                    assert(map@ =~= held.update(at as int, map@[at as int]));
                    let after = stored(map@);
                    assert(after =~= before.update(at as int, (same@, game)));
                    assert forall|i: int, j: int| 0 <= i < j < after.len() implies (
                    #[trigger] after[i]).0 != (#[trigger] after[j]).0 by {
                        assert(before[i].0 != before[j].0);
                    }
                }
            },
            None => {
                map.push((key, game));
                proof {
                    let after = stored(map@);
                    assert(after =~= before.push((same@, game)));
                    assert forall|i: int, j: int| 0 <= i < j < after.len() implies (
                    #[trigger] after[i]).0 != (#[trigger] after[j]).0 by {
                        if j < before.len() {
                            assert(before[i].0 != before[j].0);
                        } else {
                            assert(before[i].0 != same@);
                        }
                    }
                }
            },
        }
        core::mem::swap(&mut self.map, &mut map);
        same
    }

    /// The game under `id`, if there is one.
    pub fn get_game(&self, id: &str) -> (game: Option<&Game>)
        ensures
            position_of(self@, id@) < self@.len() ==> game is Some && *game->Some_0
                == self@[position_of(self@, id@)].1,
            position_of(self@, id@) >= self@.len() ==> game.is_none(),
    {
        match find(&self.map, id) {
            Some(at) => Some(&self.map[at].1),
            None => None,
        }
    }

    /// Moves the game under `id` on. Where there is no such game the error
    /// says so, with the identifier.
    pub fn transition_game(&mut self, id: &str, transition: Transition) -> (result: Result<
        (),
        Error,
    >)
        ensures
            position_of(old(self)@, id@) >= old(self)@.len() ==> (result matches Err(
                Error::NotFound(missing),
            ) && missing@ == id@ && final(self)@ == old(self)@),
            position_of(old(self)@, id@) < old(self)@.len() ==> {
                let at = position_of(old(self)@, id@);
                &&& final(self)@ == old(self)@.update(at, (id@, final(self)@[at].1))
                &&& old(self)@[at].1.transition_gives(transition, result, final(self)@[at].1)
            },
    {
        proof {
            use_type_invariant(&*self);
            lemma_position_of_found(self@, id@);
        }
        let ghost before = self@;
        let mut map: Vec<(String, Game)> = Vec::new();
        proof {
            assert(stored(map@) =~= Seq::<(Seq<char>, Game)>::empty());
        }
        core::mem::swap(&mut self.map, &mut map);
        assert(stored(map@) =~= before);
        let result = match find(&map, id) {
            Some(at) => {
                let result = map[at].1.transition(transition);
                proof {
                    let after = stored(map@);
                    assert(after =~= before.update(at as int, (id@, after[at as int].1)));
                    assert forall|i: int, j: int| 0 <= i < j < after.len() implies (
                    #[trigger] after[i]).0 != (#[trigger] after[j]).0 by {
                        assert(before[i].0 != before[j].0);
                    }
                }
                result
            },
            None => Err(Error::NotFound(id.to_owned())),
        };
        core::mem::swap(&mut self.map, &mut map);
        result
    }

    /// Takes the game under `id` out of the store, if there is one.
    pub fn remove_game(&mut self, id: &str)
        ensures
            final(self)@ == without_game(old(self)@, id@),
    {
        proof {
            use_type_invariant(&*self);
            lemma_position_of_found(self@, id@);
        }
        let ghost before = self@;
        let mut map: Vec<(String, Game)> = Vec::new();
        proof {
            assert(stored(map@) =~= Seq::<(Seq<char>, Game)>::empty());
        }
        core::mem::swap(&mut self.map, &mut map);
        assert(stored(map@) =~= before);
        match find(&map, id) {
            Some(at) => {
                map.remove(at);
                proof {
                    let after = stored(map@);
                    assert(after =~= before.remove(at as int));
                    assert forall|i: int, j: int| 0 <= i < j < after.len() implies (
                    #[trigger] after[i]).0 != (#[trigger] after[j]).0 by {
                        let from = if i < at { i } else { i + 1 };
                        let to = if j < at { j } else { j + 1 };
                        assert(before[from].0 != before[to].0);
                    }
                }
            },
            None => {},
        }
        core::mem::swap(&mut self.map, &mut map);
    }
}

} // verus!
