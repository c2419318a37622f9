//! Wagers, and the table that holds each player's wagers.

use vstd::prelude::*;

use crate::keyed::{distinct_keys, lemma_position_of_found, lemma_position_of_prefix, position_of};
use crate::player::Player;

verus! {

/// Why a wager could not be made.
#[derive(PartialEq, Eq, Structural, Clone, Copy, Debug)]
pub enum Error {
    /// The amount is zero or negative; the number is that amount.
    NonPositiveAmount(i32),
}

/// A stake of `amount` units on an outcome that `wager_type` names.
#[derive(Debug)]
pub struct Wager<T> {
    id: u32,
    wager_type: T,
    amount: i32,
}

impl<T> Wager<T> {
    /// The identifier of the wager.
    pub closed spec fn id(self) -> u32 {
        self.id
    }

    /// What the wager is on.
    pub closed spec fn wager_type(self) -> T {
        self.wager_type
    }

    /// The amount staked.
    pub closed spec fn amount(self) -> int {
        self.amount as int
    }

    /// The amount of a wager is positive.
    #[verifier::type_invariant]
    pub open spec fn wf(self) -> bool {
        self.amount() > 0
    }

    /// A wager, which must be of a positive amount.
    pub fn new(id: u32, wager_type: T, amount: i32) -> (result: Result<Wager<T>, Error>)
        ensures
            amount > 0 ==> result is Ok && result->Ok_0.wf() && result->Ok_0.id() == id
                && result->Ok_0.wager_type() == wager_type && result->Ok_0.amount() == amount,
            amount <= 0 ==> result == Err::<Wager<T>, Error>(Error::NonPositiveAmount(amount)),
    {
        if amount <= 0 {
            return Err(Error::NonPositiveAmount(amount));
        }
        Ok(Wager { id, wager_type, amount })
    }

    pub fn get_wager_type(&self) -> (wager_type: &T)
        ensures
            *wager_type == self.wager_type(),
    {
        &self.wager_type
    }

    pub fn get_id(&self) -> (id: &u32)
        ensures
            *id == self.id(),
    {
        &self.id
    }

    pub fn get_amount(&self) -> (amount: &i32)
        ensures
            *amount == self.amount(),
            *amount > 0,
    {
        proof {
            use_type_invariant(self);
        }
        &self.amount
    }
}

/// What a table of wagers holds: for each player, in the order in which the
/// players came in, the identifier and the wagers in their order.
pub type Entries<T> = Seq<(Seq<char>, Seq<Wager<T>>)>;

/// One wager together with the identifier of the player who made it.
pub struct PlacedWager<T> {
    pub player: Seq<char>,
    pub wager: Wager<T>,
}

/// The wagers of one player, each with the player's identifier.
pub open spec fn placed_by<T>(player: Seq<char>, wagers: Seq<Wager<T>>) -> Seq<PlacedWager<T>> {
    Seq::new(wagers.len(), |k: int| PlacedWager { player, wager: wagers[k] })
}

/// All the wagers of a table in one row: player after player, and each
/// player's wagers in their order.
pub open spec fn all_wagers<T>(entries: Entries<T>) -> Seq<PlacedWager<T>>
    decreases entries.len(),
{
    if entries.len() == 0 {
        Seq::empty()
    } else {
        all_wagers(entries.drop_last()) + placed_by(entries.last().0, entries.last().1)
    }
}

/// Every wager of the table is of a positive amount.
pub open spec fn positive_amounts<T>(entries: Entries<T>) -> bool {
    forall|k: int|
        0 <= k < all_wagers(entries).len() ==> (#[trigger] all_wagers(entries)[k]).wager.amount()
            > 0
}

/// The wagers of the first `n + 1` entries are those of the first `n`
/// followed by those of entry `n`.
pub proof fn lemma_all_wagers_step<T>(entries: Entries<T>, n: int)
    requires
        0 <= n < entries.len(),
    ensures
        all_wagers(entries.take(n + 1)) == all_wagers(entries.take(n)) + placed_by(
            entries[n].0,
            entries[n].1,
        ),
{
    assert(entries.take(n + 1).drop_last() =~= entries.take(n));
}

/// A wager in a table, with the player who made it.
pub struct Placed<'a, T> {
    pub player: &'a Player,
    pub wager: &'a Wager<T>,
}

impl<'a, T> View for Placed<'a, T> {
    type V = PlacedWager<T>;

    open spec fn view(&self) -> PlacedWager<T> {
        PlacedWager { player: self.player@, wager: *self.wager }
    }
}

/// A table of wagers keyed by player: each player has one entry, and the
/// entries keep the order in which their players were first put in.
#[derive(Debug)]
pub struct WagerMap<T> {
    entries: Vec<(Player, Vec<Wager<T>>)>,
}

/// What a row of players and their wagers stands for.
spec fn listed<T>(entries: Seq<(Player, Vec<Wager<T>>)>) -> Entries<T> {
    Seq::new(entries.len(), |i: int| (entries[i].0@, entries[i].1@))
}

impl<T> View for WagerMap<T> {
    type V = Entries<T>;

    closed spec fn view(&self) -> Entries<T> {
        listed(self.entries@)
    }
}

impl<T> WagerMap<T> {
    /// No two entries are of the same player.
    #[verifier::type_invariant]
    pub open spec fn wf(self) -> bool {
        distinct_keys(self@)
    }

    /// A table without entries.
    pub fn new() -> (map: WagerMap<T>)
        ensures
            map@ == Seq::<(Seq<char>, Seq<Wager<T>>)>::empty(),
    {
        let entries: Vec<(Player, Vec<Wager<T>>)> = Vec::new();
        proof {
            assert(listed(entries@) =~= Seq::<(Seq<char>, Seq<Wager<T>>)>::empty());
        }
        WagerMap { entries }
    }

    /// Number of players with an entry.
    pub fn len(&self) -> (len: usize)
        ensures
            len == self@.len(),
    {
        self.entries.len()
    }

    /// Whether no player has an entry.
    pub fn is_empty(&self) -> (empty: bool)
        ensures
            empty == (self@.len() == 0),
    {
        self.entries.len() == 0
    }

    /// The player of the entry at `index`, if there is such an entry.
    pub fn player_at(&self, index: usize) -> (player: Option<&Player>)
        ensures
            index < self@.len() ==> player is Some && player->Some_0@ == self@[index as int].0,
            index >= self@.len() ==> player.is_none(),
    {
        if index < self.entries.len() {
            Some(&self.entries[index].0)
        } else {
            None
        }
    }

    /// The wagers of the entry at `index`, if there is such an entry.
    pub fn wagers_at(&self, index: usize) -> (wagers: Option<&Vec<Wager<T>>>)
        ensures
            index < self@.len() ==> wagers is Some && wagers->Some_0@ == self@[index as int].1,
            index >= self@.len() ==> wagers.is_none(),
    {
        if index < self.entries.len() {
            Some(&self.entries[index].1)
        } else {
            None
        }
    }

    /// All the wagers of the table in one row, each with its player.
    pub fn flatten(&self) -> (row: Vec<Placed<'_, T>>)
        ensures
            row@.len() == all_wagers(self@).len(),
            forall|k: int| 0 <= k < row@.len() ==> (#[trigger] row@[k])@ == all_wagers(self@)[k],
    {
        let mut row: Vec<Placed<'_, T>> = Vec::new();
        let mut i: usize = 0;
        while i < self.entries.len()
            invariant
                i <= self.entries@.len(),
                row@.len() == all_wagers(self@.take(i as int)).len(),
                forall|k: int|
                    0 <= k < row@.len() ==> (#[trigger] row@[k])@ == all_wagers(
                        self@.take(i as int),
                    )[k],
            decreases self.entries@.len() - i,
        {
            let player = &self.entries[i].0;
            let wagers = &self.entries[i].1;
            let ghost done = all_wagers(self@.take(i as int));
            let mut j: usize = 0;
            while j < wagers.len()
                invariant
                    j <= wagers@.len(),
                    i < self.entries@.len(),
                    player@ == self@[i as int].0,
                    wagers@ == self@[i as int].1,
                    row@.len() == done.len() + j,
                    forall|k: int| 0 <= k < done.len() ==> (#[trigger] row@[k])@ == done[k],
                    forall|k: int|
                        done.len() <= k < row@.len() ==> (#[trigger] row@[k])@ == placed_by(
                            player@,
                            wagers@,
                        )[k - done.len()],
                decreases wagers@.len() - j,
            {
                row.push(Placed { player, wager: &wagers[j] });
                j += 1;
            }
            proof {
                lemma_all_wagers_step(self@, i as int);
            }
            i += 1;
        }
        proof {
            assert(self@.take(i as int) =~= self@);
        }
        row
    }

    /// The position of the player's entry, if the player has one.
    pub fn find(&self, player: &Player) -> (found: Option<usize>)
        ensures
            position_of(self@, player@) < self@.len() ==> found is Some && found->Some_0
                == position_of(self@, player@),
            position_of(self@, player@) >= self@.len() ==> found.is_none(),
    {
        let mut i: usize = 0;
        while i < self.entries.len()
            invariant
                i <= self.entries@.len(),
                position_of(self@.take(i as int), player@) == i,
            decreases self.entries@.len() - i,
        {
            proof {
                assert(self@.take(i + 1).drop_last() =~= self@.take(i as int));
                lemma_position_of_prefix(self@, player@, i + 1);
            }
            if self.entries[i].0 == *player {
                return Some(i);
            }
            i += 1;
        }
        proof {
            assert(self@.take(i as int) =~= self@);
        }
        None
    }

    /// Sets the wagers of a player. A player who has an entry keeps its place
    /// and the wagers it held come back; a new player's entry goes to the end.
    pub fn insert(&mut self, player: Player, wagers: Vec<Wager<T>>) -> (previous: Option<
        Vec<Wager<T>>,
    >)
        ensures
            position_of(old(self)@, player@) < old(self)@.len() ==> {
                &&& previous is Some
                &&& previous->Some_0@ == old(self)@[position_of(old(self)@, player@)].1
                &&& final(self)@ == old(self)@.update(
                    position_of(old(self)@, player@),
                    (player@, wagers@),
                )
            },
            position_of(old(self)@, player@) >= old(self)@.len() ==> {
                &&& previous.is_none()
                &&& final(self)@ == old(self)@.push((player@, wagers@))
            },
    {
        proof {
            use_type_invariant(&*self);
            lemma_position_of_found(self@, player@);
        }
        let ghost place = position_of(self@, player@);
        let ghost before = self@;
        let found = self.find(&player);
        let mut entries: Vec<(Player, Vec<Wager<T>>)> = Vec::new();
        proof {
            assert(listed(entries@) =~= Seq::<(Seq<char>, Seq<Wager<T>>)>::empty());
        }
        core::mem::swap(&mut self.entries, &mut entries);
        let ghost held = entries@;
        let previous = match found {
            Some(at) => {
                assert(at == place);
                let removed = entries.remove(at);
                let ghost name = player@;
                let ghost list = wagers@;
                entries.insert(at, (player, wagers));
                proof {
                    assert(entries@ =~= held.update(at as int, entries@[at as int]));
                    let after = listed(entries@);
                    assert(after =~= before.update(at as int, (name, list)));
                    assert(removed.1@ == before[at as int].1);
                    assert(distinct_keys(after)) by {
                        assert forall|i: int, j: int| 0 <= i < j < after.len() implies (
                        #[trigger] after[i]).0 != (#[trigger] after[j]).0 by {
                            assert(before[i].0 != before[j].0);
                        }
                    }
                }
                Some(removed.1)
            },
            None => {
                let ghost name = player@;
                let ghost list = wagers@;
                entries.push((player, wagers));
                proof {
                    let after = listed(entries@);
                    assert(after =~= before.push((name, list)));
                    assert(distinct_keys(after)) by {
                        assert forall|i: int, j: int| 0 <= i < j < after.len() implies (
                        #[trigger] after[i]).0 != (#[trigger] after[j]).0 by {
                            if j < before.len() {
                                assert(before[i].0 != before[j].0);
                            } else {
                                assert(before[i].0 != name);
                            }
                        }
                    }
                }
                None
            },
        };
        core::mem::swap(&mut self.entries, &mut entries);
        previous
    }
}

} // verus!
