//! What a game is set up with: the wagers of its players and the house.

pub mod cta;
pub mod fts;

use vstd::prelude::*;

use crate::keyed::distinct_keys;
use crate::wager::{all_wagers, positive_amounts, Entries, WagerMap};

verus! {

/// Why a set of wagers was turned down.
#[derive(PartialEq, Eq, Debug)]
pub enum ConfigError {
    /// No player has an entry.
    EmptyWager,
    /// Some players have an entry without wagers; these are their
    /// identifiers, in the order of the entries.
    EmptyWagerForPlayers(Vec<String>),
    /// Two wagers have this identifier.
    DuplicatedWagerId(u32),
}

/// The identifiers of the players whose entry holds no wager, in the order
/// of the entries.
pub open spec fn players_without_wagers<T>(entries: Entries<T>) -> Seq<Seq<char>>
    decreases entries.len(),
{
    if entries.len() == 0 {
        Seq::empty()
    } else if entries.last().1.len() == 0 {
        players_without_wagers(entries.drop_last()).push(entries.last().0)
    } else {
        players_without_wagers(entries.drop_last())
    }
}

/// The identifiers of all the wagers, in the order of `all_wagers`.
pub open spec fn wager_ids<T>(entries: Entries<T>) -> Seq<u32> {
    Seq::new(all_wagers(entries).len(), |k: int| all_wagers(entries)[k].wager.id())
}

/// `id` is the first identifier of `ids` that has occurred before: the
/// identifiers before some position are all different, and the one at that
/// position, `id`, is among them.
pub open spec fn first_repeat(ids: Seq<u32>, id: u32) -> bool {
    exists|at: int|
        0 <= at < ids.len() && ids[at] == id && #[trigger] ids.take(at).no_duplicates()
            && ids.take(at).contains(id)
}

/// The wagers that a game can be set up with: some player has an entry,
/// every entry holds a wager, and no identifier of a wager occurs twice.
pub open spec fn valid_wagers<T>(entries: Entries<T>) -> bool {
    &&& entries.len() > 0
    &&& players_without_wagers(entries).len() == 0
    &&& wager_ids(entries).no_duplicates()
}

/// `error` is what the check of `entries` gives: the first of these that
/// holds. No player has an entry; some entry holds no wager; an identifier of
/// a wager occurs twice.
pub open spec fn rejects<T>(entries: Entries<T>, error: ConfigError) -> bool {
    match error {
        ConfigError::EmptyWager => entries.len() == 0,
        ConfigError::EmptyWagerForPlayers(players) => {
            &&& entries.len() > 0
            &&& players_without_wagers(entries).len() > 0
            &&& names(players@) == players_without_wagers(entries)
        },
        ConfigError::DuplicatedWagerId(id) => {
            &&& entries.len() > 0
            &&& players_without_wagers(entries).len() == 0
            &&& first_repeat(wager_ids(entries), id)
        },
    }
}

/// The characters of each string.
pub open spec fn names(strings: Seq<String>) -> Seq<Seq<char>> {
    Seq::new(strings.len(), |i: int| strings[i]@)
}

/// The wagers of all players and the identifier of the house.
#[derive(Debug)]
pub struct Config<T> {
    wagers: WagerMap<T>,
    house_id: String,
}

impl<T> Config<T> {
    /// The entries of the table of wagers.
    pub closed spec fn entries(self) -> Entries<T> {
        self.wagers@
    }

    /// The wagers are valid and of positive amounts, and no two entries are
    /// of the same player.
    #[verifier::type_invariant]
    pub open spec fn wf(self) -> bool {
        &&& distinct_keys(self.entries())
        &&& valid_wagers(self.entries())
        &&& positive_amounts(self.entries())
    }

    /// The characters of the identifier of the house.
    pub closed spec fn house_id(self) -> Seq<char> {
        self.house_id@
    }

    /// Checks the wagers: first that some player has an entry, then that no
    /// entry is without wagers, then that no identifier of a wager occurs
    /// twice. The first check that fails gives the error.
    pub fn new(wagers: WagerMap<T>, house_id: String) -> (result: Result<Config<T>, ConfigError>)
        ensures
            valid_wagers(wagers@) ==> (result matches Ok(config) && config.wf() && config.entries()
                == wagers@ && config.house_id() == house_id@),
            !valid_wagers(wagers@) ==> (result matches Err(error) && rejects(wagers@, error)),
    {
        proof {
            use_type_invariant(&wagers);
        }
        if wagers.is_empty() {
            return Err(ConfigError::EmptyWager);
        }
        let mut without: Vec<String> = Vec::new();
        let mut i: usize = 0;
        while i < wagers.len()
            invariant
                i <= wagers@.len(),
                names(without@) == players_without_wagers(wagers@.take(i as int)),
            decreases wagers@.len() - i,
        {
            proof {
                assert(wagers@.take(i + 1).drop_last() =~= wagers@.take(i as int));
            }
            if let (Some(player), Some(list)) = (wagers.player_at(i), wagers.wagers_at(i)) {
                if list.len() == 0 {
                    let ghost before = names(without@);
                    without.push(player.get_id().to_owned());
                    proof {
                        assert(names(without@) =~= before.push(wagers@[i as int].0));
                    }
                }
            }
            i += 1;
        }
        proof {
            assert(wagers@.take(i as int) =~= wagers@);
        }
        if without.len() > 0 {
            return Err(ConfigError::EmptyWagerForPlayers(without));
        }
        let row = wagers.flatten();
        let ghost ids = wager_ids(wagers@);
        let mut seen: Vec<u32> = Vec::new();
        let mut k: usize = 0;
        while k < row.len()
            invariant
                k <= row@.len(),
                row@.len() == ids.len(),
                ids == wager_ids(wagers@),
                forall|n: int| 0 <= n < row@.len() ==> (#[trigger] row@[n]).wager.id() == ids[n],
                seen@ == ids.take(k as int),
                seen@.no_duplicates(),
                forall|n: int| 0 <= n < k ==> (#[trigger] row@[n]).wager.amount() > 0,
                wagers@.len() > 0,
                players_without_wagers(wagers@).len() == 0,
            decreases row@.len() - k,
        {
            let wager = row[k].wager;
            let id: u32 = *wager.get_id();
            proof {
                use_type_invariant(wager);
            }
            if contains_id(&seen, id) {
                proof {
                    assert(ids.take(k as int).contains(id));
                    lemma_repeat_has_duplicates(ids, k as int);
                }
                return Err(ConfigError::DuplicatedWagerId(id));
            }
            seen.push(id);
            proof {
                assert(seen@ =~= ids.take(k + 1));
            }
            k += 1;
        }
        proof {
            assert(ids.take(k as int) =~= ids);
            assert forall|n: int| 0 <= n < all_wagers(wagers@).len() implies (#[trigger] all_wagers(
                wagers@,
            )[n]).wager.amount() > 0 by {
                assert(row@[n]@.wager.amount() > 0);
            }
        }
        Ok(Config { wagers, house_id })
    }

    /// The table of wagers.
    pub fn get_wagers(&self) -> (wagers: &WagerMap<T>)
        ensures
            wagers@ == self.entries(),
            valid_wagers(wagers@),
            positive_amounts(wagers@),
    {
        proof {
            use_type_invariant(self);
        }
        &self.wagers
    }

    /// The identifier of the house.
    pub fn get_house_id(&self) -> (house_id: &str)
        ensures
            house_id@ == self.house_id(),
    {
        self.house_id.as_str()
    }
}

/// Whether `id` is among `seen`.
fn contains_id(seen: &Vec<u32>, id: u32) -> (found: bool)
    ensures
        found == seen@.contains(id),
{
    let mut i: usize = 0;
    while i < seen.len()
        invariant
            i <= seen@.len(),
            forall|n: int| 0 <= n < i ==> seen@[n] != id,
        decreases seen@.len() - i,
    {
        if seen[i] == id {
            return true;
        }
        i += 1;
    }
    false
}

/// Identifiers of which one occurs again at `at` are not all different.
proof fn lemma_repeat_has_duplicates(ids: Seq<u32>, at: int)
    requires
        0 <= at < ids.len(),
        ids.take(at).contains(ids[at]),
    ensures
        !ids.no_duplicates(),
{
    let earlier = choose|n: int| 0 <= n < at && ids.take(at)[n] == ids[at];
    assert(ids[earlier] == ids[at]);
}

/// Every entry holds a wager exactly when no player is without wagers.
pub proof fn lemma_players_without_wagers<T>(entries: Entries<T>)
    ensures
        players_without_wagers(entries).len() == 0 <==> forall|i: int|
            0 <= i < entries.len() ==> (#[trigger] entries[i]).1.len() > 0,
    decreases entries.len(),
{
    if entries.len() > 0 {
        lemma_players_without_wagers(entries.drop_last());
        if players_without_wagers(entries).len() == 0 {
            assert forall|i: int| 0 <= i < entries.len() implies (#[trigger] entries[i]).1.len()
                > 0 by {
                if i < entries.len() - 1 {
                    assert(entries.drop_last()[i] == entries[i]);
                }
            }
        } else if entries.last().1.len() > 0 {
            let i = choose|i: int|
                0 <= i < entries.drop_last().len() && !((#[trigger] entries.drop_last()[i]).1.len()
                    > 0);
            assert(entries[i] == entries.drop_last()[i]);
        }
    }
}

/// Only one identifier is the first that occurs again.
pub proof fn lemma_first_repeat_is_unique(ids: Seq<u32>, id: u32, other: u32)
    requires
        first_repeat(ids, id),
        first_repeat(ids, other),
    ensures
        id == other,
{
    let at = choose|at: int|
        0 <= at < ids.len() && ids[at] == id && #[trigger] ids.take(at).no_duplicates()
            && ids.take(at).contains(id);
    let other_at = choose|at: int|
        0 <= at < ids.len() && ids[at] == other && #[trigger] ids.take(at).no_duplicates()
            && ids.take(at).contains(other);
    if at < other_at {
        lemma_repeat_within(ids, at, other_at);
    } else if other_at < at {
        lemma_repeat_within(ids, other_at, at);
    }
}

/// Identifiers of which one occurs again at `at` hold a duplicate before
/// every later position.
proof fn lemma_repeat_within(ids: Seq<u32>, at: int, later: int)
    requires
        0 <= at < later <= ids.len(),
        ids.take(at).contains(ids[at]),
    ensures
        !ids.take(later).no_duplicates(),
{
    let earlier = choose|n: int| 0 <= n < at && ids.take(at)[n] == ids[at];
    assert(ids.take(later)[earlier] == ids.take(later)[at]);
}

/// Wagers are turned down for one reason only: two errors that the check of
/// the same wagers may give are the same error.
pub proof fn lemma_rejection_is_unique<T>(
    entries: Entries<T>,
    error: ConfigError,
    other: ConfigError,
)
    requires
        rejects(entries, error),
        rejects(entries, other),
    ensures
        match (error, other) {
            (ConfigError::EmptyWager, ConfigError::EmptyWager) => true,
            (
                ConfigError::EmptyWagerForPlayers(players),
                ConfigError::EmptyWagerForPlayers(others),
            ) => names(players@) == names(others@),
            (ConfigError::DuplicatedWagerId(id), ConfigError::DuplicatedWagerId(other_id)) => id
                == other_id,
            _ => false,
        },
{
    match (error, other) {
        (ConfigError::DuplicatedWagerId(id), ConfigError::DuplicatedWagerId(other_id)) => {
            lemma_first_repeat_is_unique(wager_ids(entries), id, other_id);
        },
        _ => {},
    }
}

/// Wagers that are turned down are not valid.
pub proof fn lemma_rejected_wagers_are_not_valid<T>(entries: Entries<T>, error: ConfigError)
    requires
        rejects(entries, error),
    ensures
        !valid_wagers(entries),
{
    match error {
        ConfigError::DuplicatedWagerId(id) => {
            let ids = wager_ids(entries);
            let at = choose|at: int|
                0 <= at < ids.len() && ids[at] == id && #[trigger] ids.take(at).no_duplicates()
                    && ids.take(at).contains(id);
            lemma_repeat_has_duplicates(ids, at);
        },
        _ => {},
    }
}

} // verus!
