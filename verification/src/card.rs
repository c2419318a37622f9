//! Playing cards: thirteen ranks in each of four suits.

use vstd::prelude::*;

verus! {

/// Number of ranks in a suit.
pub const RANK_COUNT: u8 = 13;

/// Number of suits in a deck.
pub const SUIT_COUNT: u8 = 4;

/// Number of ranks in a suit.
pub fn get_rank_count() -> (count: u8)
    ensures
        count == RANK_COUNT,
{
    RANK_COUNT
}

/// Number of suits in a deck.
pub fn get_suit_count() -> (count: u8)
    ensures
        count == SUIT_COUNT,
{
    SUIT_COUNT
}

/// Why a card or a suit could not be made.
#[derive(PartialEq, Eq, Structural, Clone, Copy, Debug)]
pub enum Error {
    /// The number names no suit: it is 4 or more.
    SuitOrdinal(u8),
    /// The rank is 0 or above 13.
    InvalidRank(u8),
}

/// The four suits, in the order in which a standard deck runs through them.
#[derive(PartialEq, Eq, Structural, Clone, Copy, Debug)]
pub enum Suit {
    Hearts,
    Spades,
    Clubs,
    Diamonds,
}

impl Suit {
    /// The suit's number: hearts 0, spades 1, clubs 2, diamonds 3.
    pub open spec fn ordinal(self) -> int {
        match self {
            Suit::Hearts => 0,
            Suit::Spades => 1,
            Suit::Clubs => 2,
            Suit::Diamonds => 3,
        }
    }

    /// The suit with the given number, for numbers below 4.
    pub open spec fn of_ordinal(ordinal: int) -> Suit {
        if ordinal == 0 {
            Suit::Hearts
        } else if ordinal == 1 {
            Suit::Spades
        } else if ordinal == 2 {
            Suit::Clubs
        } else {
            Suit::Diamonds
        }
    }
}

impl TryFrom<u8> for Suit {
    type Error = Error;

    /// The suit with the given number, for numbers below 4.
    fn try_from(value: u8) -> (result: Result<Suit, Error>) {
        match value {
            0 => Ok(Suit::Hearts),
            1 => Ok(Suit::Spades),
            2 => Ok(Suit::Clubs),
            3 => Ok(Suit::Diamonds),
            _ => Err(Error::SuitOrdinal(value)),
        }
    }
}

impl vstd::std_specs::convert::TryFromSpecImpl<u8> for Suit {
    open spec fn obeys_try_from_spec() -> bool {
        true
    }

    open spec fn try_from_spec(value: u8) -> Result<Suit, Error> {
        if value < SUIT_COUNT {
            Ok(Suit::of_ordinal(value as int))
        } else {
            Err(Error::SuitOrdinal(value))
        }
    }
}

impl From<Suit> for u8 {
    /// The number of the suit.
    fn from(value: Suit) -> (ordinal: u8) {
        match value {
            Suit::Hearts => 0,
            Suit::Spades => 1,
            Suit::Clubs => 2,
            Suit::Diamonds => 3,
        }
    }
}

impl vstd::std_specs::convert::FromSpecImpl<Suit> for u8 {
    open spec fn obeys_from_spec() -> bool {
        true
    }

    open spec fn from_spec(value: Suit) -> u8 {
        value.ordinal() as u8
    }
}

/// One of the 52 cards, held as the number `suit * 13 + (rank - 1)`.
#[derive(PartialEq, Eq, Structural, Clone, Copy, Debug)]
pub struct Card {
    val: u8,
}

impl Card {
    /// Every card's number is below 52.
    #[verifier::type_invariant]
    pub closed spec fn wf(self) -> bool {
        self.val < 52
    }

    /// The card's number, which tells cards apart.
    pub closed spec fn ordinal(self) -> int {
        self.val as int
    }

    /// The card whose number is `ordinal`, for numbers below 52.
    pub closed spec fn of_ordinal(ordinal: int) -> Card {
        Card { val: ordinal as u8 }
    }

    /// The rank, from 1 (the ace) to 13.
    pub open spec fn rank(self) -> int {
        self.ordinal() % 13 + 1
    }

    /// The suit.
    pub open spec fn suit(self) -> Suit {
        Suit::of_ordinal(self.ordinal() / 13)
    }

    /// The number that `new` gives the card of a rank and a suit.
    pub open spec fn ordinal_of(rank: int, suit: Suit) -> int {
        suit.ordinal() * 13 + (rank - 1)
    }

    /// The card of a rank from 1 to 13 and a suit.
    pub fn new(rank: u8, suit: Suit) -> (result: Result<Card, Error>)
        ensures
            1 <= rank <= RANK_COUNT ==> result == Ok::<Card, Error>(
                Card::of_ordinal(Card::ordinal_of(rank as int, suit)),
            ) && result->Ok_0.rank() == rank && result->Ok_0.suit() == suit,
            !(1 <= rank <= RANK_COUNT) ==> result == Err::<Card, Error>(Error::InvalidRank(rank)),
    {
        if rank == 0 || rank > RANK_COUNT {
            return Err(Error::InvalidRank(rank));
        }
        let suit_ordinal: u8 = u8::from(suit);
        Ok(Card { val: suit_ordinal * RANK_COUNT + (rank - 1) })
    }

    /// The card with the given number: `Card::from_val(13)` is the ace of spades.
    pub fn from_val(val: u8) -> (result: Result<Card, Error>)
        ensures
            val < 52 ==> result == Ok::<Card, Error>(Card::of_ordinal(val as int)),
            val >= 52 ==> result == Err::<Card, Error>(Error::SuitOrdinal(val / RANK_COUNT)),
    {
        if val >= RANK_COUNT * SUIT_COUNT {
            return Err(Error::SuitOrdinal(val / RANK_COUNT));
        }
        Ok(Card { val })
    }

    /// The number of the card.
    pub fn get_val(&self) -> (val: u8)
        ensures
            val == self.ordinal(),
            val < 52,
    {
        proof {
            use_type_invariant(self);
        }
        self.val
    }

    /// The rank, from 1 (the ace) to 13.
    pub fn get_rank(&self) -> (rank: u8)
        ensures
            rank == self.rank(),
            1 <= rank <= RANK_COUNT,
    {
        proof {
            use_type_invariant(self);
        }
        self.val % RANK_COUNT + 1
    }

    /// The suit.
    pub fn get_suit(&self) -> (suit: Suit)
        ensures
            suit == self.suit(),
    {
        proof {
            use_type_invariant(self);
        }
        let ordinal: u8 = self.val / RANK_COUNT;
        if ordinal == 0 {
            Suit::Hearts
        } else if ordinal == 1 {
            Suit::Spades
        } else if ordinal == 2 {
            Suit::Clubs
        } else {
            Suit::Diamonds
        }
    }

    /// A well-formed card's number is below 52, so its rank is between 1 and 13.
    pub proof fn lemma_ordinal_range(self)
        requires
            self.wf(),
        ensures
            0 <= self.ordinal() < 52,
            1 <= self.rank() <= 13,
            0 <= self.suit().ordinal() < 4,
            self.ordinal() == Card::ordinal_of(self.rank(), self.suit()),
    {
    }

    /// The card made from a number below 52 is well formed and has that number.
    pub proof fn lemma_of_ordinal(ordinal: int)
        requires
            0 <= ordinal < 52,
        ensures
            Card::of_ordinal(ordinal).wf(),
            Card::of_ordinal(ordinal).ordinal() == ordinal,
    {
    }

    /// Two cards with the same number are the same card.
    pub proof fn lemma_ordinal_injective(self, other: Card)
        requires
            self.wf(),
            other.wf(),
            self.ordinal() == other.ordinal(),
        ensures
            self == other,
    {
    }
}

} // verus!
