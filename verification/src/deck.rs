//! A deck: an ordered run of cards with a cursor at the next card to deal.

use rand::seq::SliceRandom;
use vstd::prelude::*;
use vstd::slice::slice_subrange;

use crate::card::{Card, Suit};

verus! {

/// Why a deck could not be split.
#[derive(PartialEq, Eq, Structural, Clone, Copy, Debug)]
pub enum Error {
    /// The deck holds fewer than two cards; the number is its length.
    TooFewCards(usize),
    /// No card follows the one at this position.
    InvalidPosition(usize),
}

/// The cards of `count` standard decks one after another: card `i` has the
/// number `i % 52`, so each deck runs through the suits in order and, within
/// a suit, through the ranks from the ace up.
pub open spec fn standard_cards(count: nat) -> Seq<Card> {
    Seq::new(52 * count, |i: int| Card::of_ordinal(i % 52))
}

/// Cards in a row, the first of them on top, of which the first so many
/// have been dealt.
#[derive(Debug)]
pub struct Deck {
    cards: Vec<Card>,
    next_idx: usize,
}

impl View for Deck {
    type V = Seq<Card>;

    /// The cards, from the top of the deck to its bottom.
    closed spec fn view(&self) -> Seq<Card> {
        self.cards@
    }
}

/// Puts the cards in a random order.
///
/// Calls `rand::seq::SliceRandom::shuffle` on the cards with the generator
/// that `rand::thread_rng` returns. That function only swaps elements of the
/// slice, so the contract claims that the cards afterwards are the cards
/// before, each as often as before. Nothing is claimed of their order.
#[verifier::external_body]
fn shuffle_cards(cards: &mut Vec<Card>)
    ensures
        final(cards)@.to_multiset() == old(cards)@.to_multiset(),
        final(cards)@.len() == old(cards)@.len(),
{
    cards.shuffle(&mut rand::thread_rng());
}

impl Deck {
    /// Number of cards dealt so far: the cards before the cursor.
    pub closed spec fn cursor(self) -> nat {
        self.next_idx as nat
    }

    /// The cursor is inside the deck or just behind its last card.
    #[verifier::type_invariant]
    pub open spec fn wf(self) -> bool {
        self.cursor() <= self@.len()
    }

    /// A deck without cards.
    pub fn new() -> (deck: Deck)
        ensures
            deck.wf(),
            deck@ == Seq::<Card>::empty(),
            deck.cursor() == 0,
    {
        Deck { cards: Vec::new(), next_idx: 0 }
    }

    /// `count` standard decks one after another, not shuffled.
    pub fn new_multi(count: u32) -> (deck: Deck)
        requires
            52 * count <= usize::MAX,
        ensures
            deck.wf(),
            deck@ == standard_cards(count as nat),
            deck.cursor() == 0,
    {
        let mut cards: Vec<Card> = Vec::new();
        let mut deck_no: u32 = 0;
        while deck_no < count
            invariant
                deck_no <= count,
                cards@.len() == 52 * deck_no,
                forall|i: int| 0 <= i < cards@.len() ==> cards@[i] == Card::of_ordinal(i % 52),
            decreases count - deck_no,
        {
            let mut val: u8 = 0;
            while val < 52
                invariant
                    val <= 52,
                    deck_no < count,
                    cards@.len() == 52 * deck_no + val,
                    forall|i: int| 0 <= i < cards@.len() ==> cards@[i] == Card::of_ordinal(i % 52),
                decreases 52 - val,
            {
                if let Ok(card) = Card::from_val(val) {
                    cards.push(card);
                }
                val = val + 1;
            }
            deck_no = deck_no + 1;
        }
        proof {
            assert(cards@ =~= standard_cards(count as nat));
        }
        Deck { cards, next_idx: 0 }
    }

    /// A deck of the given cards, the first of them on top, with nothing
    /// dealt.
    pub fn from_cards(cards: Vec<Card>) -> (deck: Deck)
        ensures
            deck.wf(),
            deck@ == cards@,
            deck.cursor() == 0,
    {
        Deck { cards, next_idx: 0 }
    }

    /// All the cards of the deck, dealt or not, from the top to the bottom.
    pub fn get_cards(&self) -> (cards: &[Card])
        ensures
            cards@ == self@,
    {
        self.cards.as_slice()
    }

    /// Number of cards in the deck, dealt or not.
    pub fn len(&self) -> (len: usize)
        ensures
            len == self@.len(),
    {
        self.cards.len()
    }

    /// Number of cards in the deck, dealt or not.
    pub fn total_len(&self) -> (len: usize)
        ensures
            len == self@.len(),
    {
        self.cards.len()
    }

    /// Number of cards not dealt yet.
    pub fn remain_len(&self) -> (len: usize)
        ensures
            len == self@.len() - self.cursor(),
    {
        proof {
            use_type_invariant(self);
        }
        self.cards.len() - self.next_idx
    }

    /// Cuts the deck behind the card at `index`: the deck keeps the cards up
    /// to and including that card, and the cards after it leave as a new deck
    /// with nothing dealt. A cursor that stood behind the cut moves to the end
    /// of what the deck keeps.
    pub fn split(&mut self, index: usize) -> (result: Result<Deck, Error>)
        ensures
            old(self)@.len() > 1 && index < old(self)@.len() - 1 ==> {
                &&& result is Ok
                &&& result->Ok_0.wf()
                &&& result->Ok_0@ == old(self)@.subrange(index + 1, old(self)@.len() as int)
                &&& result->Ok_0.cursor() == 0
                &&& final(self)@ == old(self)@.subrange(0, index + 1)
                &&& final(self)@ + result->Ok_0@ == old(self)@
                &&& final(self)@.len() + result->Ok_0@.len() == old(self)@.len()
                &&& final(self).cursor() == if old(self).cursor() <= index {
                    old(self).cursor()
                } else {
                    (index + 1) as nat
                }
            },
            old(self)@.len() <= 1 ==> result == Err::<Deck, Error>(
                Error::TooFewCards(old(self)@.len() as usize),
            ),
            old(self)@.len() > 1 && index >= old(self)@.len() - 1 ==> result == Err::<Deck, Error>(
                Error::InvalidPosition(index),
            ),
            result is Err ==> *final(self) == *old(self),
            final(self).wf(),
    {
        proof {
            use_type_invariant(&*self);
        }
        let len = self.cards.len();
        if len <= 1 {
            return Err(Error::TooFewCards(len));
        }
        if index >= len - 1 {
            return Err(Error::InvalidPosition(index));
        }
        let cursor = self.next_idx;
        self.next_idx = 0;
        let mut cards: Vec<Card> = Vec::new();
        core::mem::swap(&mut self.cards, &mut cards);
        let tail = cards.split_off(index + 1);
        core::mem::swap(&mut self.cards, &mut cards);
        self.next_idx = if cursor > index + 1 {
            index + 1
        } else {
            cursor
        };
        proof {
            lemma_split_keeps_cards(old(self)@, index as int);
        }
        Ok(Deck { cards: tail, next_idx: 0 })
    }

    /// Puts all the cards of the deck, dealt or not, in a random order and
    /// moves the cursor back to the first card. Which order the cards come
    /// into is left to chance; the deck holds the same cards afterwards.
    pub fn shuffle(&mut self)
        ensures
            final(self).wf(),
            final(self)@.to_multiset() == old(self)@.to_multiset(),
            final(self)@.len() == old(self)@.len(),
            final(self).cursor() == 0,
    {
        self.next_idx = 0;
        let mut cards: Vec<Card> = Vec::new();
        core::mem::swap(&mut self.cards, &mut cards);
        shuffle_cards(&mut cards);
        core::mem::swap(&mut self.cards, &mut cards);
    }

    /// Deals the card at the cursor, if there is one.
    pub fn deal(&mut self) -> (card: Option<&Card>)
        ensures
            final(self).wf(),
            final(self)@ == old(self)@,
            old(self).cursor() < old(self)@.len() ==> card == Some(
                &old(self)@[old(self).cursor() as int],
            ) && final(self).cursor() == old(self).cursor() + 1,
            old(self).cursor() >= old(self)@.len() ==> card.is_none() && final(self).cursor()
                == old(self).cursor(),
    {
        proof {
            use_type_invariant(&*self);
        }
        if self.next_idx == self.cards.len() {
            return None;
        }
        let at = self.next_idx;
        self.next_idx = at + 1;
        Some(&self.cards[at])
    }

    /// Deals the next `count` cards if that many are left, and none otherwise.
    pub fn deal_multi(&mut self, count: usize) -> (cards: Option<&[Card]>)
        ensures
            final(self).wf(),
            final(self)@ == old(self)@,
            old(self).cursor() + count <= old(self)@.len() ==> cards is Some && cards->Some_0@
                == old(self)@.subrange(old(self).cursor() as int, old(self).cursor() + count)
                && final(self).cursor() == old(self).cursor() + count,
            old(self).cursor() + count > old(self)@.len() ==> cards.is_none()
                && final(self).cursor() == old(self).cursor(),
    {
        proof {
            use_type_invariant(&*self);
        }
        if count > self.cards.len() - self.next_idx {
            return None;
        }
        let start = self.next_idx;
        self.next_idx = start + count;
        Some(slice_subrange(self.cards.as_slice(), start, start + count))
    }

    /// The cards dealt so far, in the order in which they were dealt.
    pub fn get_dealt_cards(&self) -> (cards: &[Card])
        ensures
            cards@ == self@.subrange(0, self.cursor() as int),
            self.cursor() <= self@.len(),
    {
        proof {
            use_type_invariant(self);
        }
        slice_subrange(self.cards.as_slice(), 0, self.next_idx)
    }

    /// The first card of the deck, if it has any.
    pub fn get_top(&self) -> (card: Option<Card>)
        ensures
            self@.len() > 0 ==> card == Some(self@[0]),
            self@.len() == 0 ==> card.is_none(),
    {
        if self.cards.len() == 0 {
            None
        } else {
            Some(self.cards[0])
        }
    }

    /// The last card of the deck, if it has any.
    pub fn get_bottom(&self) -> (card: Option<Card>)
        ensures
            self@.len() > 0 ==> card == Some(self@[self@.len() - 1]),
            self@.len() == 0 ==> card.is_none(),
    {
        let len = self.cards.len();
        if len == 0 {
            None
        } else {
            Some(self.cards[len - 1])
        }
    }
}

impl Default for Deck {
    /// One standard deck.
    fn default() -> (deck: Deck)
        ensures
            deck.wf(),
            deck@ == standard_cards(1),
            deck.cursor() == 0,
    {
        Deck::new_multi(1)
    }
}

/// In `count` standard decks one after another, the card at `index` has
/// the rank `index % 13 + 1`, and its suit is the one with the number
/// `index % 52 / 13`: each deck of 52 cards runs through the suits in order
/// and, within a suit, through the ranks from the ace up.
pub proof fn lemma_standard_cards(count: nat, index: int)
    requires
        0 <= index < 52 * count,
    ensures
        standard_cards(count).len() == 52 * count,
        standard_cards(count)[index].wf(),
        standard_cards(count)[index].ordinal() == index % 52,
        standard_cards(count)[index].rank() == index % 13 + 1,
        standard_cards(count)[index].suit() == Suit::of_ordinal(index % 52 / 13),
{
    Card::lemma_of_ordinal(index % 52);
    assert((index % 52) % 13 == index % 13) by {
        assert(index == 52 * (index / 52) + index % 52);
        assert(index == 13 * (4 * (index / 52) + (index % 52) / 13) + (index % 52) % 13);
        vstd::arithmetic::div_mod::lemma_fundamental_div_mod_converse(
            index,
            13,
            4 * (index / 52) + (index % 52) / 13,
            (index % 52) % 13,
        );
    }
}

/// The two parts that a cut leaves of a row of cards make up the row: the
/// lower part behind the upper part is the row as it was.
pub proof fn lemma_split_keeps_cards(cards: Seq<Card>, index: int)
    requires
        0 <= index < cards.len() - 1,
    ensures
        cards.subrange(0, index + 1) + cards.subrange(index + 1, cards.len() as int) == cards,
        cards.subrange(0, index + 1).len() + cards.subrange(index + 1, cards.len() as int).len()
            == cards.len(),
{
    assert(cards.subrange(0, index + 1) + cards.subrange(index + 1, cards.len() as int) =~= cards);
}

} // verus!
