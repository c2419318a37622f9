use card_wagers::card::Suit::Hearts;
use card_wagers::card::{Card, Suit};
use card_wagers::deck::{Deck, Error};

fn four_hearts() -> Deck {
    Deck::from_cards(vec![
        Card::new(1, Hearts).unwrap(),
        Card::new(2, Hearts).unwrap(),
        Card::new(3, Hearts).unwrap(),
        Card::new(4, Hearts).unwrap(),
    ])
}

#[test]
fn create_empty_deck() {
    let deck = Deck::new();
    assert!(deck.get_cards().is_empty())
}

#[test]
fn create_default_deck() {
    let deck = Deck::default();

    assert_eq!(deck.get_cards().len(), 52);

    for i in 0..52 {
        assert_eq!(deck.get_cards()[i].get_val() as usize, i);
    }
}

#[test]
fn create_single_deck() {
    let deck = Deck::new_multi(1);

    assert_eq!(deck.get_cards().len(), 52);

    for i in 0..52 {
        assert_eq!(deck.get_cards()[i].get_val() as usize, i);
    }
}

#[test]
fn create_multi_deck() {
    let deck_count = 6;
    let deck = Deck::new_multi(deck_count);

    assert_eq!(deck.get_cards().len(), (52 * deck_count) as usize);

    for i in 0..deck_count {
        for j in 0..52 {
            assert_eq!(deck.get_cards()[(i * 52 + j) as usize].get_val(), j as u8);
        }
    }
}

#[test]
fn split_all_but_one() {
    let mut orig_deck = four_hearts();

    let new_deck = orig_deck.split(0).unwrap();

    assert_eq!(orig_deck.get_cards().len(), 1);
    assert_eq!(orig_deck.get_cards()[0], Card::new(1, Hearts).unwrap());

    assert_eq!(new_deck.get_cards().len(), 3);
    for (i, card) in new_deck.get_cards().iter().enumerate() {
        assert_eq!(card.get_rank() as usize, i + 2);
        assert_eq!(card.get_suit(), Hearts);
    }
}

#[test]
fn split_one_end() {
    let mut orig_deck = four_hearts();

    let new_deck = orig_deck.split(2).unwrap();

    assert_eq!(orig_deck.get_cards().len(), 3);

    for (i, card) in orig_deck.get_cards().iter().enumerate() {
        assert_eq!(card.get_rank() as usize, i + 1);
        assert_eq!(card.get_suit(), Hearts);
    }

    assert_eq!(new_deck.get_cards().len(), 1);
    assert_eq!(new_deck.get_cards()[0], Card::new(4, Hearts).unwrap());
}

#[test]
fn split_middle() {
    let mut orig_deck = four_hearts();

    let new_deck = orig_deck.split(1).unwrap();

    assert_eq!(orig_deck.get_cards().len(), 2);
    assert_eq!(orig_deck.get_cards()[0], Card::new(1, Hearts).unwrap());
    assert_eq!(orig_deck.get_cards()[1], Card::new(2, Hearts).unwrap());

    assert_eq!(new_deck.get_cards().len(), 2);
    assert_eq!(new_deck.get_cards()[0], Card::new(3, Hearts).unwrap());
    assert_eq!(new_deck.get_cards()[1], Card::new(4, Hearts).unwrap());
}

#[test]
fn split_behind_the_last_card_is_an_error() {
    let mut deck = four_hearts();
    assert_eq!(deck.split(3).unwrap_err(), Error::InvalidPosition(3));
    assert_eq!(deck.split(4).unwrap_err(), Error::InvalidPosition(4));
    assert_eq!(deck.split(usize::MAX).unwrap_err(), Error::InvalidPosition(usize::MAX));
    assert_eq!(deck.len(), 4);
    assert_eq!(deck.get_cards()[3], Card::new(4, Hearts).unwrap());
}

#[test]
fn split_of_a_short_deck_is_an_error() {
    let mut empty = Deck::new();
    assert_eq!(empty.split(0).unwrap_err(), Error::TooFewCards(0));
    let mut single = Deck::from_cards(vec![Card::new(1, Hearts).unwrap()]);
    assert_eq!(single.split(0).unwrap_err(), Error::TooFewCards(1));
    assert_eq!(single.len(), 1);
}

#[test]
fn split_of_two_cards() {
    let mut deck =
        Deck::from_cards(vec![Card::new(9, Suit::Clubs).unwrap(), Card::new(1, Suit::Spades).unwrap()]);
    let lower = deck.split(0).unwrap();
    assert_eq!(deck.get_cards(), &[Card::new(9, Suit::Clubs).unwrap()]);
    assert_eq!(lower.get_cards(), &[Card::new(1, Suit::Spades).unwrap()]);
}

#[test]
fn split_parts_make_up_the_deck() {
    for position in 0..51usize {
        let mut upper = Deck::default();
        let lower = upper.split(position).unwrap();
        assert_eq!(upper.len() + lower.len(), 52);
        assert_eq!(upper.len(), position + 1);
        let mut joined: Vec<Card> = upper.get_cards().to_vec();
        joined.extend_from_slice(lower.get_cards());
        assert_eq!(joined.as_slice(), Deck::default().get_cards());
        assert_eq!(lower.get_dealt_cards().len(), 0);
    }
}

#[test]
fn split_moves_a_cursor_behind_the_cut() {
    let mut deck = four_hearts();
    assert!(deck.deal_multi(3).is_some());
    let lower = deck.split(1).unwrap();
    assert_eq!(deck.get_dealt_cards().len(), 2);
    assert_eq!(deck.remain_len(), 0);
    assert_eq!(lower.get_dealt_cards().len(), 0);
    assert_eq!(lower.remain_len(), 2);

    let mut deck = four_hearts();
    assert!(deck.deal().is_some());
    deck.split(2).unwrap();
    assert_eq!(deck.get_dealt_cards().len(), 1);
}

#[test]
fn multi_deck_ranks_and_suits() {
    let deck = Deck::new_multi(3);
    assert_eq!(deck.len(), 156);
    assert_eq!(deck.total_len(), 156);
    let suits = [Suit::Hearts, Suit::Spades, Suit::Clubs, Suit::Diamonds];
    for i in 0..156usize {
        let card = deck.get_cards()[i];
        assert_eq!(card.get_rank() as usize, i % 13 + 1);
        assert_eq!(card.get_suit(), suits[(i % 52) / 13]);
    }
}

#[test]
fn no_decks_is_an_empty_deck() {
    let deck = Deck::new_multi(0);
    assert_eq!(deck.len(), 0);
    assert_eq!(deck.remain_len(), 0);
    assert!(deck.get_top().is_none());
    assert!(deck.get_bottom().is_none());
}

#[test]
fn top_and_bottom() {
    let deck = four_hearts();
    assert_eq!(deck.get_top(), Some(Card::new(1, Hearts).unwrap()));
    assert_eq!(deck.get_bottom(), Some(Card::new(4, Hearts).unwrap()));
    let deck = Deck::default();
    assert_eq!(deck.get_top().unwrap().get_val(), 0);
    assert_eq!(deck.get_bottom().unwrap().get_val(), 51);
}

#[test]
fn deal_one_by_one() {
    let mut deck = four_hearts();
    for rank in 1..=4u8 {
        assert_eq!(deck.remain_len(), 5 - rank as usize);
        let card = *deck.deal().unwrap();
        assert_eq!(card, Card::new(rank, Hearts).unwrap());
        assert_eq!(deck.get_dealt_cards().len(), rank as usize);
    }
    assert!(deck.deal().is_none());
    assert_eq!(deck.get_dealt_cards().len(), 4);
    assert_eq!(deck.remain_len(), 0);
    assert_eq!(deck.len(), 4);
}

#[test]
fn deal_multi_gives_the_next_cards() {
    let mut deck = Deck::default();
    let cards: Vec<Card> = deck.deal_multi(3).unwrap().to_vec();
    assert_eq!(cards.len(), 3);
    for (i, card) in cards.iter().enumerate() {
        assert_eq!(card.get_val() as usize, i);
    }
    let cards: Vec<Card> = deck.deal_multi(2).unwrap().to_vec();
    assert_eq!(cards[0].get_val(), 3);
    assert_eq!(cards[1].get_val(), 4);
    assert_eq!(deck.get_dealt_cards().len(), 5);
    assert_eq!(deck.get_dealt_cards()[4].get_val(), 4);
    assert_eq!(deck.remain_len(), 47);
}

#[test]
fn deal_multi_of_too_many_changes_nothing() {
    let mut deck = four_hearts();
    assert!(deck.deal_multi(5).is_none());
    assert_eq!(deck.get_dealt_cards().len(), 0);
    assert!(deck.deal_multi(usize::MAX).is_none());
    assert!(deck.deal_multi(1).is_some());
    assert!(deck.deal_multi(4).is_none());
    assert_eq!(deck.get_dealt_cards().len(), 1);
    assert_eq!(deck.remain_len(), 3);
    assert_eq!(deck.get_cards().len(), 4);
}

#[test]
fn deal_multi_of_all_that_is_left() {
    let mut deck = four_hearts();
    assert!(deck.deal_multi(1).is_some());
    let cards: Vec<Card> = deck.deal_multi(3).unwrap().to_vec();
    assert_eq!(cards.len(), 3);
    assert_eq!(cards[2], Card::new(4, Hearts).unwrap());
    assert_eq!(deck.remain_len(), 0);
    assert_eq!(deck.deal_multi(0).unwrap().len(), 0);
    assert!(deck.deal_multi(1).is_none());
}

#[test]
fn shuffle_keeps_the_cards_and_resets_the_cursor() {
    let mut deck = Deck::new_multi(2);
    assert!(deck.deal_multi(10).is_some());
    deck.shuffle();
    assert_eq!(deck.len(), 104);
    assert_eq!(deck.get_dealt_cards().len(), 0);
    assert_eq!(deck.remain_len(), 104);
    let mut counts = [0u32; 52];
    for card in deck.get_cards() {
        counts[card.get_val() as usize] += 1;
    }
    assert!(counts.iter().all(|count| *count == 2));
}

#[test]
fn shuffle_changes_the_order() {
    let mut deck = Deck::new_multi(4);
    deck.shuffle();
    let unchanged = deck
        .get_cards()
        .iter()
        .zip(Deck::new_multi(4).get_cards().iter())
        .all(|(shuffled, fresh)| shuffled == fresh);
    assert!(!unchanged);
}

#[test]
#[should_panic]
fn invalid_split() {
    four_hearts().split(3).unwrap();
}

#[test]
fn four_card_deck_cut_behind_the_ace() {
    let mut upper = four_hearts();
    let mut lower = upper.split(0).unwrap();
    assert_eq!(upper.get_cards(), &[Card::new(1, Hearts).unwrap()]);
    assert_eq!(lower.get_cards().len(), 3);
    assert_eq!(upper.get_bottom().unwrap().get_rank(), 1);
    assert_eq!(lower.get_top().unwrap().get_rank(), 2);
    let last = lower.split(1).unwrap();
    assert_eq!(lower.get_bottom().unwrap().get_rank(), 3);
    assert_eq!(last.get_top().unwrap().get_rank(), 4);
    assert_eq!(last.len(), 1);
}
