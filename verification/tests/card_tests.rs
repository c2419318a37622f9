use card_wagers::card::{get_rank_count, get_suit_count, Card, Error, Suit};

const RANK_COUNT: u8 = 13;

#[test]
fn suit_to_ord() {
    assert_eq!(u8::from(Suit::Hearts), 0);
    assert_eq!(u8::from(Suit::Spades), 1);
    assert_eq!(u8::from(Suit::Clubs), 2);
    assert_eq!(u8::from(Suit::Diamonds), 3);
}

#[test]
fn ord_to_suit() -> Result<(), Error> {
    assert_eq!(Suit::try_from(0)?, Suit::Hearts);
    assert_eq!(Suit::try_from(1)?, Suit::Spades);
    assert_eq!(Suit::try_from(2)?, Suit::Clubs);
    assert_eq!(Suit::try_from(3)?, Suit::Diamonds);
    Ok(())
}

#[test]
#[should_panic]
fn invalid_ord_to_suit_edge() {
    Suit::try_from(4).unwrap();
}

#[test]
fn invalid_ord_to_suit_gives_the_ordinal() {
    assert_eq!(Suit::try_from(4), Err(Error::SuitOrdinal(4)));
    assert_eq!(Suit::try_from(255), Err(Error::SuitOrdinal(255)));
}

#[test]
fn create_card_suit() -> Result<(), Error> {
    let card = Card::new(1, Suit::Hearts)?;
    assert_eq!(card.get_val(), 0);

    let card = Card::new(1, Suit::Spades)?;
    assert_eq!(card.get_val(), RANK_COUNT);

    let card = Card::new(1, Suit::Clubs)?;
    assert_eq!(card.get_val(), RANK_COUNT * 2);

    let card = Card::new(1, Suit::Diamonds)?;
    assert_eq!(card.get_val(), RANK_COUNT * 3);
    Ok(())
}

#[test]
fn create_card_rank() -> Result<(), Error> {
    let card = Card::new(1, Suit::Hearts)?;
    assert_eq!(card.get_val(), 0);

    let card = Card::new(2, Suit::Hearts)?;
    assert_eq!(card.get_val(), 1);

    let card = Card::new(6, Suit::Hearts)?;
    assert_eq!(card.get_val(), 5);

    let card = Card::new(7, Suit::Hearts)?;
    assert_eq!(card.get_val(), 6);

    let card = Card::new(13, Suit::Hearts)?;
    assert_eq!(card.get_val(), 12);

    let card = Card::new(12, Suit::Hearts)?;
    assert_eq!(card.get_val(), 11);
    Ok(())
}

#[test]
#[should_panic]
fn create_card_invalid_rank_0() {
    Card::new(0, Suit::Hearts).unwrap();
}

#[test]
fn create_card_invalid_rank_0_gives_the_rank() {
    assert_eq!(Card::new(0, Suit::Diamonds).unwrap_err(), Error::InvalidRank(0));
}

#[test]
fn create_card_invalid_rank_above_count() {
    assert_eq!(
        Card::new(RANK_COUNT + 1, Suit::Hearts).unwrap_err(),
        Error::InvalidRank(RANK_COUNT + 1)
    );

    assert_eq!(
        Card::new(RANK_COUNT + 2, Suit::Hearts).unwrap_err(),
        Error::InvalidRank(RANK_COUNT + 2)
    );

    assert_eq!(
        Card::new(RANK_COUNT + 100, Suit::Hearts).unwrap_err(),
        Error::InvalidRank(RANK_COUNT + 100)
    );
}

#[test]
fn get_rank() {
    let card = Card::from_val(0).unwrap();
    assert_eq!(card.get_rank(), 1);

    let card = Card::from_val(13).unwrap();
    assert_eq!(card.get_rank(), 1);

    let card = Card::from_val(5).unwrap();
    assert_eq!(card.get_rank(), 6);

    let card = Card::from_val(12).unwrap();
    assert_eq!(card.get_rank(), 13);

    let card = Card::from_val(13).unwrap();
    assert_eq!(card.get_rank(), 1);

    let card = Card::from_val(13).unwrap();
    assert_eq!(card.get_rank(), 1);
}

#[test]
fn get_suit() {
    let card = Card::from_val(0).unwrap();
    assert_eq!(card.get_suit(), Suit::Hearts);

    let card = Card::from_val(13).unwrap();
    assert_eq!(card.get_suit(), Suit::Spades);

    let card = Card::from_val(26).unwrap();
    assert_eq!(card.get_suit(), Suit::Clubs);

    let card = Card::from_val(39).unwrap();
    assert_eq!(card.get_suit(), Suit::Diamonds);

    let card = Card::from_val(5).unwrap();
    assert_eq!(card.get_suit(), Suit::Hearts);

    let card = Card::from_val(12).unwrap();
    assert_eq!(card.get_suit(), Suit::Hearts);
}

#[test]
fn counts_of_ranks_and_suits() {
    assert_eq!(get_rank_count(), 13);
    assert_eq!(get_suit_count(), 4);
}

#[test]
fn every_rank_and_suit_round_trips() {
    let suits = [Suit::Hearts, Suit::Spades, Suit::Clubs, Suit::Diamonds];
    for (ordinal, suit) in suits.iter().enumerate() {
        for rank in 1..=13u8 {
            let card = Card::new(rank, *suit).unwrap();
            assert_eq!(card.get_rank(), rank);
            assert_eq!(card.get_suit(), *suit);
            assert_eq!(card.get_val(), ordinal as u8 * 13 + (rank - 1));
            assert_eq!(Card::from_val(card.get_val()).unwrap(), card);
        }
    }
}

#[test]
fn from_val_last_card_and_beyond() {
    let card = Card::from_val(51).unwrap();
    assert_eq!(card.get_rank(), 13);
    assert_eq!(card.get_suit(), Suit::Diamonds);
    assert_eq!(Card::from_val(52).unwrap_err(), Error::SuitOrdinal(4));
    assert_eq!(Card::from_val(255).unwrap_err(), Error::SuitOrdinal(19));
}
