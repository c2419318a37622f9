use card_wagers::config::cta::CtaWagerType;
use card_wagers::payout::{settle, Error, Outcome, Payout};
use card_wagers::player::Player;
use card_wagers::wager::Wager;

fn forward(id: u32, amount: i32) -> Wager<CtaWagerType> {
    Wager::new(id, CtaWagerType::Forward, amount).unwrap()
}

fn amounts(payouts: &[Payout]) -> Vec<(String, Option<u32>, i32)> {
    payouts
        .iter()
        .map(|payout| (payout.get_player_id().to_string(), payout.get_wager_id(), payout.get_amount()))
        .collect()
}

#[test]
fn payout_for_a_wager() {
    let wager = forward(3, 100);
    let payout = Payout::new("ann", Some(&wager), 400, 100).unwrap();
    assert_eq!(payout.get_player_id(), "ann");
    assert_eq!(payout.get_wager_id(), Some(3));
    assert_eq!(payout.get_amount(), 400);
}

#[test]
fn payout_for_the_house() {
    let payout = Payout::new::<CtaWagerType>("house", None, -400, 0).unwrap();
    assert_eq!(payout.get_player_id(), "house");
    assert_eq!(payout.get_wager_id(), None);
    assert_eq!(payout.get_amount(), -400);
}

#[test]
fn payout_of_nothing_is_an_error() {
    let wager = forward(3, 100);
    assert_eq!(Payout::new("ann", Some(&wager), 0, 100).unwrap_err(), Error::ZeroAmount);
    assert_eq!(Payout::new::<CtaWagerType>("house", None, 0, 0).unwrap_err(), Error::ZeroAmount);
}

#[test]
fn loss_up_to_what_is_at_risk() {
    let wager = forward(3, 100);
    assert_eq!(Payout::new("ann", Some(&wager), -1700, 1700).unwrap().get_amount(), -1700);
    assert_eq!(Payout::new("ann", Some(&wager), -1, 1700).unwrap().get_amount(), -1);
}

#[test]
fn loss_above_what_is_at_risk_is_an_error() {
    let wager = forward(3, 100);
    assert_eq!(
        Payout::new("ann", Some(&wager), -1701, 1700).unwrap_err(),
        Error::LossExceedsWagerAmount("ann".to_string(), -1701, 100)
    );
    assert_eq!(
        Payout::new("ann", Some(&wager), i32::MIN, i64::MAX).unwrap().get_amount(),
        i32::MIN
    );
    assert_eq!(
        Payout::new("ann", Some(&wager), -1, -5).unwrap_err(),
        Error::LossExceedsWagerAmount("ann".to_string(), -1, 100)
    );
}

#[test]
fn settlement_pays_players_in_order_and_the_house_last() {
    let ann = Player::new("ann".to_string());
    let bob = Player::new("bob".to_string());
    let first = forward(1, 100);
    let second = forward(2, 50);
    let third = forward(3, 10);
    let outcomes = vec![
        Outcome { player: &ann, wager: &first, net: 400, max_loss: 100 },
        Outcome { player: &ann, wager: &second, net: -50, max_loss: 50 },
        Outcome { player: &bob, wager: &third, net: -10, max_loss: 10 },
    ];
    let payouts = settle(&outcomes, "house").unwrap();
    assert_eq!(
        amounts(&payouts),
        vec![
            ("ann".to_string(), Some(1), 400),
            ("ann".to_string(), Some(2), -50),
            ("bob".to_string(), Some(3), -10),
            ("house".to_string(), None, -340),
        ]
    );
    assert_eq!(payouts.iter().map(|payout| payout.get_amount() as i64).sum::<i64>(), 0);
}

#[test]
fn settlement_leaves_out_what_comes_to_nothing() {
    let ann = Player::new("ann".to_string());
    let first = forward(1, 100);
    let second = forward(2, 50);
    let third = forward(3, 50);
    let outcomes = vec![
        Outcome { player: &ann, wager: &first, net: 0, max_loss: 100 },
        Outcome { player: &ann, wager: &second, net: 50, max_loss: 50 },
        Outcome { player: &ann, wager: &third, net: -50, max_loss: 50 },
    ];
    let payouts = settle(&outcomes, "house").unwrap();
    assert_eq!(
        amounts(&payouts),
        vec![("ann".to_string(), Some(2), 50), ("ann".to_string(), Some(3), -50)]
    );
}

#[test]
fn settlement_of_no_stakes_pays_nobody() {
    let outcomes: Vec<Outcome<CtaWagerType>> = Vec::new();
    assert_eq!(settle(&outcomes, "house").unwrap().len(), 0);
}

#[test]
fn settlement_fails_on_the_first_stake_that_is_wrong() {
    let ann = Player::new("ann".to_string());
    let bob = Player::new("bob".to_string());
    let first = forward(1, 100);
    let second = forward(2, 50);
    let third = forward(3, 10);
    let outcomes = vec![
        Outcome { player: &ann, wager: &first, net: 400, max_loss: 100 },
        Outcome { player: &bob, wager: &second, net: -51, max_loss: 50 },
        Outcome { player: &ann, wager: &third, net: i64::MAX, max_loss: 10 },
    ];
    assert_eq!(
        settle(&outcomes, "house").unwrap_err(),
        Error::LossExceedsWagerAmount("bob".to_string(), -51, 50)
    );
    let outcomes = vec![
        Outcome { player: &ann, wager: &third, net: i32::MIN as i64 - 1, max_loss: 0 },
        Outcome { player: &bob, wager: &second, net: -51, max_loss: 50 },
    ];
    assert_eq!(settle(&outcomes, "house").unwrap_err(), Error::AmountOutOfRange);
}

#[test]
fn settlement_fails_when_the_house_cannot_be_paid() {
    let ann = Player::new("ann".to_string());
    let first = forward(1, 100);
    let second = forward(2, 50);
    let outcomes = vec![
        Outcome { player: &ann, wager: &first, net: i32::MAX as i64, max_loss: 0 },
        Outcome { player: &ann, wager: &second, net: 2, max_loss: 0 },
    ];
    assert_eq!(settle(&outcomes, "house").unwrap_err(), Error::AmountOutOfRange);
    let outcomes = vec![
        Outcome { player: &ann, wager: &first, net: i32::MAX as i64, max_loss: 0 },
        Outcome { player: &ann, wager: &second, net: 1, max_loss: 0 },
    ];
    let payouts = settle(&outcomes, "house").unwrap();
    assert_eq!(payouts[2].get_amount(), i32::MIN);
    let outcomes = vec![
        Outcome { player: &ann, wager: &first, net: i32::MIN as i64, max_loss: i64::MAX },
    ];
    assert_eq!(settle(&outcomes, "house").unwrap_err(), Error::AmountOutOfRange);
}
