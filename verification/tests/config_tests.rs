use card_wagers::config::cta::{Cta as CtaConfig, CtaWagerType, Odds as CtaOdds};
use card_wagers::config::fts::{Fts as FtsConfig, FtsWagerType, Odds as FtsOdds};
use card_wagers::config::{Config, ConfigError};
use card_wagers::player::Player;
use card_wagers::wager::{Wager, WagerMap};

fn player(id: &str) -> Player {
    Player::new(id.to_string())
}

fn forward(id: u32, amount: i32) -> Wager<CtaWagerType> {
    Wager::new(id, CtaWagerType::Forward, amount).unwrap()
}

#[test]
fn config_of_valid_wagers() {
    let mut table = WagerMap::new();
    table.insert(player("ann"), vec![forward(1, 10), forward(2, 20)]);
    table.insert(player("bob"), vec![forward(3, 30)]);
    let config = Config::new(table, "house".to_string()).unwrap();
    assert_eq!(config.get_house_id(), "house");
    assert_eq!(config.get_wagers().len(), 2);
    assert_eq!(config.get_wagers().player_at(1).unwrap().get_id(), "bob");
    assert_eq!(*config.get_wagers().wagers_at(0).unwrap()[1].get_id(), 2);
}

#[test]
fn config_without_players_is_an_error() {
    let table: WagerMap<CtaWagerType> = WagerMap::new();
    assert_eq!(Config::new(table, "house".to_string()).unwrap_err(), ConfigError::EmptyWager);
}

#[test]
fn config_with_players_without_wagers_is_an_error() {
    let mut table = WagerMap::new();
    table.insert(player("ann"), vec![]);
    table.insert(player("bob"), vec![forward(1, 10)]);
    table.insert(player("cat"), vec![]);
    assert_eq!(
        Config::new(table, "house".to_string()).unwrap_err(),
        ConfigError::EmptyWagerForPlayers(vec!["ann".to_string(), "cat".to_string()])
    );
}

#[test]
fn config_with_the_same_wager_id_for_two_players_is_an_error() {
    let mut table = WagerMap::new();
    table.insert(player("ann"), vec![forward(1, 10), forward(2, 20)]);
    table.insert(player("bob"), vec![forward(3, 30), forward(2, 40), forward(1, 50)]);
    assert_eq!(
        Config::new(table, "house".to_string()).unwrap_err(),
        ConfigError::DuplicatedWagerId(2)
    );
}

#[test]
fn config_with_the_same_wager_id_twice_for_one_player_is_an_error() {
    let mut table = WagerMap::new();
    table.insert(player("ann"), vec![forward(9, 10), forward(9, 20)]);
    assert_eq!(
        Config::new(table, "house".to_string()).unwrap_err(),
        ConfigError::DuplicatedWagerId(9)
    );
}

#[test]
fn config_checks_for_wagers_before_wager_ids() {
    let mut table = WagerMap::new();
    table.insert(player("ann"), vec![forward(1, 10), forward(1, 20)]);
    table.insert(player("bob"), vec![]);
    assert_eq!(
        Config::new(table, "house".to_string()).unwrap_err(),
        ConfigError::EmptyWagerForPlayers(vec!["bob".to_string()])
    );
}

#[test]
fn fts_config_has_default_odds_of_seventeen() {
    let mut table = WagerMap::new();
    table.insert(player("ann"), vec![Wager::new(1, FtsWagerType::FullDeck, 10).unwrap()]);
    let config = FtsConfig::new(table, "house".to_string(), None).unwrap();
    assert_eq!(*config.get_odds(), FtsOdds { full_deck: 17, at_flop: 17, flop_range: 17 });
    assert_eq!(*config.get_odds(), FtsOdds::default());
    assert_eq!(*config.get_odds().get_full_deck(), 17);
    assert_eq!(*config.get_odds().get_at_flop(), 17);
    assert_eq!(*config.get_odds().get_flop_range(), 17);
    assert_eq!(config.get_base_config().get_house_id(), "house");
}

#[test]
fn fts_config_takes_odds_of_its_own() {
    let mut table = WagerMap::new();
    table.insert(player("ann"), vec![Wager::new(1, FtsWagerType::FullDeck, 10).unwrap()]);
    let config = FtsConfig::new(table, "house".to_string(), Some(FtsOdds::new(3, 4, 5))).unwrap();
    assert_eq!(*config.get_odds().get_full_deck(), 3);
    assert_eq!(*config.get_odds().get_at_flop(), 4);
    assert_eq!(*config.get_odds().get_flop_range(), 5);
}

#[test]
fn fts_config_turns_down_what_config_turns_down() {
    let table: WagerMap<FtsWagerType> = WagerMap::new();
    assert_eq!(
        FtsConfig::new(table, "house".to_string(), None).unwrap_err(),
        ConfigError::EmptyWager
    );
    let mut table = WagerMap::new();
    table.insert(player("ann"), vec![Wager::new(1, FtsWagerType::FullDeck, 10).unwrap()]);
    table.insert(player("bob"), vec![Wager::new(1, FtsWagerType::AtFlop(2), 10).unwrap()]);
    assert_eq!(
        FtsConfig::new(table, "house".to_string(), None).unwrap_err(),
        ConfigError::DuplicatedWagerId(1)
    );
}

#[test]
fn cta_config_has_default_odds() {
    let mut table = WagerMap::new();
    table.insert(player("ann"), vec![forward(1, 10)]);
    let config = CtaConfig::new(table, "house".to_string()).unwrap();
    assert_eq!(*config.get_odds(), CtaOdds { forward: 4, reverse: 5, pair: 20 });
    assert_eq!(*config.get_odds(), CtaOdds::default());
    assert_eq!(*config.get_odds().get_forward(), 4);
    assert_eq!(*config.get_odds().get_reverse(), 5);
    assert_eq!(*config.get_odds().get_pair(), 20);
    assert_eq!(config.get_base_config().get_wagers().len(), 1);
}

#[test]
fn cta_config_turns_down_what_config_turns_down() {
    let mut table = WagerMap::new();
    table.insert(player("ann"), vec![]);
    assert_eq!(
        CtaConfig::new(table, "house".to_string()).unwrap_err(),
        ConfigError::EmptyWagerForPlayers(vec!["ann".to_string()])
    );
}
