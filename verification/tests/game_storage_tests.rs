use card_wagers::config::cta::CtaWagerType;
use card_wagers::config::fts::FtsWagerType;
use card_wagers::dto::{ConfigDto, ConfigPayload};
use card_wagers::game::{create_game, Error, Game, GameType};
use card_wagers::game_storage::GameStorage;
use card_wagers::player::Player;
use card_wagers::state::{CtaState, GameState, State};
use card_wagers::transition::GameTransition::{End, Start};
use card_wagers::transition::Transition;
use card_wagers::wager::{Wager, WagerMap};

fn fts_game() -> Game {
    let mut wager_map = WagerMap::new();
    wager_map.insert(
        Player::new("ann".to_string()),
        vec![Wager::new(0, FtsWagerType::FullDeck, 100).unwrap()],
    );
    let payload = ConfigPayload::Fts(ConfigDto { wager_map, house_id: Some("house".to_string()) });
    create_game(&GameType::Fts, payload).unwrap()
}

fn cta_game() -> Game {
    let mut wager_map = WagerMap::new();
    wager_map.insert(
        Player::new("ann".to_string()),
        vec![Wager::new(0, CtaWagerType::Forward, 100).unwrap()],
    );
    let payload = ConfigPayload::Cta(ConfigDto { wager_map, house_id: Some("house".to_string()) });
    create_game(&GameType::Cta, payload).unwrap()
}

fn state_of(game: &Game) -> State {
    match game {
        Game::Fts(game) => game.get_state(),
        Game::Cta(game) => game.get_state(),
    }
}

#[test]
fn new_store_is_empty() {
    let storage = GameStorage::new();
    assert_eq!(storage.len(), 0);
    assert!(storage.get_game("anything").is_none());
}

#[test]
fn each_game_gets_an_identifier_of_its_own() {
    let mut storage = GameStorage::new();
    let first = storage.insert_game(fts_game());
    let second = storage.insert_game(cta_game());
    let third = storage.insert_game(cta_game());
    assert_ne!(first, second);
    assert_ne!(second, third);
    assert_ne!(first, third);
    assert!(!first.is_empty());
    assert_eq!(storage.len(), 3);
    assert_eq!(storage.get_game(&first).unwrap().get_type(), GameType::Fts);
    assert_eq!(storage.get_game(&second).unwrap().get_type(), GameType::Cta);
    assert_eq!(storage.get_game(&third).unwrap().get_type(), GameType::Cta);
}

#[test]
fn game_put_in_under_an_identifier_is_found_there() {
    let mut storage = GameStorage::new();
    assert_eq!(storage.insert_game_as("one".to_string(), fts_game()), "one");
    assert_eq!(storage.insert_game_as("two".to_string(), cta_game()), "two");
    assert_eq!(storage.get_game("one").unwrap().get_type(), GameType::Fts);
    assert_eq!(storage.get_game("two").unwrap().get_type(), GameType::Cta);
    assert!(storage.get_game("three").is_none());
    assert!(storage.get_game("").is_none());
}

#[test]
fn game_put_in_under_a_used_identifier_takes_the_place() {
    let mut storage = GameStorage::new();
    storage.insert_game_as("one".to_string(), fts_game());
    storage.insert_game_as("two".to_string(), fts_game());
    storage.insert_game_as("one".to_string(), cta_game());
    assert_eq!(storage.len(), 2);
    assert_eq!(storage.get_game("one").unwrap().get_type(), GameType::Cta);
    assert_eq!(storage.get_game("two").unwrap().get_type(), GameType::Fts);
}

#[test]
fn game_in_the_store_is_moved_on() {
    let mut storage = GameStorage::new();
    storage.insert_game_as("one".to_string(), cta_game());
    storage.insert_game_as("two".to_string(), cta_game());
    storage.transition_game("two", Transition::Game(Start)).unwrap();
    assert_eq!(state_of(storage.get_game("one").unwrap()), State::Game(GameState::Setup));
    assert_eq!(state_of(storage.get_game("two").unwrap()), State::Cta(CtaState::AwaitCut));
    assert_eq!(
        storage.transition_game("one", Transition::Game(End)).unwrap_err(),
        Error::InvalidTransition
    );
    assert_eq!(state_of(storage.get_game("one").unwrap()), State::Game(GameState::Setup));
    storage.transition_game("two", Transition::Game(End)).unwrap();
    assert_eq!(state_of(storage.get_game("two").unwrap()), State::Game(GameState::Ended));
    assert_eq!(storage.get_game("two").unwrap().get_payout().unwrap().len(), 2);
}

#[test]
fn game_that_is_not_in_the_store_is_not_found() {
    let mut storage = GameStorage::new();
    storage.insert_game_as("one".to_string(), cta_game());
    assert_eq!(
        storage.transition_game("two", Transition::Game(Start)).unwrap_err(),
        Error::NotFound("two".to_string())
    );
    assert_eq!(state_of(storage.get_game("one").unwrap()), State::Game(GameState::Setup));
    assert_eq!(storage.len(), 1);
}

#[test]
fn game_is_taken_out() {
    let mut storage = GameStorage::new();
    storage.insert_game_as("one".to_string(), fts_game());
    storage.insert_game_as("two".to_string(), cta_game());
    storage.insert_game_as("three".to_string(), fts_game());
    storage.remove_game("two");
    assert_eq!(storage.len(), 2);
    assert!(storage.get_game("two").is_none());
    assert_eq!(storage.get_game("one").unwrap().get_type(), GameType::Fts);
    assert_eq!(storage.get_game("three").unwrap().get_type(), GameType::Fts);
    storage.remove_game("two");
    storage.remove_game("nothing");
    assert_eq!(storage.len(), 2);
    storage.remove_game("one");
    storage.remove_game("three");
    assert_eq!(storage.len(), 0);
}
