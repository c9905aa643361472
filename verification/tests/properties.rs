use wager_escrow::engine::Engine;
use wager_escrow::error::{GameError, Parameter, Purpose, Role, Setting};
use wager_escrow::game::Status;
use wager_escrow::identity::Identity;
use wager_escrow::registry::Registry;
use wager_escrow::token::{Payment, TokenId};

const TOKEN_ID: &str = "VLD-76ecd8";

fn who(n: u8) -> Identity {
    Identity::new([n; 32])
}

fn owner() -> Identity {
    who(100)
}

fn admin() -> Identity {
    who(101)
}

fn engine() -> Engine {
    let mut engine =
        Engine::deploy(owner(), Some(true), Some(2), Some(TokenId::new(TOKEN_ID))).unwrap();
    engine.set_admin(&owner(), admin()).unwrap();
    engine
}

fn fee() -> Payment {
    Payment::new(TokenId::new(TOKEN_ID), 0, 2)
}

fn wager(amount: u128) -> Payment {
    Payment::new(TokenId::new(TOKEN_ID), 0, amount)
}

#[test]
fn players_never_exceed_the_maximum() {
    let mut engine = engine();
    let id = engine.create_game(&who(1), &fee(), 50, 10, 2, 4, 3).unwrap();
    for n in 1..=10u8 {
        let result = engine.join_game(&who(n), &wager(3), 55, id);
        if n <= 4 {
            assert_eq!(result, Ok(()));
        } else {
            assert_eq!(result, Err(GameError::Full));
        }
        let game = engine.get_game_settings(id).unwrap();
        assert!(game.player_count() as u64 <= game.max_players());
        assert_eq!(game.escrow(), 3 * game.player_count() as u128);
    }
    assert_eq!(engine.get_players(id).unwrap(), vec![who(1), who(2), who(3), who(4)]);
}

#[test]
fn status_turns_valid_at_the_minimum_and_stays() {
    let mut engine = engine();
    let id = engine.create_game(&who(1), &fee(), 50, 10, 3, 5, 1).unwrap();
    let mut expected = vec![];
    for n in 1..=5u8 {
        engine.join_game(&who(n), &wager(1), 60, id).unwrap();
        let status = engine.get_game_settings(id).unwrap().status();
        expected.push(status);
    }
    assert_eq!(
        expected,
        vec![Status::Invalid, Status::Invalid, Status::Valid, Status::Valid, Status::Valid]
    );
    // Failed operations and operations on the configuration leave it valid.
    assert_eq!(engine.join_game(&who(9), &wager(1), 61, id), Err(GameError::Expired));
    assert_eq!(engine.claim_back_wager(&who(1), 61, id), Err(GameError::WrongState));
    engine.set_game_start_fee(&owner(), 5).unwrap();
    engine.set_enabled(&owner(), false).unwrap();
    assert_eq!(engine.get_game_settings(id).unwrap().status(), Status::Valid);
}

#[test]
fn min_above_max_never_turns_valid() {
    let mut engine = engine();
    let id = engine.create_game(&who(1), &fee(), 50, 10, 3, 2, 1).unwrap();
    engine.join_game(&who(1), &wager(1), 60, id).unwrap();
    engine.join_game(&who(2), &wager(1), 60, id).unwrap();
    assert_eq!(engine.join_game(&who(3), &wager(1), 60, id), Err(GameError::Full));
    assert_eq!(engine.get_game_settings(id).unwrap().status(), Status::Invalid);
}

#[test]
fn join_after_the_deadline_is_expired() {
    let mut engine = engine();
    let id = engine.create_game(&who(1), &fee(), 50, 10, 1, 5, 1).unwrap();
    assert_eq!(engine.get_game_settings(id).unwrap().deadline(), 60);
    // On the deadline itself the game is still open.
    assert_eq!(engine.join_game(&who(1), &wager(1), 60, id), Ok(()));
    assert_eq!(engine.join_game(&who(2), &wager(1), 61, id), Err(GameError::Expired));
    assert_eq!(engine.join_game(&who(2), &wager(1), u64::MAX, id), Err(GameError::Expired));
    // Whatever else is wrong with the request.
    let other_token = Payment::new(TokenId::new("RAND-e3641c"), 0, 9);
    assert_eq!(engine.join_game(&who(1), &other_token, 61, id), Err(GameError::Expired));
    assert_eq!(engine.get_players(id).unwrap(), vec![who(1)]);
    // In maintenance that comes first.
    engine.set_enabled(&owner(), false).unwrap();
    assert_eq!(engine.join_game(&who(2), &wager(1), 61, id), Err(GameError::MaintenanceActive));
}

#[test]
fn claim_back_needs_player_deadline_and_invalid() {
    let mut engine = engine();
    let invalid = engine.create_game(&who(1), &fee(), 50, 10, 2, 2, 4).unwrap();
    engine.join_game(&who(1), &wager(4), 50, invalid).unwrap();
    let valid = engine.create_game(&who(1), &fee(), 50, 10, 1, 2, 4).unwrap();
    engine.join_game(&who(1), &wager(4), 50, valid).unwrap();

    // On the deadline itself it is too early.
    assert_eq!(engine.claim_back_wager(&who(1), 60, invalid), Err(GameError::TooEarly));
    assert_eq!(engine.claim_back_wager(&who(2), 61, invalid), Err(GameError::NotParticipant));
    assert_eq!(engine.claim_back_wager(&who(1), 61, valid), Err(GameError::WrongState));
    // Where several conditions fail, the first in order is named.
    assert_eq!(engine.claim_back_wager(&who(2), 60, valid), Err(GameError::NotParticipant));
    assert_eq!(engine.claim_back_wager(&who(1), 60, valid), Err(GameError::TooEarly));
    // Nothing has changed so far.
    assert_eq!(engine.get_players(invalid).unwrap(), vec![who(1)]);
    assert_eq!(engine.get_players(valid).unwrap(), vec![who(1)]);
    let refund = engine.claim_back_wager(&who(1), 61, invalid).unwrap();
    assert_eq!(refund.to, who(1));
    assert_eq!(refund.amount, 4);
}

#[test]
fn remove_admin_twice() {
    let mut engine = engine();
    engine.set_admin(&owner(), who(5)).unwrap();
    assert!(engine.is_admin(&who(5)));
    assert!(engine.is_admin(&admin()));
    assert_eq!(engine.remove_admin(&owner(), &who(5)), Ok(()));
    assert!(!engine.is_admin(&who(5)));
    assert!(engine.is_admin(&admin()));
    assert_eq!(engine.remove_admin(&owner(), &who(5)), Ok(()));
    assert!(!engine.is_admin(&who(5)));
    assert!(engine.is_admin(&admin()));
    // One who never was an admin.
    assert_eq!(engine.remove_admin(&owner(), &who(6)), Ok(()));
    assert!(!engine.is_admin(&who(6)));
}

#[test]
fn set_admin_twice() {
    let mut engine = engine();
    assert_eq!(engine.set_admin(&owner(), who(5)), Ok(()));
    assert_eq!(engine.set_admin(&owner(), who(5)), Ok(()));
    assert!(engine.is_admin(&who(5)));
    assert_eq!(engine.remove_admin(&owner(), &who(5)), Ok(()));
    assert!(!engine.is_admin(&who(5)));
}

#[test]
fn the_owner_is_no_admin_by_office() {
    let mut engine = engine();
    let id = engine.create_game(&who(1), &fee(), 50, 10, 1, 1, 1).unwrap();
    assert_eq!(
        engine.send_reward(&owner(), 61, id, &vec![]),
        Err(GameError::Unauthorized(Role::Admin))
    );
    assert_eq!(engine.send_reward(&admin(), 61, id, &vec![]), Ok(vec![]));
}

#[test]
fn a_failed_operation_changes_nothing() {
    let mut engine = engine();
    let id = engine.create_game(&who(1), &fee(), 50, 10, 2, 2, 4).unwrap();
    engine.join_game(&who(1), &wager(4), 50, id).unwrap();
    assert_eq!(
        engine.create_game(&who(2), &wager(3), 50, 10, 2, 2, 4),
        Err(GameError::WrongAmount(Purpose::StartFee))
    );
    assert_eq!(
        engine.join_game(&who(2), &wager(3), 50, id),
        Err(GameError::WrongAmount(Purpose::Wager))
    );
    assert_eq!(engine.join_game(&who(1), &wager(4), 50, id), Err(GameError::AlreadyJoined));
    assert_eq!(engine.claim_back_wager(&who(1), 50, id), Err(GameError::TooEarly));
    assert_eq!(engine.send_reward(&admin(), 60, id, &vec![]), Err(GameError::TooEarly));
    assert_eq!(engine.get_last_game_id(), 1);
    let game = engine.get_game_settings(id).unwrap();
    assert_eq!(game.player_count(), 1);
    assert_eq!(game.escrow(), 4);
    assert_eq!(game.status(), Status::Invalid);
    assert_eq!(game.id(), id);
    assert_eq!(game.creator(), who(1));
    assert_eq!(game.wager(), 4);
    assert_eq!(game.min_players(), 2);
    assert_eq!(game.max_players(), 2);
    assert!(game.has_player(&who(1)));
    assert!(!game.is_full());
    assert!(game.involves(&who(1)));
    assert!(!game.involves(&who(2)));
}

#[test]
fn ids_are_never_reused() {
    let mut engine = engine();
    let first = engine.create_game(&who(1), &fee(), 50, 10, 1, 1, 1).unwrap();
    let second = engine.create_game(&who(1), &fee(), 50, 10, 1, 1, 1).unwrap();
    assert_eq!((first, second), (1, 2));
    engine.send_reward(&admin(), 61, second, &vec![]).unwrap();
    engine.send_reward(&admin(), 61, first, &vec![]).unwrap();
    let third = engine.create_game(&who(1), &fee(), 50, 10, 1, 1, 1).unwrap();
    assert_eq!(third, 3);
    assert_eq!(engine.get_last_game_id(), 3);
    assert_eq!(engine.get_game_settings(first).unwrap_err(), GameError::NotFound);
    assert_eq!(engine.get_game_settings(second).unwrap_err(), GameError::NotFound);
    assert_eq!(engine.get_games_per_user(&who(1)), vec![3]);
}

#[test]
fn games_per_user_follows_the_record() {
    let mut engine = engine();
    let a = engine.create_game(&who(1), &fee(), 50, 10, 2, 3, 1).unwrap();
    let b = engine.create_game(&who(2), &fee(), 50, 10, 2, 3, 1).unwrap();
    let c = engine.create_game(&who(1), &fee(), 50, 10, 2, 3, 1).unwrap();
    assert_eq!(engine.get_games_per_user(&who(1)), vec![a, c]);
    assert_eq!(engine.get_games_per_user(&who(2)), vec![b]);
    assert_eq!(engine.get_games_per_user(&who(3)), Vec::<u64>::new());
    engine.join_game(&who(3), &wager(1), 50, b).unwrap();
    engine.join_game(&who(1), &wager(1), 50, b).unwrap();
    engine.join_game(&who(3), &wager(1), 50, c).unwrap();
    // In the order in which each came to the games.
    assert_eq!(engine.get_games_per_user(&who(1)), vec![a, c, b]);
    assert_eq!(engine.get_games_per_user(&who(3)), vec![b, c]);
    // Joining a game of one's own lists it once.
    engine.join_game(&who(1), &wager(1), 50, a).unwrap();
    assert_eq!(engine.get_games_per_user(&who(1)), vec![a, c, b]);
    // A game that is settled is listed for nobody.
    engine.send_reward(&admin(), 61, b, &vec![]).unwrap();
    assert_eq!(engine.get_games_per_user(&who(1)), vec![a, c]);
    assert_eq!(engine.get_games_per_user(&who(2)), Vec::<u64>::new());
    assert_eq!(engine.get_games_per_user(&who(3)), vec![c]);
    // Nor is a game that its last player has left.
    engine.claim_back_wager(&who(3), 61, c).unwrap();
    assert_eq!(engine.get_games_per_user(&who(3)), Vec::<u64>::new());
    assert_eq!(engine.get_games_per_user(&who(1)), vec![a]);
    for id in engine.get_games_per_user(&who(1)) {
        assert!(engine.get_game_settings(id).is_ok());
    }
}

#[test]
fn one_who_leaves_is_not_listed_any_more() {
    let mut engine = engine();
    let id = engine.create_game(&who(1), &fee(), 50, 10, 3, 3, 1).unwrap();
    engine.join_game(&who(1), &wager(1), 50, id).unwrap();
    engine.join_game(&who(2), &wager(1), 50, id).unwrap();
    assert_eq!(engine.get_games_per_user(&who(2)), vec![id]);
    engine.claim_back_wager(&who(2), 61, id).unwrap();
    assert_eq!(engine.get_games_per_user(&who(2)), Vec::<u64>::new());
    // The creator stays listed, as a player or not.
    assert_eq!(engine.get_games_per_user(&who(1)), vec![id]);
    let other = engine.create_game(&who(5), &fee(), 50, 10, 3, 3, 1).unwrap();
    engine.join_game(&who(5), &wager(1), 50, other).unwrap();
    engine.join_game(&who(6), &wager(1), 50, other).unwrap();
    engine.claim_back_wager(&who(5), 61, other).unwrap();
    assert_eq!(engine.get_games_per_user(&who(5)), vec![other]);
    assert_eq!(engine.get_players(other).unwrap(), vec![who(6)]);
}

#[test]
fn registry_hands_out_ids_in_turn() {
    let mut registry = Registry::new();
    assert_eq!(registry.get_last_game_id(), 0);
    assert_eq!(registry.allocate_game(who(1), 5, 1, 2, 99), 1);
    assert_eq!(registry.allocate_game(who(2), 6, 2, 2, 100), 2);
    assert_eq!(registry.get_last_game_id(), 2);
    let game = registry.lookup(2).unwrap();
    assert_eq!(game.id(), 2);
    assert_eq!(game.creator(), who(2));
    assert_eq!(game.wager(), 6);
    assert_eq!(game.deadline(), 100);
    assert_eq!(game.status(), Status::Invalid);
    assert_eq!(game.players().len(), 0);
    assert_eq!(registry.get_players(1).unwrap(), vec![]);
    assert_eq!(registry.lookup(3).unwrap_err(), GameError::NotFound);
    assert_eq!(registry.lookup(3).unwrap_err().message(), "no settings for game id");
    assert_eq!(registry.get_players(0).unwrap_err(), GameError::NotFound);
    registry.remove(1);
    registry.remove(1);
    assert_eq!(registry.lookup(1).unwrap_err(), GameError::NotFound);
    assert_eq!(registry.get_games_per_user(&who(1)), Vec::<u64>::new());
    assert_eq!(registry.get_games_per_user(&who(2)), vec![2]);
    assert_eq!(registry.allocate_game(who(1), 5, 1, 2, 99), 3);
}

#[test]
fn wager_above_64_bits_has_no_mock() {
    let mut registry = Registry::new();
    let small = registry.allocate_game(who(1), u128::from(u64::MAX), 1, 2, 99);
    let large = registry.allocate_game(who(1), u128::from(u64::MAX) + 1, 1, 2, 99);
    let mock = registry.lookup(small).unwrap().mock().unwrap();
    assert_eq!(mock.wager, u64::MAX);
    assert_eq!(mock.time_limit, 99);
    assert_eq!(mock.number_of_players_min, 1);
    assert_eq!(mock.number_of_players_max, 2);
    assert_eq!(mock.creator, who(1));
    assert_eq!(mock.status, Status::Invalid);
    assert_eq!(registry.lookup(large).unwrap().mock(), None);
}

#[test]
fn create_game_in_an_incomplete_configuration() {
    let mut engine = engine();
    engine.set_game_start_fee(&owner(), 0).unwrap();
    let nothing = Payment::new(TokenId::new(TOKEN_ID), 0, 0);
    assert_eq!(
        engine.create_game(&who(1), &nothing, 50, 10, 1, 1, 1),
        Err(GameError::ConfigIncomplete(Setting::GameStartFee))
    );
    engine.set_game_start_fee(&owner(), 2).unwrap();
    engine.set_payment_token(&owner(), TokenId::new("")).unwrap();
    let unnamed = Payment::new(TokenId::new(""), 0, 2);
    assert_eq!(
        engine.create_game(&who(1), &unnamed, 50, 10, 1, 1, 1),
        Err(GameError::ConfigIncomplete(Setting::PaymentToken))
    );
    assert_eq!(engine.get_last_game_id(), 0);
}

#[test]
fn every_failure_has_its_message() {
    let all = [
        (GameError::MaintenanceActive, "maintenance"),
        (GameError::ConfigIncomplete(Setting::PaymentToken), "fee token id not set"),
        (GameError::ConfigIncomplete(Setting::GameStartFee), "game start fee not set"),
        (GameError::InvalidParam(Parameter::Wager), "wager can't be 0"),
        (GameError::InvalidParam(Parameter::WaitingTime), "waiting time can't be 0"),
        (GameError::InvalidParam(Parameter::PlayerCount), "number of players cannot be 0"),
        (GameError::WrongToken(Purpose::StartFee), "wrong token id"),
        (GameError::WrongToken(Purpose::Wager), "wrong token sent"),
        (GameError::WrongAmount(Purpose::StartFee), "start game payment amount not right"),
        (GameError::WrongAmount(Purpose::Wager), "wrong amount paid"),
        (GameError::NotFound, "no settings for game id"),
        (GameError::Expired, "waiting time has passed"),
        (GameError::Full, "max number of players reached"),
        (GameError::AlreadyJoined, "user already joined this game"),
        (GameError::NotParticipant, "caller has not joined the game"),
        (GameError::TooEarly, "waiting time is not over yet"),
        (
            GameError::WrongState,
            "can manually claim back wager only if the game is invalid",
        ),
        (GameError::Unauthorized(Role::Owner), "Endpoint can only be called by owner"),
        (GameError::Unauthorized(Role::Admin), "Item not whitelisted"),
    ];
    for (failure, message) in all {
        assert_eq!(failure.message(), message);
    }
}

#[test]
fn can_hold_tests_the_limits_of_a_new_game() {
    let engine = engine();
    assert!(engine.can_hold(50, 10, 2, 4));
    assert!(engine.can_hold(u64::MAX - 10, 10, 2, 4));
    assert!(!engine.can_hold(u64::MAX - 9, 10, 2, 4));
    assert!(engine.can_hold(50, 10, 2, u128::MAX / 2));
    assert!(!engine.can_hold(50, 10, 2, u128::MAX / 2 + 1));
    assert!(engine.can_hold(50, 10, u64::MAX, 1 << 64));
    assert!(!engine.can_hold(50, 10, u64::MAX, (1 << 64) + 2));
}

#[test]
fn the_largest_game_that_can_be_held() {
    let mut engine = engine();
    let large = u128::MAX / 2;
    assert!(engine.can_hold(u64::MAX - 10, 10, 2, large));
    let id = engine.create_game(&who(1), &fee(), u64::MAX - 10, 10, 2, 2, large).unwrap();
    assert_eq!(engine.get_game_settings(id).unwrap().deadline(), u64::MAX);
    engine.join_game(&who(1), &wager(large), u64::MAX, id).unwrap();
    engine.join_game(&who(2), &wager(large), u64::MAX, id).unwrap();
    assert_eq!(engine.get_game_settings(id).unwrap().escrow(), u128::MAX - 1);
    assert_eq!(engine.get_game_settings(id).unwrap().status(), Status::Valid);
    // Its deadline never passes.
    assert_eq!(
        engine.send_reward(&admin(), u64::MAX, id, &vec![(who(2), 1)]),
        Err(GameError::TooEarly)
    );
}
