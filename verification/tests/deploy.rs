use wager_escrow::config::GlobalConfig;
use wager_escrow::engine::Engine;
use wager_escrow::error::{GameError, Role, Setting};
use wager_escrow::identity::Identity;
use wager_escrow::reward::SplitStrategy;
use wager_escrow::token::TokenId;

const TOKEN_ID: &str = "VLD-76ecd8";
const ANOTHER_TOKEN_ID: &str = "WRNG-67975d";
const FEE_AMOUNT: u64 = 1u64;
const OWNER_ADDR: &str = "erd1r6f7nfpyzul2tef7gne5h6nx9xqnyt5gehwltlxymnqkztjjzvuqdhderc";
const SECOND_USER_ADDR: &str = "erd1tjusdv806tuwzllgesljglm7y9jef38wdylkvp85v7a46z9x23us0z5xtr";

fn id(address: &str) -> Identity {
    Identity::from_bech32(address).expect("a bech32 address of 32 bytes")
}

fn deploy(enabled_opt: Option<bool>, game_start_fee_opt: Option<u128>) -> Result<Engine, GameError> {
    Engine::deploy(id(OWNER_ADDR), enabled_opt, game_start_fee_opt, Some(TokenId::new(TOKEN_ID)))
}

#[test]
fn test_deploy() {
    let interact = deploy(Some(false), Some(FEE_AMOUNT.into())).unwrap();

    let game_start_fee = interact.get_game_start_fee();
    assert_eq!(game_start_fee, u128::from(FEE_AMOUNT));

    assert_eq!(interact.get_payment_token(), &TokenId::new(TOKEN_ID));
    assert_eq!(interact.get_payment_token().as_str(), TOKEN_ID);

    let is_enabled = interact.get_enabled();
    assert_eq!(is_enabled, true);
}

#[test]
fn test_deploy_game_start_fee_not_set() {
    let failure = deploy(Some(true), None).unwrap_err();
    assert_eq!(failure, GameError::ConfigIncomplete(Setting::GameStartFee));
    assert_eq!(failure.message(), "game start fee not set");
}

#[test]
fn test_deploy_with_args() {
    let failure = Engine::deploy(id(OWNER_ADDR), Some(true), Some(FEE_AMOUNT.into()), None)
        .unwrap_err();
    assert_eq!(failure, GameError::ConfigIncomplete(Setting::PaymentToken));
    assert_eq!(failure.message(), "fee token id not set");
}

#[test]
fn deploy_without_flag_starts_in_maintenance() {
    let engine = deploy(None, Some(1)).unwrap();
    assert_eq!(engine.get_enabled(), false);
    let engine = deploy(Some(true), Some(1)).unwrap();
    assert_eq!(engine.get_enabled(), true);
}

#[test]
fn deploy_treats_zero_fee_and_empty_token_as_absent() {
    assert_eq!(
        deploy(Some(true), Some(0)).unwrap_err(),
        GameError::ConfigIncomplete(Setting::GameStartFee)
    );
    assert_eq!(
        Engine::deploy(id(OWNER_ADDR), Some(true), Some(1), Some(TokenId::new(""))).unwrap_err(),
        GameError::ConfigIncomplete(Setting::PaymentToken)
    );
}

#[test]
fn deploy_looks_at_the_fee_first() {
    assert_eq!(
        Engine::deploy(id(OWNER_ADDR), Some(true), None, None).unwrap_err(),
        GameError::ConfigIncomplete(Setting::GameStartFee)
    );
}

#[test]
fn deploy_starts_empty() {
    let engine = deploy(Some(true), Some(7)).unwrap();
    assert_eq!(engine.get_last_game_id(), 0);
    assert_eq!(engine.strategy(), SplitStrategy::Equal);
    assert_eq!(engine.config().owner(), id(OWNER_ADDR));
    assert_eq!(engine.is_admin(&id(OWNER_ADDR)), false);
    assert_eq!(engine.get_game_settings(1).unwrap_err(), GameError::NotFound);
    assert!(engine.get_games_per_user(&id(OWNER_ADDR)).is_empty());
}

#[test]
fn config_guards() {
    let owner = id(OWNER_ADDR);
    let other = id(SECOND_USER_ADDR);
    let mut config =
        GlobalConfig::init(owner, None, Some(3), Some(TokenId::new(TOKEN_ID))).unwrap();
    assert_eq!(config.require_enabled(), Err(GameError::MaintenanceActive));
    assert_eq!(config.require_owner(&owner), Ok(()));
    assert_eq!(config.require_owner(&other), Err(GameError::Unauthorized(Role::Owner)));
    assert_eq!(config.require_admin(&owner), Err(GameError::Unauthorized(Role::Admin)));
    assert_eq!(config.require_complete(), Ok(()));

    assert_eq!(config.set_enabled(&other, true), Err(GameError::Unauthorized(Role::Owner)));
    assert_eq!(config.get_enabled(), false);
    assert_eq!(config.set_enabled(&owner, true), Ok(()));
    assert_eq!(config.require_enabled(), Ok(()));

    assert_eq!(config.set_admin(&owner, other), Ok(()));
    assert_eq!(config.require_admin(&other), Ok(()));

    assert_eq!(config.set_game_start_fee(&owner, 0), Ok(()));
    assert_eq!(
        config.require_complete(),
        Err(GameError::ConfigIncomplete(Setting::GameStartFee))
    );
    assert_eq!(config.set_game_start_fee(&owner, 5), Ok(()));
    assert_eq!(config.set_payment_token(&owner, TokenId::new("")), Ok(()));
    assert_eq!(
        config.require_complete(),
        Err(GameError::ConfigIncomplete(Setting::PaymentToken))
    );
    assert_eq!(config.set_payment_token(&owner, TokenId::new(ANOTHER_TOKEN_ID)), Ok(()));
    assert_eq!(config.get_payment_token().as_str(), ANOTHER_TOKEN_ID);
    assert_eq!(config.get_game_start_fee(), 5);
    assert_eq!(config.require_complete(), Ok(()));
}

#[test]
fn setters_are_for_the_owner_only() {
    let owner = id(OWNER_ADDR);
    let other = id(SECOND_USER_ADDR);
    let mut engine = deploy(Some(true), Some(1)).unwrap();
    let denied = Err(GameError::Unauthorized(Role::Owner));
    assert_eq!(engine.set_enabled(&other, false), denied);
    assert_eq!(engine.set_admin(&other, other), denied);
    assert_eq!(engine.remove_admin(&other, &owner), denied);
    assert_eq!(engine.set_payment_token(&other, TokenId::new(ANOTHER_TOKEN_ID)), denied);
    assert_eq!(engine.set_game_start_fee(&other, 9), denied);
    assert_eq!(engine.get_enabled(), true);
    assert_eq!(engine.is_admin(&other), false);
    assert_eq!(engine.get_payment_token().as_str(), TOKEN_ID);
    assert_eq!(engine.get_game_start_fee(), 1);
    assert_eq!(
        GameError::Unauthorized(Role::Owner).message(),
        "Endpoint can only be called by owner"
    );
}
