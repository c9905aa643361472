//! The rules of a game's life: who may create, join, claim back and settle, and when.
//!
//! Each rule looks at its conditions in a fixed order and fails with the
//! first that does not hold.

use vstd::prelude::*;
use crate::config::{ConfigView, GlobalConfig};
use crate::error::{GameError, Parameter, Purpose};
use crate::game::{GameSettings, GameView, Status};
use crate::identity::Identity;
use crate::reward::{refund_all, refunds, rewards, split, total_paid, Payout, SplitStrategy};
use crate::reward::{lemma_refunds_total, lemma_rewards_exhaust_pool};
use crate::token::{Payment, PaymentView};

verus! {

/// Whether a game with these parameters may be created for this payment.
pub open spec fn create_check(
    config: ConfigView,
    payment: PaymentView,
    waiting_time: u64,
    min_players: u64,
    max_players: u64,
    wager: u128,
) -> Result<(), GameError> {
    if config.missing() is Some {
        Err(GameError::ConfigIncomplete(config.missing()->Some_0))
    } else if wager == 0 {
        Err(GameError::InvalidParam(Parameter::Wager))
    } else if waiting_time == 0 {
        Err(GameError::InvalidParam(Parameter::WaitingTime))
    } else if payment.token != config.payment_token {
        Err(GameError::WrongToken(Purpose::StartFee))
    } else if payment.amount != config.game_start_fee {
        Err(GameError::WrongAmount(Purpose::StartFee))
    } else if min_players == 0 || max_players == 0 {
        Err(GameError::InvalidParam(Parameter::PlayerCount))
    } else {
        Ok(())
    }
}

/// Whether `caller` may join `game` at the time `now` for this payment.
pub open spec fn join_check(
    config: ConfigView,
    game: GameView,
    caller: Identity,
    payment: PaymentView,
    now: u64,
) -> Result<(), GameError> {
    if now > game.deadline {
        Err(GameError::Expired)
    } else if game.players.len() >= game.max_players {
        Err(GameError::Full)
    } else if payment.token != config.payment_token {
        Err(GameError::WrongToken(Purpose::Wager))
    } else if payment.amount != game.wager {
        Err(GameError::WrongAmount(Purpose::Wager))
    } else if game.players.contains(caller) {
        Err(GameError::AlreadyJoined)
    } else {
        Ok(())
    }
}

/// Whether `caller` may claim the wager back from `game` at the time `now`.
pub open spec fn claim_check(game: GameView, caller: Identity, now: u64) -> Result<
    (),
    GameError,
> {
    if !game.players.contains(caller) {
        Err(GameError::NotParticipant)
    } else if now <= game.deadline {
        Err(GameError::TooEarly)
    } else if game.status != Status::Invalid {
        Err(GameError::WrongState)
    } else {
        Ok(())
    }
}

/// Whether `game` may be settled at the time `now`.
pub open spec fn settle_check(game: GameView, now: u64) -> Result<(), GameError> {
    if now <= game.deadline {
        Err(GameError::TooEarly)
    } else {
        Ok(())
    }
}

/// What is paid out when `game` is settled. A valid game with winners named
/// has its wagers split among them. Any other game gives each player the
/// wager back.
pub open spec fn settlement(
    strategy: SplitStrategy,
    game: GameView,
    winners: Seq<(Identity, u64)>,
) -> Seq<Payout> {
    if game.status == Status::Valid && winners.len() > 0 {
        rewards(strategy, game.escrow() as u128, winners)
    } else {
        refunds(game.wager, game.players)
    }
}

/// A settlement pays out exactly what the game holds.
pub proof fn lemma_settlement_pays_escrow(
    strategy: SplitStrategy,
    game: GameView,
    winners: Seq<(Identity, u64)>,
)
    requires
        game.valid(),
    ensures
        total_paid(settlement(strategy, game, winners)) == game.escrow(),
{
    let n = game.players.len() as int;
    let w = game.wager as int;
    let m = game.max_players as int;
    assert(w * n <= w * m) by (nonlinear_arith)
        requires
            n <= m,
            w >= 0,
    ;
    if game.status == Status::Valid && winners.len() > 0 {
        lemma_rewards_exhaust_pool(strategy, game.escrow() as u128, winners);
    } else {
        lemma_refunds_total(game.wager, game.players);
    }
}

/// Tests whether a game with these parameters may be created for this payment.
pub fn check_create(
    config: &GlobalConfig,
    payment: &Payment,
    waiting_time: u64,
    min_players: u64,
    max_players: u64,
    wager: u128,
) -> (r: Result<(), GameError>)
    ensures
        r == create_check(config@, payment@, waiting_time, min_players, max_players, wager),
{
    match config.require_complete() {
        Err(e) => {
            return Err(e);
        },
        Ok(()) => {},
    }
    if wager == 0 {
        Err(GameError::InvalidParam(Parameter::Wager))
    } else if waiting_time == 0 {
        Err(GameError::InvalidParam(Parameter::WaitingTime))
    } else if payment.token != *config.get_payment_token() {
        Err(GameError::WrongToken(Purpose::StartFee))
    } else if payment.amount != config.get_game_start_fee() {
        Err(GameError::WrongAmount(Purpose::StartFee))
    } else if min_players == 0 || max_players == 0 {
        Err(GameError::InvalidParam(Parameter::PlayerCount))
    } else {
        Ok(())
    }
}

/// Tests whether `caller` may join `game` at the time `now` for this payment.
pub fn check_join(
    config: &GlobalConfig,
    game: &GameSettings,
    caller: &Identity,
    payment: &Payment,
    now: u64,
) -> (r: Result<(), GameError>)
    ensures
        r == join_check(config@, game@, *caller, payment@, now),
{
    if now > game.deadline() {
        Err(GameError::Expired)
    } else if game.is_full() {
        Err(GameError::Full)
    } else if payment.token != *config.get_payment_token() {
        Err(GameError::WrongToken(Purpose::Wager))
    } else if payment.amount != game.wager() {
        Err(GameError::WrongAmount(Purpose::Wager))
    } else if game.has_player(caller) {
        Err(GameError::AlreadyJoined)
    } else {
        Ok(())
    }
}

/// Tests whether `caller` may claim the wager back from `game` at the time `now`.
pub fn check_claim(game: &GameSettings, caller: &Identity, now: u64) -> (r: Result<
    (),
    GameError,
>)
    ensures
        r == claim_check(game@, *caller, now),
{
    if !game.has_player(caller) {
        Err(GameError::NotParticipant)
    } else if now <= game.deadline() {
        Err(GameError::TooEarly)
    } else if game.status() != Status::Invalid {
        Err(GameError::WrongState)
    } else {
        Ok(())
    }
}

/// Tests whether `game` may be settled at the time `now`.
pub fn check_settle(game: &GameSettings, now: u64) -> (r: Result<(), GameError>)
    ensures
        r == settle_check(game@, now),
{
    if now <= game.deadline() {
        Err(GameError::TooEarly)
    } else {
        Ok(())
    }
}

/// Works out what is paid when `game` is settled.
pub fn settle(strategy: SplitStrategy, game: &GameSettings, winners: &Vec<(Identity, u64)>) -> (
    payouts: Vec<Payout>)
    requires
        game.wf(),
    ensures
        payouts@ == settlement(strategy, game@, winners@),
        total_paid(payouts@) == game@.escrow(),
{
    proof {
        game.lemma_wf_valid();
        lemma_settlement_pays_escrow(strategy, game@, winners@);
    }
    if game.status() == Status::Valid && winners.len() > 0 {
        split(strategy, game.escrow(), winners)
    } else {
        refund_all(game.wager(), game.players())
    }
}

} // verus!
