//! What holds of the engine whatever is done to it.
//!
//! The operations are taken as steps from one state of the engine to the
//! next, and each law is proved of every step, or of every state that the
//! steps can reach.

use vstd::prelude::*;
use crate::config::ConfigView;
use crate::engine::EngineView;
use crate::error::GameError;
use crate::game::{lemma_created_valid, lemma_joined_valid, lemma_left_valid, Status};
use crate::identity::Identity;
use crate::roster::lemma_without;
use crate::token::PaymentView;

verus! {

/// An operation with its arguments.
pub ghost enum Operation {
    CreateGame {
        caller: Identity,
        payment: PaymentView,
        waiting_time: u64,
        min_players: u64,
        max_players: u64,
        wager: u128,
    },
    JoinGame { caller: Identity, payment: PaymentView, game_id: u64 },
    ClaimBackWager { caller: Identity, game_id: u64 },
    SendReward { caller: Identity, game_id: u64 },
    SetEnabled { caller: Identity, value: bool },
    SetAdmin { caller: Identity, who: Identity },
    RemoveAdmin { caller: Identity, who: Identity },
    SetPaymentToken { caller: Identity, token: Seq<char> },
    SetGameStartFee { caller: Identity, amount: u128 },
}

/// The engine after `op` was performed on `s` at the time `now`.
pub open spec fn apply(s: EngineView, op: Operation, now: u64) -> EngineView {
    match op {
        Operation::CreateGame {
            caller,
            payment,
            waiting_time,
            min_players,
            max_players,
            wager,
        } => s.create_game(caller, payment, now, waiting_time, min_players, max_players, wager),
        Operation::JoinGame { caller, payment, game_id } => s.join_game(
            caller,
            payment,
            now,
            game_id,
        ),
        Operation::ClaimBackWager { caller, game_id } => s.claim_back_wager(caller, now, game_id),
        Operation::SendReward { caller, game_id } => s.send_reward(caller, now, game_id),
        Operation::SetEnabled { caller, value } => EngineView {
            config: s.config.set_enabled(caller, value),
            ..s
        },
        Operation::SetAdmin { caller, who } => EngineView {
            config: s.config.set_admin(caller, who),
            ..s
        },
        Operation::RemoveAdmin { caller, who } => EngineView {
            config: s.config.remove_admin(caller, who),
            ..s
        },
        Operation::SetPaymentToken { caller, token } => EngineView {
            config: s.config.set_payment_token(caller, token),
            ..s
        },
        Operation::SetGameStartFee { caller, amount } => EngineView {
            config: s.config.set_game_start_fee(caller, amount),
            ..s
        },
    }
}

/// Whether `op` fails on `s` at the time `now`, and with what.
pub open spec fn outcome(s: EngineView, op: Operation, now: u64) -> Result<(), GameError> {
    match op {
        Operation::CreateGame {
            caller,
            payment,
            waiting_time,
            min_players,
            max_players,
            wager,
        } => s.create_game_gate(payment, waiting_time, min_players, max_players, wager),
        Operation::JoinGame { caller, payment, game_id } => s.join_game_gate(
            caller,
            payment,
            now,
            game_id,
        ),
        Operation::ClaimBackWager { caller, game_id } => s.claim_back_wager_gate(
            caller,
            now,
            game_id,
        ),
        Operation::SendReward { caller, game_id } => s.send_reward_gate(caller, now, game_id),
        Operation::SetEnabled { caller, value } => s.config.owner_gate(caller),
        Operation::SetAdmin { caller, who } => s.config.owner_gate(caller),
        Operation::RemoveAdmin { caller, who } => s.config.owner_gate(caller),
        Operation::SetPaymentToken { caller, token } => s.config.owner_gate(caller),
        Operation::SetGameStartFee { caller, amount } => s.config.owner_gate(caller),
    }
}

/// Whether the numbers that `op` makes can be held. Only the creation of a
/// game makes any: see `EngineView::create_game_fits`.
pub open spec fn fits(s: EngineView, op: Operation, now: u64) -> bool {
    match op {
        Operation::CreateGame {
            caller,
            payment,
            waiting_time,
            min_players,
            max_players,
            wager,
        } => s.create_game_gate(payment, waiting_time, min_players, max_players, wager) is Ok
            ==> s.create_game_fits(now, waiting_time, max_players, wager),
        _ => true,
    }
}

/// Every operation leaves the games on record in order.
pub proof fn law_step_keeps_order(s: EngineView, op: Operation, now: u64)
    requires
        s.valid(),
        fits(s, op, now),
    ensures
        apply(s, op, now).valid(),
{
    let t = apply(s, op, now);
    match op {
        Operation::CreateGame {
            caller,
            payment,
            waiting_time,
            min_players,
            max_players,
            wager,
        } => {
            if s.create_game_gate(payment, waiting_time, min_players, max_players, wager) is Ok {
                let id = (s.registry.last_game_id + 1) as u64;
                lemma_created_valid(
                    id,
                    caller,
                    wager,
                    min_players,
                    max_players,
                    (now + waiting_time) as u64,
                );
                assert(t.valid());
            }
        },
        Operation::JoinGame { caller, payment, game_id } => {
            if s.join_game_gate(caller, payment, now, game_id) is Ok {
                lemma_joined_valid(s.registry.games[game_id], caller);
                assert(t.valid());
            }
        },
        Operation::ClaimBackWager { caller, game_id } => {
            if s.claim_back_wager_gate(caller, now, game_id) is Ok {
                lemma_left_valid(s.registry.games[game_id], caller);
                assert(t.valid());
            }
        },
        Operation::SendReward { caller, game_id } => {
            assert(t.valid());
        },
        _ => {},
    }
}

/// An operation that fails changes nothing.
pub proof fn law_failure_changes_nothing(s: EngineView, op: Operation, now: u64)
    requires
        outcome(s, op, now) is Err,
    ensures
        apply(s, op, now) == s,
{
}

/// No game ever has more players than it admits, nor a player twice.
pub proof fn law_players_within_capacity(s: EngineView, game_id: u64)
    requires
        s.valid(),
        s.registry.games.dom().contains(game_id),
    ensures
        s.registry.games[game_id].players.len() <= s.registry.games[game_id].max_players,
        s.registry.games[game_id].players.no_duplicates(),
{
}

/// After any operation no game has more players than it admits.
pub proof fn law_players_within_capacity_after(
    s: EngineView,
    op: Operation,
    now: u64,
    game_id: u64,
)
    requires
        s.valid(),
        fits(s, op, now),
        apply(s, op, now).registry.games.dom().contains(game_id),
    ensures
        apply(s, op, now).registry.games[game_id].players.len() <= apply(
            s,
            op,
            now,
        ).registry.games[game_id].max_players,
{
    law_step_keeps_order(s, op, now);
}

/// A game is valid exactly while it has its minimum of players.
pub proof fn law_valid_iff_minimum_reached(s: EngineView, game_id: u64)
    requires
        s.valid(),
        s.registry.games.dom().contains(game_id),
    ensures
        s.registry.games[game_id].status == Status::Valid <==> s.registry.games[game_id].players.len()
            >= s.registry.games[game_id].min_players,
{
}

/// A valid game stays valid for as long as it is on record.
pub proof fn law_status_never_reverses(s: EngineView, op: Operation, now: u64, game_id: u64)
    requires
        s.valid(),
        fits(s, op, now),
        s.registry.games.dom().contains(game_id),
        s.registry.games[game_id].status == Status::Valid,
        apply(s, op, now).registry.games.dom().contains(game_id),
    ensures
        apply(s, op, now).registry.games[game_id].status == Status::Valid,
{
}

/// The status of a game on record changes in one way only: a join that
/// brings the number of players to the minimum turns the game from invalid
/// to valid. A join that falls short of the minimum leaves it invalid.
pub proof fn law_status_turns_by_join_only(s: EngineView, op: Operation, now: u64, game_id: u64)
    requires
        s.valid(),
        fits(s, op, now),
        s.registry.games.dom().contains(game_id),
        apply(s, op, now).registry.games.dom().contains(game_id),
    ensures
        ({
            let before = s.registry.games[game_id];
            let after = apply(s, op, now).registry.games[game_id];
            &&& before.status != after.status ==> {
                &&& op matches Operation::JoinGame { caller, payment, game_id: joined }
                &&& joined == game_id
                &&& outcome(s, op, now) is Ok
                &&& before.status == Status::Invalid
                &&& after.status == Status::Valid
                &&& after.players.len() == before.players.len() + 1
            }
            &&& (op matches Operation::JoinGame { caller, payment, game_id: joined } && joined
                == game_id && outcome(s, op, now) is Ok) ==> (after.status == Status::Valid
                <==> after.players.len() >= after.min_players)
        }),
{
}

/// Nobody can join a game whose deadline has passed, whatever room is left
/// in it: outside maintenance the failure is `Expired`.
pub proof fn law_join_after_deadline_fails(
    s: EngineView,
    caller: Identity,
    payment: PaymentView,
    now: u64,
    game_id: u64,
)
    requires
        s.registry.games.dom().contains(game_id),
        now > s.registry.games[game_id].deadline,
    ensures
        s.join_game_gate(caller, payment, now, game_id) is Err,
        s.join_game(caller, payment, now, game_id) == s,
        s.config.enabled ==> s.join_game_gate(caller, payment, now, game_id) == Err::<
            (),
            GameError,
        >(GameError::Expired),
{
}

/// A wager is claimed back only from a game on record that is invalid and
/// past its deadline, and only by one who plays in it.
pub proof fn law_claim_back_only_when(s: EngineView, caller: Identity, now: u64, game_id: u64)
    requires
        s.claim_back_wager_gate(caller, now, game_id) is Ok,
    ensures
        s.config.enabled,
        s.registry.games.dom().contains(game_id),
        s.registry.games[game_id].players.contains(caller),
        now > s.registry.games[game_id].deadline,
        s.registry.games[game_id].status == Status::Invalid,
{
}

/// Outside maintenance a wager is claimed back from a game on record if and
/// only if the caller plays in it, its deadline has passed and it is invalid.
/// Where one of the three is not so, the failure says which; where more than
/// one is not so, it names the first of them in this order.
pub proof fn law_claim_back_conditions(s: EngineView, caller: Identity, now: u64, game_id: u64)
    requires
        s.config.enabled,
        s.registry.games.dom().contains(game_id),
    ensures
        ({
            let game = s.registry.games[game_id];
            let result = s.claim_back_wager_gate(caller, now, game_id);
            let plays = game.players.contains(caller);
            let late = now > game.deadline;
            let invalid = game.status == Status::Invalid;
            &&& result is Ok <==> plays && late && invalid
            &&& !plays ==> result == Err::<(), GameError>(GameError::NotParticipant)
            &&& plays && !late ==> result == Err::<(), GameError>(GameError::TooEarly)
            &&& plays && late && !invalid ==> result == Err::<(), GameError>(
                GameError::WrongState,
            )
        }),
{
}

/// Taking an admin away a second time is no error and changes nothing more.
pub proof fn law_remove_admin_idempotent(c: ConfigView, caller: Identity, who: Identity)
    ensures
        c.remove_admin(caller, who).owner_gate(caller) == c.owner_gate(caller),
        c.remove_admin(caller, who).remove_admin(caller, who) == c.remove_admin(caller, who),
        !c.remove_admin(c.owner, who).admins.contains(who),
{
    let once = c.remove_admin(caller, who);
    if caller == c.owner {
        assert(once.admins.remove(who) =~= once.admins);
    }
}

/// Making an admin a second time is no error and changes nothing more.
pub proof fn law_set_admin_idempotent(c: ConfigView, caller: Identity, who: Identity)
    ensures
        c.set_admin(caller, who).owner_gate(caller) == c.owner_gate(caller),
        c.set_admin(caller, who).set_admin(caller, who) == c.set_admin(caller, who),
        c.set_admin(c.owner, who).admins.contains(who),
{
    let once = c.set_admin(caller, who);
    if caller == c.owner {
        assert(once.admins.insert(who) =~= once.admins);
    }
}

/// No operation changes the owner.
pub proof fn law_owner_never_changes(s: EngineView, op: Operation, now: u64)
    ensures
        apply(s, op, now).config.owner == s.config.owner,
{
}

/// Ids are never reused: the id handed out last never falls, and a game that
/// an operation puts on record has an id above all that were handed out before.
pub proof fn law_ids_never_reused(s: EngineView, op: Operation, now: u64, game_id: u64)
    requires
        s.valid(),
        fits(s, op, now),
    ensures
        apply(s, op, now).registry.last_game_id >= s.registry.last_game_id,
        apply(s, op, now).registry.games.dom().contains(game_id) && !s.registry.games.dom().contains(
            game_id,
        ) ==> game_id > s.registry.last_game_id,
{
}

/// A game that has gone off the record never comes back: no id that was
/// handed out and is not on record is on record after an operation.
pub proof fn law_removed_games_stay_removed(s: EngineView, op: Operation, now: u64, game_id: u64)
    requires
        s.valid(),
        fits(s, op, now),
        game_id <= s.registry.last_game_id,
        !s.registry.games.dom().contains(game_id),
    ensures
        !apply(s, op, now).registry.games.dom().contains(game_id),
{
}

/// Every game that is listed for a user is on record, and involves that user.
pub proof fn law_listed_games_are_on_record(s: EngineView, who: Identity, game_id: u64)
    requires
        s.registry.games_per_user(who).contains(game_id),
    ensures
        s.registry.games.dom().contains(game_id),
        s.registry.games[game_id].involves(who),
{
}

/// A game is listed for its creator from its creation, and for a player from
/// the join; a game that goes off the record is listed for nobody.
pub proof fn law_listing_follows_the_record(s: EngineView, op: Operation, now: u64, who: Identity)
    requires
        s.valid(),
        fits(s, op, now),
        outcome(s, op, now) is Ok,
    ensures
        ({
            let t = apply(s, op, now);
            &&& op matches Operation::CreateGame { caller, .. } ==> t.registry.games_per_user(
                caller,
            ).contains(t.registry.last_game_id)
            &&& op matches Operation::JoinGame { caller, game_id, .. }
                ==> t.registry.games_per_user(caller).contains(game_id)
            &&& op matches Operation::SendReward { game_id, .. } ==> !t.registry.games_per_user(
                who,
            ).contains(game_id)
        }),
{
    let t = apply(s, op, now);
    match op {
        Operation::JoinGame { caller, payment, game_id } => {
            let g = s.registry.games[game_id];
            assert(g.joined(caller).players[g.players.len() as int] == caller);
        },
        _ => {},
    }
}

/// A game holds one wager per player, and a claim takes one wager out.
pub proof fn law_claim_takes_one_wager(s: EngineView, caller: Identity, now: u64, game_id: u64)
    requires
        s.valid(),
        s.claim_back_wager_gate(caller, now, game_id) is Ok,
    ensures
        ({
            let before = s.registry.games[game_id];
            let t = s.claim_back_wager(caller, now, game_id);
            &&& before.escrow() == before.wager * before.players.len()
            &&& before.left(caller).escrow() + before.wager == before.escrow()
            &&& t.registry.games.dom().contains(game_id) <==> before.players.len() > 1
            &&& t.registry.games.dom().contains(game_id) ==> t.registry.games[game_id]
                == before.left(caller)
        }),
{
    let before = s.registry.games[game_id];
    lemma_left_valid(before, caller);
    lemma_without(before.players, caller);
    assert(before.wager * before.players.len() >= 0) by (nonlinear_arith);
}

} // verus!
