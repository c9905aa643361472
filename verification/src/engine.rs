//! The engine: the configuration and the games on record, with the operations
//! that callers perform on them.
//!
//! Every operation is given the identity of its caller and, where it depends
//! on time, the current time. An operation that fails changes nothing.
//!
//! Creating a game does not make its creator a player: the creator pays the
//! fee for the game, and joins it like anybody else to pay the wager.

use vstd::prelude::*;
use crate::config::{init_missing, token_view, ConfigView, GlobalConfig};
use crate::error::GameError;
use crate::game::GameSettings;
use crate::identity::Identity;
use crate::lifecycle::{check_claim, check_create, check_join, check_settle, settle};
use crate::lifecycle::{claim_check, create_check, join_check, settle_check, settlement};
use crate::registry::{Registry, RegistryView};
use crate::reward::{total_paid, Payout, SplitStrategy};
use crate::token::{Payment, PaymentView, TokenId};

verus! {

/// The engine as plain values.
pub ghost struct EngineView {
    pub config: ConfigView,
    pub registry: RegistryView,
    pub strategy: SplitStrategy,
}

impl EngineView {
    /// The games on record are in order.
    pub open spec fn valid(self) -> bool {
        self.registry.valid()
    }

    /// Whether `create_game` goes through.
    pub open spec fn create_game_gate(
        self,
        payment: PaymentView,
        waiting_time: u64,
        min_players: u64,
        max_players: u64,
        wager: u128,
    ) -> Result<(), GameError> {
        if self.config.maintenance_gate() is Err {
            self.config.maintenance_gate()
        } else {
            create_check(self.config, payment, waiting_time, min_players, max_players, wager)
        }
    }

    /// Whether the numbers of a new game can be held: its deadline, the
    /// wagers of all the players it admits, and its id.
    pub open spec fn create_game_fits(
        self,
        now: u64,
        waiting_time: u64,
        max_players: u64,
        wager: u128,
    ) -> bool {
        &&& now + waiting_time <= u64::MAX
        &&& wager * max_players <= u128::MAX
        &&& self.registry.last_game_id < u64::MAX
    }

    /// The engine after `create_game`.
    pub open spec fn create_game(
        self,
        caller: Identity,
        payment: PaymentView,
        now: u64,
        waiting_time: u64,
        min_players: u64,
        max_players: u64,
        wager: u128,
    ) -> EngineView {
        if self.create_game_gate(payment, waiting_time, min_players, max_players, wager) is Ok {
            EngineView {
                registry: self.registry.allocated(
                    caller,
                    wager,
                    min_players,
                    max_players,
                    (now + waiting_time) as u64,
                ),
                ..self
            }
        } else {
            self
        }
    }

    /// Whether `join_game` goes through.
    pub open spec fn join_game_gate(
        self,
        caller: Identity,
        payment: PaymentView,
        now: u64,
        game_id: u64,
    ) -> Result<(), GameError> {
        if self.config.maintenance_gate() is Err {
            self.config.maintenance_gate()
        } else if !self.registry.games.dom().contains(game_id) {
            Err(GameError::NotFound)
        } else {
            join_check(self.config, self.registry.games[game_id], caller, payment, now)
        }
    }

    /// The engine after `join_game`.
    pub open spec fn join_game(
        self,
        caller: Identity,
        payment: PaymentView,
        now: u64,
        game_id: u64,
    ) -> EngineView {
        if self.join_game_gate(caller, payment, now, game_id) is Ok {
            EngineView { registry: self.registry.joined(game_id, caller), ..self }
        } else {
            self
        }
    }

    /// Whether `claim_back_wager` goes through.
    pub open spec fn claim_back_wager_gate(self, caller: Identity, now: u64, game_id: u64) -> Result<
        (),
        GameError,
    > {
        if self.config.maintenance_gate() is Err {
            self.config.maintenance_gate()
        } else if !self.registry.games.dom().contains(game_id) {
            Err(GameError::NotFound)
        } else {
            claim_check(self.registry.games[game_id], caller, now)
        }
    }

    /// The engine after `claim_back_wager`.
    pub open spec fn claim_back_wager(self, caller: Identity, now: u64, game_id: u64) -> EngineView {
        if self.claim_back_wager_gate(caller, now, game_id) is Ok {
            EngineView { registry: self.registry.left(game_id, caller), ..self }
        } else {
            self
        }
    }

    /// Whether `send_reward` goes through.
    pub open spec fn send_reward_gate(self, caller: Identity, now: u64, game_id: u64) -> Result<
        (),
        GameError,
    > {
        if self.config.maintenance_gate() is Err {
            self.config.maintenance_gate()
        } else if self.config.admin_gate(caller) is Err {
            self.config.admin_gate(caller)
        } else if !self.registry.games.dom().contains(game_id) {
            Err(GameError::NotFound)
        } else {
            settle_check(self.registry.games[game_id], now)
        }
    }

    /// The engine after `send_reward`.
    pub open spec fn send_reward(self, caller: Identity, now: u64, game_id: u64) -> EngineView {
        if self.send_reward_gate(caller, now, game_id) is Ok {
            EngineView { registry: self.registry.removed(game_id), ..self }
        } else {
            self
        }
    }
}

/// The configuration, the games on record and the way rewards are split.
#[derive(Debug)]
pub struct Engine {
    config: GlobalConfig,
    registry: Registry,
    strategy: SplitStrategy,
}

impl View for Engine {
    type V = EngineView;

    closed spec fn view(&self) -> EngineView {
        EngineView { config: self.config@, registry: self.registry@, strategy: self.strategy }
    }
}

impl Engine {
    /// The configuration and the registry are in order.
    pub closed spec fn wf(&self) -> bool {
        &&& self.config.wf()
        &&& self.registry.wf()
    }

    /// An engine in order is valid as plain values.
    pub proof fn lemma_wf_valid(&self)
        requires
            self.wf(),
        ensures
            self@.valid(),
    {
        self.registry.lemma_wf_valid();
    }

    /// An engine with this configuration and no game on record, which
    /// splits rewards by `strategy`.
    pub fn with_strategy(config: GlobalConfig, strategy: SplitStrategy) -> (e: Engine)
        requires
            config.wf(),
        ensures
            e.wf(),
            e@ == (EngineView {
                config: config@,
                registry: RegistryView { last_game_id: 0, games: Map::empty() },
                strategy,
            }),
    {
        Engine { config, registry: Registry::new(), strategy }
    }

    /// An engine with this configuration and no game on record, which
    /// splits rewards equally.
    pub fn new(config: GlobalConfig) -> (e: Engine)
        requires
            config.wf(),
        ensures
            e.wf(),
            e@ == (EngineView {
                config: config@,
                registry: RegistryView { last_game_id: 0, games: Map::empty() },
                strategy: SplitStrategy::Equal,
            }),
    {
        Engine::with_strategy(config, SplitStrategy::Equal)
    }

    /// Sets an engine up for `owner`, with no game on record and rewards
    /// split equally. The settings are read as `GlobalConfig::init` reads them.
    pub fn deploy(
        owner: Identity,
        enabled_opt: Option<bool>,
        game_start_fee_opt: Option<u128>,
        token_id_opt: Option<TokenId>,
    ) -> (r: Result<Engine, GameError>)
        ensures
            match r {
                Ok(e) => {
                    &&& init_missing(game_start_fee_opt, token_view(token_id_opt)) is None
                    &&& e.wf()
                    &&& e@ == (EngineView {
                        config: ConfigView {
                            enabled: enabled_opt is Some,
                            payment_token: token_id_opt->Some_0@,
                            game_start_fee: game_start_fee_opt->Some_0,
                            owner,
                            admins: Set::empty(),
                        },
                        registry: RegistryView { last_game_id: 0, games: Map::empty() },
                        strategy: SplitStrategy::Equal,
                    })
                },
                Err(e) => init_missing(game_start_fee_opt, token_view(token_id_opt)) == Some(
                    e->ConfigIncomplete_0,
                ) && e is ConfigIncomplete,
            },
    {
        match GlobalConfig::init(owner, enabled_opt, game_start_fee_opt, token_id_opt) {
            Ok(config) => Ok(Engine::new(config)),
            Err(e) => Err(e),
        }
    }

    /// Whether the numbers of a game created at the time `now` can be held:
    /// what `create_game` asks of a call that goes through.
    pub fn can_hold(&self, now: u64, waiting_time: u64, max_players: u64, wager: u128) -> (r: bool)
        ensures
            r == self@.create_game_fits(now, waiting_time, max_players, wager),
    {
        now.checked_add(waiting_time).is_some() && wager.checked_mul(max_players as u128).is_some()
            && self.registry.get_last_game_id() < u64::MAX
    }

    /// Creates a game for `caller`, who pays the fee with `payment`, and
    /// returns the game's id. The game waits for players until
    /// `now + waiting_time`; nobody has joined it yet. Where the call goes
    /// through, the numbers of the game must be such as can be held, which
    /// `can_hold` tests.
    pub fn create_game(
        &mut self,
        caller: &Identity,
        payment: &Payment,
        now: u64,
        waiting_time: u64,
        min_players: u64,
        max_players: u64,
        wager: u128,
    ) -> (r: Result<u64, GameError>)
        requires
            old(self).wf(),
            old(self)@.create_game_gate(payment@, waiting_time, min_players, max_players, wager)
                is Ok ==> old(self)@.create_game_fits(now, waiting_time, max_players, wager),
        ensures
            final(self).wf(),
            final(self)@ == old(self)@.create_game(
                *caller,
                payment@,
                now,
                waiting_time,
                min_players,
                max_players,
                wager,
            ),
            match r {
                Ok(id) => {
                    &&& old(self)@.create_game_gate(
                        payment@,
                        waiting_time,
                        min_players,
                        max_players,
                        wager,
                    ) is Ok
                    &&& id == old(self)@.registry.last_game_id + 1
                },
                Err(e) => old(self)@.create_game_gate(
                    payment@,
                    waiting_time,
                    min_players,
                    max_players,
                    wager,
                ) == Err::<(), GameError>(e),
            },
    {
        match self.config.require_enabled() {
            Err(e) => {
                return Err(e);
            },
            Ok(()) => {},
        }
        match check_create(&self.config, payment, waiting_time, min_players, max_players, wager) {
            Err(e) => {
                return Err(e);
            },
            Ok(()) => {},
        }
        let deadline: u64 = now + waiting_time;
        let id = self.registry.allocate_game(*caller, wager, min_players, max_players, deadline);
        Ok(id)
    }

    /// Takes `caller` into the game `game_id` for the wager paid with `payment`.
    pub fn join_game(&mut self, caller: &Identity, payment: &Payment, now: u64, game_id: u64) -> (r:
        Result<(), GameError>)
        requires
            old(self).wf(),
        ensures
            final(self).wf(),
            final(self)@ == old(self)@.join_game(*caller, payment@, now, game_id),
            r == old(self)@.join_game_gate(*caller, payment@, now, game_id),
    {
        match self.config.require_enabled() {
            Err(e) => {
                return Err(e);
            },
            Ok(()) => {},
        }
        let checked = match self.registry.lookup(game_id) {
            Err(e) => Err(e),
            Ok(game) => check_join(&self.config, game, caller, payment, now),
        };
        match checked {
            Err(e) => Err(e),
            Ok(()) => {
                self.registry.join(game_id, *caller);
                Ok(())
            },
        }
    }

    /// Gives `caller` the wager back from the game `game_id`, which has not
    /// found its players in time, and returns what `caller` is owed. The
    /// game goes off the record once nobody is left in it.
    pub fn claim_back_wager(&mut self, caller: &Identity, now: u64, game_id: u64) -> (r: Result<
        Payout,
        GameError,
    >)
        requires
            old(self).wf(),
        ensures
            final(self).wf(),
            final(self)@ == old(self)@.claim_back_wager(*caller, now, game_id),
            match r {
                Ok(refund) => {
                    &&& old(self)@.claim_back_wager_gate(*caller, now, game_id) is Ok
                    &&& refund.to == *caller
                    &&& refund.amount == old(self)@.registry.games[game_id].wager
                },
                Err(e) => old(self)@.claim_back_wager_gate(*caller, now, game_id) == Err::<
                    (),
                    GameError,
                >(e),
            },
    {
        match self.config.require_enabled() {
            Err(e) => {
                return Err(e);
            },
            Ok(()) => {},
        }
        let checked = match self.registry.lookup(game_id) {
            Err(e) => Err(e),
            Ok(game) => match check_claim(game, caller, now) {
                Err(e) => Err(e),
                Ok(()) => Ok(game.wager()),
            },
        };
        match checked {
            Err(e) => Err(e),
            Ok(amount) => {
                self.registry.leave(game_id, caller);
                Ok(Payout { to: *caller, amount })
            },
        }
    }

    /// Settles the game `game_id` and takes it off the record. Returns what
    /// is owed to whom: a valid game with winners named has its wagers split
    /// among them, any other game gives each player the wager back. Admins only.
    pub fn send_reward(
        &mut self,
        caller: &Identity,
        now: u64,
        game_id: u64,
        winners: &Vec<(Identity, u64)>,
    ) -> (r: Result<Vec<Payout>, GameError>)
        requires
            old(self).wf(),
        ensures
            final(self).wf(),
            final(self)@ == old(self)@.send_reward(*caller, now, game_id),
            match r {
                Ok(payouts) => {
                    &&& old(self)@.send_reward_gate(*caller, now, game_id) is Ok
                    &&& payouts@ == settlement(
                        old(self)@.strategy,
                        old(self)@.registry.games[game_id],
                        winners@,
                    )
                    &&& total_paid(payouts@) == old(self)@.registry.games[game_id].escrow()
                },
                Err(e) => old(self)@.send_reward_gate(*caller, now, game_id) == Err::<
                    (),
                    GameError,
                >(e),
            },
    {
        match self.config.require_enabled() {
            Err(e) => {
                return Err(e);
            },
            Ok(()) => {},
        }
        match self.config.require_admin(caller) {
            Err(e) => {
                return Err(e);
            },
            Ok(()) => {},
        }
        let settled = match self.registry.lookup(game_id) {
            Err(e) => Err(e),
            Ok(game) => match check_settle(game, now) {
                Err(e) => Err(e),
                Ok(()) => Ok(settle(self.strategy, game, winners)),
            },
        };
        match settled {
            Err(e) => Err(e),
            Ok(payouts) => {
                self.registry.remove(game_id);
                Ok(payouts)
            },
        }
    }

    /// Switches maintenance off (`true`) or on (`false`). Owner only.
    pub fn set_enabled(&mut self, caller: &Identity, value: bool) -> (r: Result<(), GameError>)
        requires
            old(self).wf(),
        ensures
            final(self).wf(),
            r == old(self)@.config.owner_gate(*caller),
            final(self)@ == (EngineView {
                config: old(self)@.config.set_enabled(*caller, value),
                ..old(self)@
            }),
    {
        self.config.set_enabled(caller, value)
    }

    /// Makes `who` an admin; an admin stays one. Owner only.
    pub fn set_admin(&mut self, caller: &Identity, who: Identity) -> (r: Result<(), GameError>)
        requires
            old(self).wf(),
        ensures
            final(self).wf(),
            r == old(self)@.config.owner_gate(*caller),
            final(self)@ == (EngineView {
                config: old(self)@.config.set_admin(*caller, who),
                ..old(self)@
            }),
    {
        self.config.set_admin(caller, who)
    }

    /// Takes `who` from the admins; no error where `who` is none. Owner only.
    pub fn remove_admin(&mut self, caller: &Identity, who: &Identity) -> (r: Result<
        (),
        GameError,
    >)
        requires
            old(self).wf(),
        ensures
            final(self).wf(),
            r == old(self)@.config.owner_gate(*caller),
            final(self)@ == (EngineView {
                config: old(self)@.config.remove_admin(*caller, *who),
                ..old(self)@
            }),
    {
        self.config.remove_admin(caller, who)
    }

    /// Sets the token in which fees and wagers are paid. Games on record
    /// keep their wager. Owner only.
    pub fn set_payment_token(&mut self, caller: &Identity, token: TokenId) -> (r: Result<
        (),
        GameError,
    >)
        requires
            old(self).wf(),
        ensures
            final(self).wf(),
            r == old(self)@.config.owner_gate(*caller),
            final(self)@ == (EngineView {
                config: old(self)@.config.set_payment_token(*caller, token@),
                ..old(self)@
            }),
    {
        self.config.set_payment_token(caller, token)
    }

    /// Sets the fee for creating a game. Owner only.
    pub fn set_game_start_fee(&mut self, caller: &Identity, amount: u128) -> (r: Result<
        (),
        GameError,
    >)
        requires
            old(self).wf(),
        ensures
            final(self).wf(),
            r == old(self)@.config.owner_gate(*caller),
            final(self)@ == (EngineView {
                config: old(self)@.config.set_game_start_fee(*caller, amount),
                ..old(self)@
            }),
    {
        self.config.set_game_start_fee(caller, amount)
    }

    /// The token in which fees and wagers are paid.
    pub fn get_payment_token(&self) -> (r: &TokenId)
        ensures
            r@ == self@.config.payment_token,
    {
        self.config.get_payment_token()
    }

    /// The fee for creating a game.
    pub fn get_game_start_fee(&self) -> (r: u128)
        ensures
            r == self@.config.game_start_fee,
    {
        self.config.get_game_start_fee()
    }

    /// `false` while the engine is in maintenance.
    pub fn get_enabled(&self) -> (r: bool)
        ensures
            r == self@.config.enabled,
    {
        self.config.get_enabled()
    }

    /// Whether `who` is an admin.
    pub fn is_admin(&self, who: &Identity) -> (r: bool)
        ensures
            r == self@.config.admins.contains(*who),
    {
        self.config.is_admin(who)
    }

    /// The configuration.
    pub fn config(&self) -> (r: &GlobalConfig)
        ensures
            r@ == self@.config,
    {
        &self.config
    }

    /// The way rewards are split.
    pub fn strategy(&self) -> (r: SplitStrategy)
        ensures
            r == self@.strategy,
    {
        self.strategy
    }

    /// The id handed out last; 0 before the first game.
    pub fn get_last_game_id(&self) -> (id: u64)
        ensures
            id == self@.registry.last_game_id,
    {
        self.registry.get_last_game_id()
    }

    /// The game `game_id`, or `NotFound`.
    pub fn get_game_settings(&self, game_id: u64) -> (r: Result<&GameSettings, GameError>)
        requires
            self.wf(),
        ensures
            match r {
                Ok(game) => {
                    &&& self@.registry.games.dom().contains(game_id)
                    &&& game@ == self@.registry.games[game_id]
                    &&& game.wf()
                },
                Err(e) => e == GameError::NotFound && !self@.registry.games.dom().contains(
                    game_id,
                ),
            },
    {
        self.registry.lookup(game_id)
    }

    /// The players of the game `game_id` in the order in which they joined,
    /// or `NotFound`.
    pub fn get_players(&self, game_id: u64) -> (r: Result<Vec<Identity>, GameError>)
        requires
            self.wf(),
        ensures
            match r {
                Ok(players) => self@.registry.games.dom().contains(game_id) && players@
                    == self@.registry.games[game_id].players,
                Err(e) => e == GameError::NotFound && !self@.registry.games.dom().contains(
                    game_id,
                ),
            },
    {
        self.registry.get_players(game_id)
    }

    /// The ids of the games on record that `who` created or plays in, each
    /// once, in the order in which `who` came to them.
    pub fn get_games_per_user(&self, who: &Identity) -> (ids: Vec<u64>)
        requires
            self.wf(),
        ensures
            ids@.to_set() == self@.registry.games_per_user(*who),
            ids@.no_duplicates(),
    {
        self.registry.get_games_per_user(who)
    }
}

} // verus!
