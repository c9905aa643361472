//! The engine's configuration: the maintenance switch, the owner, the admins,
//! the payment token and the fee for creating a game.

use vstd::prelude::*;
use crate::error::{GameError, Role, Setting};
use crate::identity::Identity;
use crate::roster::Roster;
use crate::token::TokenId;

verus! {

/// The configuration as plain values.
pub ghost struct ConfigView {
    /// `false` while the engine is in maintenance.
    pub enabled: bool,
    pub payment_token: Seq<char>,
    pub game_start_fee: u128,
    pub owner: Identity,
    pub admins: Set<Identity>,
}

/// Which setting a new configuration lacks, the fee looked at first. A fee of
/// zero and an empty token identifier count as absent.
pub open spec fn init_missing(fee: Option<u128>, token: Option<Seq<char>>) -> Option<Setting> {
    if fee is None || fee == Some(0u128) {
        Some(Setting::GameStartFee)
    } else if token is None || token->Some_0.len() == 0 {
        Some(Setting::PaymentToken)
    } else {
        None
    }
}

impl ConfigView {
    /// Passes the owner, and nobody else.
    pub open spec fn owner_gate(self, caller: Identity) -> Result<(), GameError> {
        if caller == self.owner {
            Ok(())
        } else {
            Err(GameError::Unauthorized(Role::Owner))
        }
    }

    /// Passes the admins, and nobody else.
    pub open spec fn admin_gate(self, caller: Identity) -> Result<(), GameError> {
        if self.admins.contains(caller) {
            Ok(())
        } else {
            Err(GameError::Unauthorized(Role::Admin))
        }
    }

    /// Passes unless the engine is in maintenance.
    pub open spec fn maintenance_gate(self) -> Result<(), GameError> {
        if self.enabled {
            Ok(())
        } else {
            Err(GameError::MaintenanceActive)
        }
    }

    /// Which setting is absent, the fee looked at first.
    pub open spec fn missing(self) -> Option<Setting> {
        init_missing(Some(self.game_start_fee), Some(self.payment_token))
    }

    /// The configuration after `set_enabled`.
    pub open spec fn set_enabled(self, caller: Identity, value: bool) -> ConfigView {
        if caller == self.owner {
            ConfigView { enabled: value, ..self }
        } else {
            self
        }
    }

    /// The configuration after `set_admin`.
    pub open spec fn set_admin(self, caller: Identity, who: Identity) -> ConfigView {
        if caller == self.owner {
            ConfigView { admins: self.admins.insert(who), ..self }
        } else {
            self
        }
    }

    /// The configuration after `remove_admin`.
    pub open spec fn remove_admin(self, caller: Identity, who: Identity) -> ConfigView {
        if caller == self.owner {
            ConfigView { admins: self.admins.remove(who), ..self }
        } else {
            self
        }
    }

    /// The configuration after `set_payment_token`.
    pub open spec fn set_payment_token(self, caller: Identity, token: Seq<char>) -> ConfigView {
        if caller == self.owner {
            ConfigView { payment_token: token, ..self }
        } else {
            self
        }
    }

    /// The configuration after `set_game_start_fee`.
    pub open spec fn set_game_start_fee(self, caller: Identity, amount: u128) -> ConfigView {
        if caller == self.owner {
            ConfigView { game_start_fee: amount, ..self }
        } else {
            self
        }
    }
}

/// The configuration that every operation reads.
#[derive(Debug)]
pub struct GlobalConfig {
    enabled: bool,
    payment_token: TokenId,
    game_start_fee: u128,
    owner: Identity,
    admins: Roster,
}

impl View for GlobalConfig {
    type V = ConfigView;

    closed spec fn view(&self) -> ConfigView {
        ConfigView {
            enabled: self.enabled,
            payment_token: self.payment_token@,
            game_start_fee: self.game_start_fee,
            owner: self.owner,
            admins: self.admins@.to_set(),
        }
    }
}

impl GlobalConfig {
    /// No admin is listed twice.
    pub closed spec fn wf(&self) -> bool {
        self.admins.wf()
    }

    /// Sets the engine up for `owner`. Both the fee and the token must be
    /// given and be other than zero and empty. Passing `enabled_opt` at all
    /// switches the engine on, whatever the flag holds; without it the engine
    /// starts in maintenance.
    pub fn init(
        owner: Identity,
        enabled_opt: Option<bool>,
        game_start_fee_opt: Option<u128>,
        token_id_opt: Option<TokenId>,
    ) -> (r: Result<GlobalConfig, GameError>)
        ensures
            match r {
                Ok(c) => {
                    &&& init_missing(game_start_fee_opt, token_view(token_id_opt)) is None
                    &&& c.wf()
                    &&& c@ == (ConfigView {
                        enabled: enabled_opt is Some,
                        payment_token: token_id_opt->Some_0@,
                        game_start_fee: game_start_fee_opt->Some_0,
                        owner,
                        admins: Set::empty(),
                    })
                },
                Err(e) => init_missing(game_start_fee_opt, token_view(token_id_opt)) == Some(
                    e->ConfigIncomplete_0,
                ) && e is ConfigIncomplete,
            },
    {
        let game_start_fee = match game_start_fee_opt {
            Some(fee) => fee,
            None => {
                return Err(GameError::ConfigIncomplete(Setting::GameStartFee));
            },
        };
        if game_start_fee == 0 {
            return Err(GameError::ConfigIncomplete(Setting::GameStartFee));
        }
        let payment_token = match token_id_opt {
            Some(token) => token,
            None => {
                return Err(GameError::ConfigIncomplete(Setting::PaymentToken));
            },
        };
        if payment_token.is_empty() {
            return Err(GameError::ConfigIncomplete(Setting::PaymentToken));
        }
        let admins = Roster::new();
        assert(admins@.to_set() =~= Set::<Identity>::empty());
        Ok(
            GlobalConfig {
                enabled: enabled_opt.is_some(),
                payment_token,
                game_start_fee,
                owner,
                admins,
            },
        )
    }

    /// Fails with `Unauthorized(Owner)` unless `caller` is the owner.
    pub fn require_owner(&self, caller: &Identity) -> (r: Result<(), GameError>)
        ensures
            r == self@.owner_gate(*caller),
    {
        if *caller == self.owner {
            Ok(())
        } else {
            Err(GameError::Unauthorized(Role::Owner))
        }
    }

    /// Fails with `Unauthorized(Admin)` unless `caller` is an admin.
    pub fn require_admin(&self, caller: &Identity) -> (r: Result<(), GameError>)
        ensures
            r == self@.admin_gate(*caller),
    {
        if self.admins.contains(caller) {
            Ok(())
        } else {
            Err(GameError::Unauthorized(Role::Admin))
        }
    }

    /// Fails with `MaintenanceActive` while the engine is in maintenance.
    pub fn require_enabled(&self) -> (r: Result<(), GameError>)
        ensures
            r == self@.maintenance_gate(),
    {
        if self.enabled {
            Ok(())
        } else {
            Err(GameError::MaintenanceActive)
        }
    }

    /// Fails with `ConfigIncomplete` while the fee is zero or the token empty.
    pub fn require_complete(&self) -> (r: Result<(), GameError>)
        ensures
            r == match self@.missing() {
                Some(setting) => Err::<(), GameError>(GameError::ConfigIncomplete(setting)),
                None => Ok::<(), GameError>(()),
            },
    {
        if self.game_start_fee == 0 {
            Err(GameError::ConfigIncomplete(Setting::GameStartFee))
        } else if self.payment_token.is_empty() {
            Err(GameError::ConfigIncomplete(Setting::PaymentToken))
        } else {
            Ok(())
        }
    }

    /// Switches maintenance off (`true`) or on (`false`). Owner only.
    pub fn set_enabled(&mut self, caller: &Identity, value: bool) -> (r: Result<(), GameError>)
        requires
            old(self).wf(),
        ensures
            final(self).wf(),
            r == old(self)@.owner_gate(*caller),
            final(self)@ == old(self)@.set_enabled(*caller, value),
    {
        if *caller == self.owner {
            self.enabled = value;
            Ok(())
        } else {
            Err(GameError::Unauthorized(Role::Owner))
        }
    }

    /// Makes `who` an admin; an admin stays one. Owner only.
    pub fn set_admin(&mut self, caller: &Identity, who: Identity) -> (r: Result<(), GameError>)
        requires
            old(self).wf(),
        ensures
            final(self).wf(),
            r == old(self)@.owner_gate(*caller),
            final(self)@ == old(self)@.set_admin(*caller, who),
    {
        if *caller == self.owner {
            self.admins.insert(who);
            Ok(())
        } else {
            Err(GameError::Unauthorized(Role::Owner))
        }
    }

    /// Takes `who` from the admins; no error where `who` is none. Owner only.
    pub fn remove_admin(&mut self, caller: &Identity, who: &Identity) -> (r: Result<
        (),
        GameError,
    >)
        requires
            old(self).wf(),
        ensures
            final(self).wf(),
            r == old(self)@.owner_gate(*caller),
            final(self)@ == old(self)@.remove_admin(*caller, *who),
    {
        if *caller == self.owner {
            self.admins.remove(who);
            Ok(())
        } else {
            Err(GameError::Unauthorized(Role::Owner))
        }
    }

    /// Whether `who` is an admin.
    pub fn is_admin(&self, who: &Identity) -> (r: bool)
        ensures
            r == self@.admins.contains(*who),
    {
        self.admins.contains(who)
    }

    /// Sets the token in which fees and wagers are paid. Owner only.
    pub fn set_payment_token(&mut self, caller: &Identity, token: TokenId) -> (r: Result<
        (),
        GameError,
    >)
        requires
            old(self).wf(),
        ensures
            final(self).wf(),
            r == old(self)@.owner_gate(*caller),
            final(self)@ == old(self)@.set_payment_token(*caller, token@),
    {
        if *caller == self.owner {
            self.payment_token = token;
            Ok(())
        } else {
            Err(GameError::Unauthorized(Role::Owner))
        }
    }

    /// Sets the fee for creating a game. Owner only.
    pub fn set_game_start_fee(&mut self, caller: &Identity, amount: u128) -> (r: Result<
        (),
        GameError,
    >)
        requires
            old(self).wf(),
        ensures
            final(self).wf(),
            r == old(self)@.owner_gate(*caller),
            final(self)@ == old(self)@.set_game_start_fee(*caller, amount),
    {
        if *caller == self.owner {
            self.game_start_fee = amount;
            Ok(())
        } else {
            Err(GameError::Unauthorized(Role::Owner))
        }
    }

    /// The token in which fees and wagers are paid.
    pub fn get_payment_token(&self) -> (r: &TokenId)
        ensures
            r@ == self@.payment_token,
    {
        &self.payment_token
    }

    /// The fee for creating a game.
    pub fn get_game_start_fee(&self) -> (r: u128)
        ensures
            r == self@.game_start_fee,
    {
        self.game_start_fee
    }

    /// `false` while the engine is in maintenance.
    pub fn get_enabled(&self) -> (r: bool)
        ensures
            r == self@.enabled,
    {
        self.enabled
    }

    /// The owner.
    pub fn owner(&self) -> (r: Identity)
        ensures
            r == self@.owner,
    {
        self.owner
    }
}

/// The text of an optional token identifier.
pub open spec fn token_view(token: Option<TokenId>) -> Option<Seq<char>> {
    match token {
        Some(t) => Some(t@),
        None => None,
    }
}

} // verus!
