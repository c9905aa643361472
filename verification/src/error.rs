//! The failures an operation can end in, each with its message.

use vstd::prelude::*;

verus! {

/// A setting that must be present before games can be created.
#[derive(Clone, Copy, Debug, PartialEq, Eq, Structural)]
pub enum Setting {
    PaymentToken,
    GameStartFee,
}

/// A parameter of `create_game` that may not be zero.
#[derive(Clone, Copy, Debug, PartialEq, Eq, Structural)]
pub enum Parameter {
    Wager,
    WaitingTime,
    PlayerCount,
}

/// What an attached payment was meant to pay.
#[derive(Clone, Copy, Debug, PartialEq, Eq, Structural)]
pub enum Purpose {
    /// The fee for creating a game.
    StartFee,
    /// The wager for joining a game.
    Wager,
}

/// The standing an operation demands of its caller.
#[derive(Clone, Copy, Debug, PartialEq, Eq, Structural)]
pub enum Role {
    Owner,
    Admin,
}

/// Why an operation was rejected. A rejected operation changes nothing.
#[derive(Clone, Copy, Debug, PartialEq, Eq, Structural)]
pub enum GameError {
    /// The maintenance switch is on.
    MaintenanceActive,
    /// A setting is absent.
    ConfigIncomplete(Setting),
    /// A parameter is zero.
    InvalidParam(Parameter),
    /// The payment is in another token than the configured one.
    WrongToken(Purpose),
    /// The payment is not the amount due.
    WrongAmount(Purpose),
    /// No game has the given id.
    NotFound,
    /// The game's deadline has passed.
    Expired,
    /// The game has all the players it admits.
    Full,
    /// The caller is in the game already.
    AlreadyJoined,
    /// The caller is not in the game.
    NotParticipant,
    /// The game's deadline has not passed yet.
    TooEarly,
    /// The game has reached its minimum of players.
    WrongState,
    /// The caller lacks the standing that the operation demands.
    Unauthorized(Role),
}

impl GameError {
    /// The message that goes with the failure.
    pub open spec fn message_text(self) -> Seq<char> {
        match self {
            GameError::MaintenanceActive => "maintenance"@,
            GameError::ConfigIncomplete(Setting::PaymentToken) => "fee token id not set"@,
            GameError::ConfigIncomplete(Setting::GameStartFee) => "game start fee not set"@,
            GameError::InvalidParam(Parameter::Wager) => "wager can't be 0"@,
            GameError::InvalidParam(Parameter::WaitingTime) => "waiting time can't be 0"@,
            GameError::InvalidParam(Parameter::PlayerCount) => "number of players cannot be 0"@,
            GameError::WrongToken(Purpose::StartFee) => "wrong token id"@,
            GameError::WrongToken(Purpose::Wager) => "wrong token sent"@,
            GameError::WrongAmount(Purpose::StartFee) => "start game payment amount not right"@,
            GameError::WrongAmount(Purpose::Wager) => "wrong amount paid"@,
            GameError::NotFound => "no settings for game id"@,
            GameError::Expired => "waiting time has passed"@,
            GameError::Full => "max number of players reached"@,
            GameError::AlreadyJoined => "user already joined this game"@,
            GameError::NotParticipant => "caller has not joined the game"@,
            GameError::TooEarly => "waiting time is not over yet"@,
            GameError::WrongState => "can manually claim back wager only if the game is invalid"@,
            GameError::Unauthorized(Role::Owner) => "Endpoint can only be called by owner"@,
            GameError::Unauthorized(Role::Admin) => "Item not whitelisted"@,
        }
    }

    /// The message that goes with the failure.
    pub fn message(&self) -> (text: &'static str)
        ensures
            text@ == self.message_text(),
    {
        match self {
            GameError::MaintenanceActive => "maintenance",
            GameError::ConfigIncomplete(Setting::PaymentToken) => "fee token id not set",
            GameError::ConfigIncomplete(Setting::GameStartFee) => "game start fee not set",
            GameError::InvalidParam(Parameter::Wager) => "wager can't be 0",
            GameError::InvalidParam(Parameter::WaitingTime) => "waiting time can't be 0",
            GameError::InvalidParam(Parameter::PlayerCount) => "number of players cannot be 0",
            GameError::WrongToken(Purpose::StartFee) => "wrong token id",
            GameError::WrongToken(Purpose::Wager) => "wrong token sent",
            GameError::WrongAmount(Purpose::StartFee) => "start game payment amount not right",
            GameError::WrongAmount(Purpose::Wager) => "wrong amount paid",
            GameError::NotFound => "no settings for game id",
            GameError::Expired => "waiting time has passed",
            GameError::Full => "max number of players reached",
            GameError::AlreadyJoined => "user already joined this game",
            GameError::NotParticipant => "caller has not joined the game",
            GameError::TooEarly => "waiting time is not over yet",
            GameError::WrongState => "can manually claim back wager only if the game is invalid",
            GameError::Unauthorized(Role::Owner) => "Endpoint can only be called by owner",
            GameError::Unauthorized(Role::Admin) => "Item not whitelisted",
        }
    }
}

} // verus!
