//! One game: its settings, its players and the wagers it holds.

use vstd::prelude::*;
use crate::identity::Identity;
use crate::roster::{lemma_push_new, lemma_without, without, Roster};

verus! {

/// Whether a game has the players it needs.
#[derive(Clone, Copy, Debug, PartialEq, Eq, Structural)]
pub enum Status {
    /// Fewer players than the minimum.
    Invalid,
    /// The minimum of players has been reached.
    Valid,
}

/// A game as plain values.
pub ghost struct GameView {
    pub id: u64,
    pub creator: Identity,
    pub wager: u128,
    pub min_players: u64,
    pub max_players: u64,
    pub deadline: u64,
    pub status: Status,
    pub players: Seq<Identity>,
}

impl GameView {
    /// The wagers held for the game: one per player.
    pub open spec fn escrow(self) -> nat {
        (self.wager * self.players.len()) as nat
    }

    /// What holds of every game at all times.
    pub open spec fn valid(self) -> bool {
        &&& self.id >= 1
        &&& self.wager > 0
        &&& self.min_players >= 1
        &&& self.max_players >= 1
        &&& self.players.no_duplicates()
        &&& self.players.len() <= self.max_players
        &&& (self.status == Status::Valid <==> self.players.len() >= self.min_players)
        &&& self.wager * self.max_players <= u128::MAX
    }

    /// Whether `who` created the game or plays in it.
    pub open spec fn involves(self, who: Identity) -> bool {
        self.creator == who || self.players.contains(who)
    }

    /// A game as it is right after its creation: nobody has joined yet.
    pub open spec fn created(
        id: u64,
        creator: Identity,
        wager: u128,
        min_players: u64,
        max_players: u64,
        deadline: u64,
    ) -> GameView {
        GameView {
            id,
            creator,
            wager,
            min_players,
            max_players,
            deadline,
            status: Status::Invalid,
            players: Seq::empty(),
        }
    }

    /// The game after `who` has joined it: the last player, and the game valid
    /// once the minimum is reached.
    pub open spec fn joined(self, who: Identity) -> GameView {
        GameView {
            players: self.players.push(who),
            status: if self.players.len() + 1 >= self.min_players {
                Status::Valid
            } else {
                self.status
            },
            ..self
        }
    }

    /// The game after `who` has left it.
    pub open spec fn left(self, who: Identity) -> GameView {
        GameView { players: without(self.players, who), ..self }
    }
}

/// A newly created game is in order.
pub proof fn lemma_created_valid(
    id: u64,
    creator: Identity,
    wager: u128,
    min_players: u64,
    max_players: u64,
    deadline: u64,
)
    requires
        id >= 1,
        wager > 0,
        min_players >= 1,
        max_players >= 1,
        wager * max_players <= u128::MAX,
    ensures
        GameView::created(id, creator, wager, min_players, max_players, deadline).valid(),
        GameView::created(id, creator, wager, min_players, max_players, deadline).escrow() == 0,
{
    assert(wager * 0 == 0) by (nonlinear_arith);
}

/// Joining keeps a game in order and adds one wager to what it holds.
pub proof fn lemma_joined_valid(g: GameView, who: Identity)
    requires
        g.valid(),
        !g.players.contains(who),
        g.players.len() < g.max_players,
    ensures
        g.joined(who).valid(),
        g.joined(who).escrow() == g.escrow() + g.wager,
        g.joined(who).escrow() <= u128::MAX,
{
    lemma_push_new(g.players, who);
    let n = g.players.len() as int;
    let w = g.wager as int;
    let m = g.max_players as int;
    assert(w * (n + 1) == w * n + w) by (nonlinear_arith);
    assert(w * (n + 1) <= w * m) by (nonlinear_arith)
        requires
            n + 1 <= m,
            w >= 0,
    ;
}

/// Leaving keeps a game that is not valid in order and takes one wager from what it holds.
pub proof fn lemma_left_valid(g: GameView, who: Identity)
    requires
        g.valid(),
        g.status == Status::Invalid,
        g.players.contains(who),
    ensures
        g.left(who).valid(),
        g.left(who).escrow() + g.wager == g.escrow(),
        !g.left(who).players.contains(who),
{
    lemma_without(g.players, who);
    let n = g.players.len() as int;
    let w = g.wager as int;
    assert(w * (n - 1) == w * n - w) by (nonlinear_arith);
}

/// A game with its players and the wagers they paid in.
#[derive(Debug)]
pub struct GameSettings {
    id: u64,
    creator: Identity,
    wager: u128,
    min_players: u64,
    max_players: u64,
    deadline: u64,
    status: Status,
    players: Roster,
    escrow: u128,
}

impl View for GameSettings {
    type V = GameView;

    closed spec fn view(&self) -> GameView {
        GameView {
            id: self.id,
            creator: self.creator,
            wager: self.wager,
            min_players: self.min_players,
            max_players: self.max_players,
            deadline: self.deadline,
            status: self.status,
            players: self.players@,
        }
    }
}

/// A game's settings without its players, the wager narrowed to 64 bits.
#[derive(Clone, Copy, Debug, PartialEq, Eq)]
pub struct GameSettingsMock {
    /// The deadline: the time of creation plus the waiting time.
    pub time_limit: u64,
    pub number_of_players_min: u64,
    pub number_of_players_max: u64,
    pub wager: u64,
    pub creator: Identity,
    pub status: Status,
}

impl GameSettings {
    /// The game is in order and holds one wager per player.
    pub closed spec fn wf(&self) -> bool {
        &&& self@.valid()
        &&& self.escrow == self@.escrow()
    }

    /// A game in order is valid as plain values.
    pub proof fn lemma_wf_valid(&self)
        requires
            self.wf(),
        ensures
            self@.valid(),
    {
    }

    /// A new game that nobody has joined yet.
    pub fn new(
        id: u64,
        creator: Identity,
        wager: u128,
        min_players: u64,
        max_players: u64,
        deadline: u64,
    ) -> (g: GameSettings)
        requires
            id >= 1,
            wager > 0,
            min_players >= 1,
            max_players >= 1,
            wager * max_players <= u128::MAX,
        ensures
            g.wf(),
            g@ == GameView::created(id, creator, wager, min_players, max_players, deadline),
    {
        proof {
            lemma_created_valid(id, creator, wager, min_players, max_players, deadline);
        }
        GameSettings {
            id,
            creator,
            wager,
            min_players,
            max_players,
            deadline,
            status: Status::Invalid,
            players: Roster::new(),
            escrow: 0,
        }
    }

    pub fn id(&self) -> (r: u64)
        ensures
            r == self@.id,
    {
        self.id
    }

    pub fn creator(&self) -> (r: Identity)
        ensures
            r == self@.creator,
    {
        self.creator
    }

    pub fn wager(&self) -> (r: u128)
        ensures
            r == self@.wager,
    {
        self.wager
    }

    pub fn min_players(&self) -> (r: u64)
        ensures
            r == self@.min_players,
    {
        self.min_players
    }

    pub fn max_players(&self) -> (r: u64)
        ensures
            r == self@.max_players,
    {
        self.max_players
    }

    pub fn deadline(&self) -> (r: u64)
        ensures
            r == self@.deadline,
    {
        self.deadline
    }

    pub fn status(&self) -> (r: Status)
        ensures
            r == self@.status,
    {
        self.status
    }

    /// The players in the order in which they joined.
    pub fn players(&self) -> (r: &Roster)
        ensures
            r@ == self@.players,
    {
        &self.players
    }

    /// How many players have joined.
    pub fn player_count(&self) -> (n: usize)
        ensures
            n == self@.players.len(),
    {
        self.players.len()
    }

    /// Whether `who` has joined.
    pub fn has_player(&self, who: &Identity) -> (r: bool)
        ensures
            r == self@.players.contains(*who),
    {
        self.players.contains(who)
    }

    /// Whether `who` created the game or plays in it.
    pub fn involves(&self, who: &Identity) -> (r: bool)
        ensures
            r == self@.involves(*who),
    {
        self.creator == *who || self.players.contains(who)
    }

    /// Whether the game admits no further player.
    pub fn is_full(&self) -> (r: bool)
        ensures
            r == (self@.players.len() >= self@.max_players),
    {
        let n: usize = self.players.len();
        n as u64 >= self.max_players
    }

    /// The wagers held for the game: one per player.
    pub fn escrow(&self) -> (r: u128)
        requires
            self.wf(),
        ensures
            r == self@.escrow(),
            r == self@.wager * self@.players.len(),
    {
        self.escrow
    }

    /// The settings without the players; `None` where the wager does not fit 64 bits.
    pub fn mock(&self) -> (r: Option<GameSettingsMock>)
        ensures
            r is Some <==> self@.wager <= u64::MAX,
            r matches Some(m) ==> {
                &&& m.time_limit == self@.deadline
                &&& m.number_of_players_min == self@.min_players
                &&& m.number_of_players_max == self@.max_players
                &&& m.wager == self@.wager
                &&& m.creator == self@.creator
                &&& m.status == self@.status
            },
    {
        if self.wager <= u64::MAX as u128 {
            Some(
                GameSettingsMock {
                    time_limit: self.deadline,
                    number_of_players_min: self.min_players,
                    number_of_players_max: self.max_players,
                    wager: self.wager as u64,
                    creator: self.creator,
                    status: self.status,
                },
            )
        } else {
            None
        }
    }

    /// Takes `who` in as the last player, with one more wager held.
    pub(crate) fn add_player(&mut self, who: Identity)
        requires
            old(self).wf(),
            !old(self)@.players.contains(who),
            old(self)@.players.len() < old(self)@.max_players,
        ensures
            final(self).wf(),
            final(self)@ == old(self)@.joined(who),
    {
        proof {
            lemma_joined_valid(self@, who);
        }
        self.players.insert(who);
        self.escrow = self.escrow + self.wager;
        if self.players.len() as u64 >= self.min_players {
            self.status = Status::Valid;
        }
    }

    /// Lets `who` go, with one wager less held.
    pub(crate) fn remove_player(&mut self, who: &Identity)
        requires
            old(self).wf(),
            old(self)@.status == Status::Invalid,
            old(self)@.players.contains(*who),
        ensures
            final(self).wf(),
            final(self)@ == old(self)@.left(*who),
    {
        proof {
            lemma_left_valid(self@, *who);
        }
        self.players.remove(who);
        self.escrow = self.escrow - self.wager;
    }
}

} // verus!
