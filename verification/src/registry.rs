//! The games on record: ids are handed out in turn and never reused.

use vstd::prelude::*;
use crate::error::GameError;
use crate::game::{GameSettings, GameView, Status};
use crate::identity::Identity;
use crate::index::UserIndex;
use crate::roster::{lemma_push_new, lemma_without};

verus! {

/// The games on record as plain values.
pub ghost struct RegistryView {
    /// The id handed out last; 0 before the first game.
    pub last_game_id: u64,
    /// The games that have not been settled or refunded, by id.
    pub games: Map<u64, GameView>,
}

impl RegistryView {
    /// Every game is filed under its own id, which has been handed out, and is in order.
    pub open spec fn valid(self) -> bool {
        forall|id: u64| #[trigger]
            self.games.dom().contains(id) ==> {
                &&& self.games[id].id == id
                &&& id <= self.last_game_id
                &&& self.games[id].valid()
            }
    }

    /// The ids of the games that `who` created or plays in.
    pub open spec fn games_per_user(self, who: Identity) -> Set<u64> {
        Set::new(|id: u64| self.games.dom().contains(id) && self.games[id].involves(who))
    }

    /// The id that the next game gets.
    pub open spec fn next_id(self) -> int {
        self.last_game_id + 1
    }

    /// The registry after a game with these settings was put on record.
    pub open spec fn allocated(
        self,
        creator: Identity,
        wager: u128,
        min_players: u64,
        max_players: u64,
        deadline: u64,
    ) -> RegistryView {
        let id = self.next_id() as u64;
        RegistryView {
            last_game_id: id,
            games: self.games.insert(
                id,
                GameView::created(id, creator, wager, min_players, max_players, deadline),
            ),
        }
    }

    /// The registry with the game under `game.id` replaced by `game`.
    pub open spec fn updated(self, game: GameView) -> RegistryView {
        RegistryView { games: self.games.insert(game.id, game), ..self }
    }

    /// The registry without the game `id`.
    pub open spec fn removed(self, id: u64) -> RegistryView {
        RegistryView { games: self.games.remove(id), ..self }
    }

    /// The registry after `who` has joined the game `id`.
    pub open spec fn joined(self, id: u64, who: Identity) -> RegistryView {
        self.updated(self.games[id].joined(who))
    }

    /// The registry after `who` has left the game `id`: a game that nobody
    /// is left in goes off the record.
    pub open spec fn left(self, id: u64, who: Identity) -> RegistryView {
        let game = self.games[id].left(who);
        if game.players.len() == 0 {
            self.removed(id)
        } else {
            self.updated(game)
        }
    }
}

/// The ids rise along the sequence.
spec fn ascending(s: Seq<GameSettings>) -> bool {
    forall|i: int, j: int| 0 <= i < j < s.len() ==> (#[trigger] s[i])@.id < (#[trigger] s[j])@.id
}

/// The games of a sequence, by id.
spec fn games_of(s: Seq<GameSettings>) -> Map<u64, GameView> {
    Map::new(
        |id: u64| exists|i: int| 0 <= i < s.len() && (#[trigger] s[i])@.id == id,
        |id: u64| s[choose|i: int| 0 <= i < s.len() && (#[trigger] s[i])@.id == id]@,
    )
}

proof fn lemma_games_at(s: Seq<GameSettings>, i: int)
    requires
        ascending(s),
        0 <= i < s.len(),
    ensures
        games_of(s).dom().contains(s[i]@.id),
        games_of(s)[s[i]@.id] == s[i]@,
{
    let id = s[i]@.id;
    let k = choose|k: int| 0 <= k < s.len() && (#[trigger] s[k])@.id == id;
    assert(k == i) by {
        if k < i {
            assert(s[k]@.id < s[i]@.id);
        } else if i < k {
            assert(s[i]@.id < s[k]@.id);
        }
    }
}

proof fn lemma_games_push(s: Seq<GameSettings>, g: GameSettings)
    requires
        ascending(s),
        forall|i: int| 0 <= i < s.len() ==> (#[trigger] s[i])@.id < g@.id,
    ensures
        ascending(s.push(g)),
        games_of(s.push(g)) == games_of(s).insert(g@.id, g@),
{
    let t = s.push(g);
    assert(ascending(t));
    assert forall|id: u64| games_of(t).dom().contains(id) <==> games_of(s).insert(
        g@.id,
        g@,
    ).dom().contains(id) by {
        if games_of(t).dom().contains(id) {
            let k = choose|k: int| 0 <= k < t.len() && (#[trigger] t[k])@.id == id;
            if k < s.len() {
                assert(s[k]@.id == id);
            }
        }
        if games_of(s).dom().contains(id) {
            let k = choose|k: int| 0 <= k < s.len() && (#[trigger] s[k])@.id == id;
            assert(t[k]@.id == id);
        }
        if id == g@.id {
            assert(t[s.len() as int]@.id == id);
        }
    }
    assert forall|id: u64| games_of(t).dom().contains(id) implies #[trigger] games_of(t)[id]
        == games_of(s).insert(g@.id, g@)[id] by {
        let k = choose|k: int| 0 <= k < t.len() && (#[trigger] t[k])@.id == id;
        lemma_games_at(t, k);
        if k < s.len() {
            assert(s[k] == t[k]);
            lemma_games_at(s, k);
        }
    }
    assert(games_of(t) =~= games_of(s).insert(g@.id, g@));
}

proof fn lemma_games_update(s: Seq<GameSettings>, i: int, g: GameSettings)
    requires
        ascending(s),
        0 <= i < s.len(),
        g@.id == s[i]@.id,
    ensures
        ascending(s.update(i, g)),
        games_of(s.update(i, g)) == games_of(s).insert(g@.id, g@),
{
    let t = s.update(i, g);
    assert forall|a: int, b: int| 0 <= a < b < t.len() implies (#[trigger] t[a])@.id < (
    #[trigger] t[b])@.id by {
        assert(t[a]@.id == s[a]@.id);
        assert(t[b]@.id == s[b]@.id);
    }
    assert forall|id: u64| games_of(t).dom().contains(id) <==> games_of(s).insert(
        g@.id,
        g@,
    ).dom().contains(id) by {
        if games_of(t).dom().contains(id) {
            let k = choose|k: int| 0 <= k < t.len() && (#[trigger] t[k])@.id == id;
            assert(s[k]@.id == id);
        }
        if games_of(s).dom().contains(id) {
            let k = choose|k: int| 0 <= k < s.len() && (#[trigger] s[k])@.id == id;
            assert(t[k]@.id == id);
        }
        if id == g@.id {
            assert(t[i]@.id == id);
        }
    }
    assert forall|id: u64| games_of(t).dom().contains(id) implies #[trigger] games_of(t)[id]
        == games_of(s).insert(g@.id, g@)[id] by {
        let k = choose|k: int| 0 <= k < t.len() && (#[trigger] t[k])@.id == id;
        lemma_games_at(t, k);
        if k != i {
            assert(s[k] == t[k]);
            lemma_games_at(s, k);
            lemma_games_at(s, i);
        }
    }
    assert(games_of(t) =~= games_of(s).insert(g@.id, g@));
}

proof fn lemma_games_remove(s: Seq<GameSettings>, i: int)
    requires
        ascending(s),
        0 <= i < s.len(),
    ensures
        ascending(s.remove(i)),
        games_of(s.remove(i)) == games_of(s).remove(s[i]@.id),
{
    let t = s.remove(i);
    s.remove_ensures(i);
    assert forall|a: int, b: int| 0 <= a < b < t.len() implies (#[trigger] t[a])@.id < (
    #[trigger] t[b])@.id by {
        let sa = if a < i { a } else { a + 1 };
        let sb = if b < i { b } else { b + 1 };
        assert(t[a] == s[sa]);
        assert(t[b] == s[sb]);
    }
    let gone = s[i]@.id;
    assert forall|id: u64| games_of(t).dom().contains(id) <==> games_of(s).remove(
        gone,
    ).dom().contains(id) by {
        if games_of(t).dom().contains(id) {
            let k = choose|k: int| 0 <= k < t.len() && (#[trigger] t[k])@.id == id;
            let sk = if k < i { k } else { k + 1 };
            assert(t[k] == s[sk]);
            assert(s[sk]@.id == id);
            if sk < i {
                assert(s[sk]@.id < s[i]@.id);
            } else {
                assert(s[i]@.id < s[sk]@.id);
            }
        }
        if games_of(s).remove(gone).dom().contains(id) {
            let k = choose|k: int| 0 <= k < s.len() && (#[trigger] s[k])@.id == id;
            if k < i {
                assert(t[k] == s[k]);
                assert(t[k]@.id == id);
            } else {
                assert(t[k - 1] == s[k]);
                assert(t[k - 1]@.id == id);
            }
        }
    }
    assert forall|id: u64| games_of(t).dom().contains(id) implies #[trigger] games_of(t)[id]
        == games_of(s).remove(gone)[id] by {
        let k = choose|k: int| 0 <= k < t.len() && (#[trigger] t[k])@.id == id;
        let sk = if k < i { k } else { k + 1 };
        assert(t[k] == s[sk]);
        lemma_games_at(t, k);
        lemma_games_at(s, sk);
    }
    assert(games_of(t) =~= games_of(s).remove(gone));
}

/// Whether the index lists for each user the games on record that the
/// user created or plays in, and no others.
spec fn agrees(index: UserIndex, games: Map<u64, GameView>) -> bool {
    &&& index.wf()
    &&& forall|who: Identity, id: u64| #[trigger]
        index.lists(who, id) <==> games.dom().contains(id) && games[id].involves(who)
}

/// The games on record, with an index of them by user.
#[derive(Debug)]
pub struct Registry {
    last_game_id: u64,
    /// The games, in the order of their ids.
    games: Vec<GameSettings>,
    /// For each user the games created or played in: kept in step with
    /// `games` by every operation.
    index: UserIndex,
}

impl View for Registry {
    type V = RegistryView;

    closed spec fn view(&self) -> RegistryView {
        RegistryView { last_game_id: self.last_game_id, games: games_of(self.games@) }
    }
}

impl Registry {
    /// The games stand in the order of their ids, each in order, no id is
    /// beyond the one handed out last, and the index agrees with the games.
    pub closed spec fn wf(&self) -> bool {
        &&& ascending(self.games@)
        &&& forall|i: int|
            0 <= i < self.games@.len() ==> {
                &&& (#[trigger] self.games@[i]).wf()
                &&& self.games@[i]@.id <= self.last_game_id
            }
        &&& agrees(self.index, games_of(self.games@))
    }

    /// A registry in order is valid as plain values.
    pub proof fn lemma_wf_valid(&self)
        requires
            self.wf(),
        ensures
            self@.valid(),
    {
        let s = self.games@;
        assert forall|id: u64| #[trigger] self@.games.dom().contains(id) implies {
            &&& self@.games[id].id == id
            &&& id <= self.last_game_id
            &&& self@.games[id].valid()
        } by {
            let k = choose|k: int| 0 <= k < s.len() && (#[trigger] s[k])@.id == id;
            lemma_games_at(s, k);
            s[k].lemma_wf_valid();
        }
    }

    /// A registry with no game on record and no id handed out.
    pub fn new() -> (r: Registry)
        ensures
            r.wf(),
            r@ == (RegistryView { last_game_id: 0, games: Map::empty() }),
    {
        let r = Registry { last_game_id: 0, games: Vec::new(), index: UserIndex::new() };
        assert(r@.games =~= Map::<u64, GameView>::empty());
        r
    }

    /// The id handed out last; 0 before the first game.
    pub fn get_last_game_id(&self) -> (id: u64)
        ensures
            id == self@.last_game_id,
    {
        self.last_game_id
    }

    /// Where the game `id` stands, if on record.
    fn find(&self, id: u64) -> (at: Option<usize>)
        requires
            self.wf(),
        ensures
            match at {
                Some(i) => {
                    &&& i < self.games@.len()
                    &&& self.games@[i as int]@.id == id
                    &&& self@.games.dom().contains(id)
                    &&& self@.games[id] == self.games@[i as int]@
                },
                None => !self@.games.dom().contains(id),
            },
    {
        let mut i: usize = 0;
        while i < self.games.len()
            invariant
                self.wf(),
                i <= self.games.len(),
                forall|k: int| 0 <= k < i ==> (#[trigger] self.games@[k])@.id != id,
            decreases self.games.len() - i,
        {
            if self.games[i].id() == id {
                proof {
                    lemma_games_at(self.games@, i as int);
                }
                return Some(i);
            }
            i += 1;
        }
        None
    }

    /// Puts a new game on record under the next id, and returns that id.
    pub fn allocate_game(
        &mut self,
        creator: Identity,
        wager: u128,
        min_players: u64,
        max_players: u64,
        deadline: u64,
    ) -> (id: u64)
        requires
            old(self).wf(),
            old(self)@.last_game_id < u64::MAX,
            wager > 0,
            min_players >= 1,
            max_players >= 1,
            wager * max_players <= u128::MAX,
        ensures
            final(self).wf(),
            id == old(self)@.last_game_id + 1,
            final(self)@ == old(self)@.allocated(
                creator,
                wager,
                min_players,
                max_players,
                deadline,
            ),
    {
        let id: u64 = self.last_game_id + 1;
        let game = GameSettings::new(id, creator, wager, min_players, max_players, deadline);
        proof {
            self.lemma_wf_valid();
            lemma_games_push(self.games@, game);
        }
        self.last_game_id = id;
        self.games.push(game);
        self.index.add(creator, id);
        id
    }

    /// The game `id`, or `NotFound`.
    pub fn lookup(&self, id: u64) -> (r: Result<&GameSettings, GameError>)
        requires
            self.wf(),
        ensures
            match r {
                Ok(game) => {
                    &&& self@.games.dom().contains(id)
                    &&& game@ == self@.games[id]
                    &&& game.wf()
                },
                Err(e) => e == GameError::NotFound && !self@.games.dom().contains(id),
            },
    {
        match self.find(id) {
            Some(i) => Ok(&self.games[i]),
            None => Err(GameError::NotFound),
        }
    }

    /// Takes the game `id` off the record and off the index; nothing changes
    /// where there is none.
    pub fn remove(&mut self, id: u64)
        requires
            old(self).wf(),
        ensures
            final(self).wf(),
            final(self)@ == old(self)@.removed(id),
    {
        match self.find(id) {
            Some(i) => {
                proof {
                    lemma_games_remove(self.games@, i as int);
                    self.games@.remove_ensures(i as int);
                }
                self.games.remove(i);
            },
            None => {
                assert(self@.games =~= self@.games.remove(id));
            },
        }
        self.index.remove_game(id);
    }

    /// Takes `who` into the game `id`, and lists the game for `who`.
    pub(crate) fn join(&mut self, id: u64, who: Identity)
        requires
            old(self).wf(),
            old(self)@.games.dom().contains(id),
            !old(self)@.games[id].players.contains(who),
            old(self)@.games[id].players.len() < old(self)@.games[id].max_players,
        ensures
            final(self).wf(),
            final(self)@ == old(self)@.joined(id, who),
    {
        match self.find(id) {
            Some(i) => {
                proof {
                    self.lemma_wf_valid();
                    lemma_push_new(self@.games[id].players, who);
                }
                self.games[i].add_player(who);
                proof {
                    let s = old(self).games@;
                    assert(self.games@ =~= s.update(i as int, self.games@[i as int]));
                    lemma_games_update(s, i as int, self.games@[i as int]);
                }
                self.index.add(who, id);
            },
            None => {},
        }
    }

    /// Lets `who` out of the game `id`, and takes the game off the record
    /// once nobody is left in it. The game stays listed for `who` only if
    /// `who` created it.
    pub(crate) fn leave(&mut self, id: u64, who: &Identity)
        requires
            old(self).wf(),
            old(self)@.games.dom().contains(id),
            old(self)@.games[id].status == Status::Invalid,
            old(self)@.games[id].players.contains(*who),
        ensures
            final(self).wf(),
            final(self)@ == old(self)@.left(id, *who),
    {
        match self.find(id) {
            Some(i) => {
                proof {
                    self.lemma_wf_valid();
                    lemma_without(self@.games[id].players, *who);
                }
                self.games[i].remove_player(who);
                let ghost s = old(self).games@;
                let ghost t = self.games@;
                proof {
                    assert(t =~= s.update(i as int, t[i as int]));
                    lemma_games_update(s, i as int, t[i as int]);
                }
                if self.games[i].player_count() == 0 {
                    proof {
                        lemma_games_remove(t, i as int);
                        t.remove_ensures(i as int);
                        assert(games_of(t).remove(id) =~= games_of(s).remove(id));
                    }
                    self.games.remove(i);
                    self.index.remove_game(id);
                } else if self.games[i].creator() != *who {
                    self.index.remove(who, id);
                }
            },
            None => {},
        }
    }

    /// The players of the game `id` in the order in which they joined, or `NotFound`.
    pub fn get_players(&self, id: u64) -> (r: Result<Vec<Identity>, GameError>)
        requires
            self.wf(),
        ensures
            match r {
                Ok(players) => self@.games.dom().contains(id) && players@
                    == self@.games[id].players,
                Err(e) => e == GameError::NotFound && !self@.games.dom().contains(id),
            },
    {
        match self.find(id) {
            Some(i) => Ok(self.games[i].players().to_vec()),
            None => Err(GameError::NotFound),
        }
    }

    /// The ids of the games on record that `who` created or plays in, each
    /// once, in the order in which `who` came to them.
    pub fn get_games_per_user(&self, who: &Identity) -> (ids: Vec<u64>)
        requires
            self.wf(),
        ensures
            ids@.to_set() == self@.games_per_user(*who),
            ids@.no_duplicates(),
    {
        let ids = self.index.games_of(who);
        assert(ids@.to_set() =~= self@.games_per_user(*who));
        ids
    }
}

} // verus!
