//! The index of games by user: for each identity, the ids of the games
//! that it is listed for.

use vstd::prelude::*;
use crate::identity::Identity;
use crate::roster::{lemma_push_new, lemma_without, without};

verus! {

/// The games of one user, in the order in which they were listed.
#[derive(Debug)]
struct Entry {
    user: Identity,
    games: Vec<u64>,
}

/// For each identity, the ids of the games that it is listed for.
#[derive(Debug)]
pub struct UserIndex {
    entries: Vec<Entry>,
}

/// Whether one of the entries is that of `who` and holds `id`.
spec fn listed(entries: Seq<Entry>, who: Identity, id: u64) -> bool {
    exists|i: int|
        0 <= i < entries.len() && (#[trigger] entries[i]).user == who && entries[i].games@.contains(
            id,
        )
}

/// No user has two entries, and no entry holds an id twice.
spec fn orderly(entries: Seq<Entry>) -> bool {
    &&& forall|i: int, j: int|
        0 <= i < j < entries.len() ==> (#[trigger] entries[i]).user != (#[trigger] entries[j]).user
    &&& forall|i: int| 0 <= i < entries.len() ==> (#[trigger] entries[i]).games@.no_duplicates()
}

/// Where an id is, if anywhere.
fn position(ids: &Vec<u64>, id: u64) -> (at: Option<usize>)
    ensures
        match at {
            Some(i) => i < ids@.len() && ids@[i as int] == id,
            None => !ids@.contains(id),
        },
{
    let mut i: usize = 0;
    while i < ids.len()
        invariant
            i <= ids.len(),
            forall|k: int| 0 <= k < i ==> ids@[k] != id,
        decreases ids.len() - i,
    {
        if ids[i] == id {
            return Some(i);
        }
        i += 1;
    }
    None
}

/// Takes an id out of a list that holds no id twice.
fn take_out(ids: &mut Vec<u64>, id: u64)
    requires
        old(ids)@.no_duplicates(),
    ensures
        final(ids)@ == without(old(ids)@, id),
        final(ids)@.no_duplicates(),
        forall|g: u64| #[trigger] final(ids)@.contains(g) <==> old(ids)@.contains(g) && g != id,
{
    proof {
        lemma_without(ids@, id);
    }
    match position(ids, id) {
        Some(i) => {
            assert(ids@.index_of(id) == i);
            ids.remove(i);
        },
        None => {},
    }
}

impl UserIndex {
    /// Whether the game `id` is listed for `who`.
    pub closed spec fn lists(&self, who: Identity, id: u64) -> bool {
        listed(self.entries@, who, id)
    }

    /// No user has two entries, and no entry holds an id twice.
    pub closed spec fn wf(&self) -> bool {
        orderly(self.entries@)
    }

    /// The index that lists nothing.
    pub fn new() -> (r: UserIndex)
        ensures
            r.wf(),
            forall|who: Identity, id: u64| !#[trigger] r.lists(who, id),
    {
        UserIndex { entries: Vec::new() }
    }

    /// Where the entry of `who` is, if there is one.
    fn find(&self, who: &Identity) -> (at: Option<usize>)
        ensures
            match at {
                Some(i) => i < self.entries@.len() && self.entries@[i as int].user == *who,
                None => forall|k: int|
                    0 <= k < self.entries@.len() ==> (#[trigger] self.entries@[k]).user != *who,
            },
    {
        let mut i: usize = 0;
        while i < self.entries.len()
            invariant
                i <= self.entries.len(),
                forall|k: int| 0 <= k < i ==> (#[trigger] self.entries@[k]).user != *who,
            decreases self.entries.len() - i,
        {
            if self.entries[i].user == *who {
                return Some(i);
            }
            i += 1;
        }
        None
    }

    /// Lists the game `id` for `who`, if it is not listed yet.
    pub fn add(&mut self, who: Identity, id: u64)
        requires
            old(self).wf(),
        ensures
            final(self).wf(),
            forall|w: Identity, g: u64| #[trigger]
                final(self).lists(w, g) <==> old(self).lists(w, g) || (w == who && g == id),
    {
        let ghost before = self.entries@;
        match self.find(&who) {
            Some(i) => {
                if position(&self.entries[i].games, id).is_none() {
                    proof {
                        lemma_push_new(before[i as int].games@, id);
                    }
                    self.entries[i].games.push(id);
                }
                let ghost after = self.entries@;
                assert forall|w: Identity, g: u64| #[trigger]
                    listed(after, w, g) <==> listed(before, w, g) || (w == who && g == id) by {
                    if listed(after, w, g) {
                        let k = choose|k: int|
                            0 <= k < after.len() && (#[trigger] after[k]).user == w
                                && after[k].games@.contains(g);
                        if k != i {
                            assert(before[k] == after[k]);
                        } else if g != id {
                            assert(before[k].games@.contains(g));
                        }
                    }
                    if listed(before, w, g) {
                        let k = choose|k: int|
                            0 <= k < before.len() && (#[trigger] before[k]).user == w
                                && before[k].games@.contains(g);
                        assert(after[k].user == w);
                        assert(after[k].games@.contains(g));
                    }
                    if w == who && g == id {
                        assert(after[i as int].user == w);
                        assert(after[i as int].games@.contains(g));
                    }
                }
                assert(orderly(after)) by {
                    assert forall|a: int| 0 <= a < after.len() implies (#[trigger] after[a]).user
                        == before[a].user by {}
                }
            },
            None => {
                let mut games: Vec<u64> = Vec::new();
                games.push(id);
                self.entries.push(Entry { user: who, games });
                let ghost after = self.entries@;
                assert(after[before.len() as int].games@[0] == id);
                assert forall|w: Identity, g: u64| #[trigger]
                    listed(after, w, g) <==> listed(before, w, g) || (w == who && g == id) by {
                    if listed(after, w, g) {
                        let k = choose|k: int|
                            0 <= k < after.len() && (#[trigger] after[k]).user == w
                                && after[k].games@.contains(g);
                        if k < before.len() {
                            assert(before[k] == after[k]);
                        }
                    }
                    if listed(before, w, g) {
                        let k = choose|k: int|
                            0 <= k < before.len() && (#[trigger] before[k]).user == w
                                && before[k].games@.contains(g);
                        assert(after[k] == before[k]);
                    }
                    if w == who && g == id {
                        assert(after[before.len() as int].user == w);
                        assert(after[before.len() as int].games@.contains(g));
                    }
                }
                assert(orderly(after)) by {
                    assert forall|a: int| 0 <= a < before.len() implies (#[trigger] after[a])
                        == before[a] by {}
                }
            },
        }
    }

    /// Takes the game `id` off the list of `who`.
    pub fn remove(&mut self, who: &Identity, id: u64)
        requires
            old(self).wf(),
        ensures
            final(self).wf(),
            forall|w: Identity, g: u64| #[trigger]
                final(self).lists(w, g) <==> old(self).lists(w, g) && !(w == *who && g == id),
    {
        let ghost before = self.entries@;
        match self.find(who) {
            Some(i) => {
                take_out(&mut self.entries[i].games, id);
                let ghost after = self.entries@;
                assert forall|a: int| 0 <= a < after.len() implies (#[trigger] after[a]).user
                    == before[a].user by {}
                assert forall|w: Identity, g: u64| #[trigger]
                    listed(after, w, g) <==> listed(before, w, g) && !(w == *who && g == id) by {
                    if listed(after, w, g) {
                        let k = choose|k: int|
                            0 <= k < after.len() && (#[trigger] after[k]).user == w
                                && after[k].games@.contains(g);
                        if k != i {
                            assert(before[k] == after[k]);
                            assert(before[k].user != before[i as int].user);
                        } else {
                            assert(before[k].games@.contains(g));
                        }
                    }
                    if listed(before, w, g) && !(w == *who && g == id) {
                        let k = choose|k: int|
                            0 <= k < before.len() && (#[trigger] before[k]).user == w
                                && before[k].games@.contains(g);
                        assert(after[k].user == w);
                        assert(after[k].games@.contains(g));
                    }
                }
                assert(orderly(after));
            },
            None => {
                assert forall|w: Identity, g: u64| #[trigger]
                    listed(before, w, g) implies !(w == *who && g == id) by {
                    let k = choose|k: int|
                        0 <= k < before.len() && (#[trigger] before[k]).user == w
                            && before[k].games@.contains(g);
                }
            },
        }
    }

    /// Takes the game `id` off every list.
    pub fn remove_game(&mut self, id: u64)
        requires
            old(self).wf(),
        ensures
            final(self).wf(),
            forall|w: Identity, g: u64| #[trigger]
                final(self).lists(w, g) <==> old(self).lists(w, g) && g != id,
    {
        let ghost before = self.entries@;
        let mut i: usize = 0;
        while i < self.entries.len()
            invariant
                i <= self.entries@.len(),
                self.entries@.len() == before.len(),
                orderly(before),
                forall|k: int|
                    0 <= k < before.len() ==> (#[trigger] self.entries@[k]).user == before[k].user,
                forall|k: int|
                    0 <= k < i ==> (#[trigger] self.entries@[k]).games@ == without(
                        before[k].games@,
                        id,
                    ),
                forall|k: int| i <= k < before.len() ==> (#[trigger] self.entries@[k]) == before[k],
            decreases self.entries@.len() - i,
        {
            let ghost entering = self.entries@;
            take_out(&mut self.entries[i].games, id);
            proof {
                let leaving = self.entries@;
                assert forall|k: int| 0 <= k < before.len() implies (#[trigger] leaving[k]).user
                    == before[k].user by {
                    assert(entering[k].user == before[k].user);
                }
                assert forall|k: int| 0 <= k < i + 1 implies (#[trigger] leaving[k]).games@
                    == without(before[k].games@, id) by {
                    if k < i {
                        assert(leaving[k] == entering[k]);
                    } else {
                        assert(entering[k] == before[k]);
                    }
                }
                assert forall|k: int| i + 1 <= k < before.len() implies (#[trigger] leaving[k])
                    == before[k] by {
                    assert(leaving[k] == entering[k]);
                }
            }
            i += 1;
        }
        proof {
            let after = self.entries@;
            assert forall|k: int| 0 <= k < after.len() implies (#[trigger] after[k]).games@.no_duplicates()
                && (forall|g: u64| #[trigger]
                after[k].games@.contains(g) <==> before[k].games@.contains(g) && g != id) by {
                lemma_without(before[k].games@, id);
            }
            assert(orderly(after)) by {
                assert forall|a: int, b: int| 0 <= a < b < after.len() implies (
                #[trigger] after[a]).user != (#[trigger] after[b]).user by {
                    assert(before[a].user != before[b].user);
                }
            }
            assert forall|w: Identity, g: u64| #[trigger]
                listed(after, w, g) <==> listed(before, w, g) && g != id by {
                if listed(after, w, g) {
                    let k = choose|k: int|
                        0 <= k < after.len() && (#[trigger] after[k]).user == w
                            && after[k].games@.contains(g);
                    assert(before[k].user == w);
                    assert(before[k].games@.contains(g));
                }
                if listed(before, w, g) && g != id {
                    let k = choose|k: int|
                        0 <= k < before.len() && (#[trigger] before[k]).user == w
                            && before[k].games@.contains(g);
                    assert(after[k].user == w);
                    assert(after[k].games@.contains(g));
                }
            }
        }
    }

    /// The ids of the games listed for `who`, in the order in which they
    /// were listed.
    pub fn games_of(&self, who: &Identity) -> (ids: Vec<u64>)
        requires
            self.wf(),
        ensures
            ids@.no_duplicates(),
            forall|g: u64| #[trigger] ids@.contains(g) <==> self.lists(*who, g),
    {
        let ghost entries = self.entries@;
        match self.find(who) {
            Some(i) => {
                let ids = self.entries[i].games.clone();
                assert(ids@ =~= entries[i as int].games@);
                assert forall|g: u64| #[trigger] ids@.contains(g) <==> listed(entries, *who, g) by {
                    if listed(entries, *who, g) {
                        let k = choose|k: int|
                            0 <= k < entries.len() && (#[trigger] entries[k]).user == *who
                                && entries[k].games@.contains(g);
                        if k < i {
                            assert(entries[k].user != entries[i as int].user);
                        } else if i < k {
                            assert(entries[i as int].user != entries[k].user);
                        }
                    }
                    if ids@.contains(g) {
                        assert(entries[i as int].user == *who);
                    }
                }
                ids
            },
            None => {
                let ids: Vec<u64> = Vec::new();
                assert forall|g: u64| listed(entries, *who, g) implies false by {
                    let k = choose|k: int|
                        0 <= k < entries.len() && (#[trigger] entries[k]).user == *who
                            && entries[k].games@.contains(g);
                }
                ids
            },
        }
    }
}

} // verus!
