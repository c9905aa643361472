//! Ordered sets of identities: the players of a game, the admins.
//!
//! The facts on sequences without duplicates that the sets rest on are
//! stated for any kind of element.

use vstd::prelude::*;
use crate::identity::Identity;

verus! {

/// `s` with `who` taken out, the others in their old order.
pub open spec fn without<A>(s: Seq<A>, who: A) -> Seq<A> {
    if s.contains(who) {
        s.remove(s.index_of(who))
    } else {
        s
    }
}

/// What taking a member out of a duplicate-free sequence leaves.
pub proof fn lemma_without<A>(s: Seq<A>, who: A)
    requires
        s.no_duplicates(),
    ensures
        without(s, who).no_duplicates(),
        !without(s, who).contains(who),
        forall|x: A| x != who ==> (#[trigger] without(s, who).contains(x) <==> s.contains(x)),
        without(s, who).len() == if s.contains(who) { s.len() - 1 } else { s.len() as int },
        without(s, who).to_set() == s.to_set().remove(who),
{
    let t = without(s, who);
    if s.contains(who) {
        let i = s.index_of(who);
        s.remove_ensures(i);
        assert forall|a: int, b: int| 0 <= a < t.len() && 0 <= b < t.len() && a != b implies t[a]
            != t[b] by {
            let sa = if a < i { a } else { a + 1 };
            let sb = if b < i { b } else { b + 1 };
            assert(t[a] == s[sa]);
            assert(t[b] == s[sb]);
        }
        assert forall|x: A| x != who && s.contains(x) implies #[trigger] t.contains(x) by {
            let k = s.index_of(x);
            if k < i {
                assert(t[k] == x);
            } else {
                assert(t[k - 1] == x);
            }
        }
        assert forall|x: A| #[trigger] t.contains(x) implies s.contains(x) && x != who by {
            let k = t.index_of(x);
            let sk = if k < i { k } else { k + 1 };
            assert(t[k] == s[sk]);
        }
    }
    assert(t.to_set() =~= s.to_set().remove(who));
}

/// What appending a new member to a duplicate-free sequence gives.
pub proof fn lemma_push_new<A>(s: Seq<A>, who: A)
    requires
        s.no_duplicates(),
        !s.contains(who),
    ensures
        s.push(who).no_duplicates(),
        forall|x: A| #[trigger] s.push(who).contains(x) <==> (x == who || s.contains(x)),
        s.push(who).to_set() == s.to_set().insert(who),
{
    let t = s.push(who);
    assert forall|x: A| #[trigger] t.contains(x) <==> (x == who || s.contains(x)) by {
        if t.contains(x) {
            let k = t.index_of(x);
            if k < s.len() {
                assert(s[k] == x);
            }
        }
        if s.contains(x) {
            let k = s.index_of(x);
            assert(t[k] == x);
        }
        if x == who {
            assert(t[s.len() as int] == x);
        }
    }
    assert(t.to_set() =~= s.to_set().insert(who));
}

/// A set of identities that remembers the order in which they came.
#[derive(Debug)]
pub struct Roster {
    members: Vec<Identity>,
}

impl View for Roster {
    type V = Seq<Identity>;

    closed spec fn view(&self) -> Seq<Identity> {
        self.members@
    }
}

impl Roster {
    /// No identity occurs twice.
    pub open spec fn wf(&self) -> bool {
        self@.no_duplicates()
    }

    /// The empty roster.
    pub fn new() -> (r: Roster)
        ensures
            r.wf(),
            r@ == Seq::<Identity>::empty(),
    {
        Roster { members: Vec::new() }
    }

    /// How many members there are.
    pub fn len(&self) -> (n: usize)
        ensures
            n == self@.len(),
    {
        self.members.len()
    }

    /// The member at position `i`, in order of arrival.
    pub fn get(&self, i: usize) -> (who: Identity)
        requires
            i < self@.len(),
        ensures
            who == self@[i as int],
    {
        self.members[i]
    }

    /// Where `who` stands, if a member.
    pub fn position(&self, who: &Identity) -> (at: Option<usize>)
        ensures
            match at {
                Some(i) => i < self@.len() && self@[i as int] == *who,
                None => !self@.contains(*who),
            },
    {
        let mut i: usize = 0;
        while i < self.members.len()
            invariant
                i <= self.members.len(),
                forall|k: int| 0 <= k < i ==> self.members@[k] != *who,
            decreases self.members.len() - i,
        {
            if self.members[i] == *who {
                return Some(i);
            }
            i += 1;
        }
        None
    }

    /// Whether `who` is a member.
    pub fn contains(&self, who: &Identity) -> (found: bool)
        ensures
            found == self@.contains(*who),
    {
        self.position(who).is_some()
    }

    /// Adds `who` at the end unless already a member; says whether it was added.
    pub fn insert(&mut self, who: Identity) -> (added: bool)
        requires
            old(self).wf(),
        ensures
            final(self).wf(),
            added == !old(self)@.contains(who),
            final(self)@ == if added {
                old(self)@.push(who)
            } else {
                old(self)@
            },
            final(self)@.to_set() == old(self)@.to_set().insert(who),
    {
        if self.contains(&who) {
            assert(self@.to_set() =~= self@.to_set().insert(who));
            false
        } else {
            proof {
                lemma_push_new(self@, who);
            }
            self.members.push(who);
            true
        }
    }

    /// Takes `who` out if a member; says whether it was one.
    pub fn remove(&mut self, who: &Identity) -> (removed: bool)
        requires
            old(self).wf(),
        ensures
            final(self).wf(),
            removed == old(self)@.contains(*who),
            final(self)@ == without(old(self)@, *who),
            final(self)@.to_set() == old(self)@.to_set().remove(*who),
    {
        proof {
            lemma_without(self@, *who);
        }
        match self.position(who) {
            Some(i) => {
                assert(self@.index_of(*who) == i);
                self.members.remove(i);
                true
            },
            None => false,
        }
    }

    /// The members in order of arrival.
    pub fn to_vec(&self) -> (v: Vec<Identity>)
        ensures
            v@ == self@,
    {
        let mut v: Vec<Identity> = Vec::new();
        let mut i: usize = 0;
        while i < self.members.len()
            invariant
                i <= self.members.len(),
                v@ == self.members@.subrange(0, i as int),
            decreases self.members.len() - i,
        {
            v.push(self.members[i]);
            assert(v@ =~= self.members@.subrange(0, i + 1));
            i += 1;
        }
        assert(v@ =~= self.members@);
        v
    }
}

} // verus!
