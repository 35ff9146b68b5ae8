//! The set of user portfolios, keyed by owner, viewed in specifications as a
//! `Map<Address, Portfolio>`.

use vstd::prelude::*;

use crate::types::Address;
use crate::types::Portfolio;

verus! {

/// One portfolio per owner; lookups scan, updates overwrite in place, new
/// owners append, withdrawal removes.
pub struct PortfolioBook {
    pub entries: Vec<Portfolio>,
}

/// No two portfolios share an owner.
pub open spec fn owners_distinct(s: Seq<Portfolio>) -> bool {
    forall|i: int, j: int| 0 <= i < j < s.len() ==> s[i].user != s[j].user
}

/// The map an entry sequence denotes.
pub open spec fn book_of(s: Seq<Portfolio>) -> Map<Address, Portfolio>
    decreases s.len(),
{
    if s.len() == 0 {
        Map::empty()
    } else {
        book_of(s.drop_last()).insert(s.last().user, s.last())
    }
}

impl View for PortfolioBook {
    type V = Map<Address, Portfolio>;

    open spec fn view(&self) -> Map<Address, Portfolio> {
        book_of(self.entries@)
    }
}

/// An owner is in the denoted map exactly when some entry carries it.
pub proof fn lemma_book_of_contains(s: Seq<Portfolio>, u: Address)
    ensures
        book_of(s).contains_key(u) <==> exists|i: int| 0 <= i < s.len() && s[i].user == u,
    decreases s.len(),
{
    if s.len() > 0 {
        lemma_book_of_contains(s.drop_last(), u);
        if s.last().user == u {
            assert(s[s.len() - 1].user == u);
        } else {
            if book_of(s).contains_key(u) {
                let i = choose|i: int| 0 <= i < s.len() - 1 && s.drop_last()[i].user == u;
                assert(s[i].user == u);
            }
            if exists|i: int| 0 <= i < s.len() && s[i].user == u {
                let i = choose|i: int| 0 <= i < s.len() && s[i].user == u;
                if i < s.len() - 1 {
                    assert(s.drop_last()[i].user == u);
                }
            }
        }
    }
}

/// Under distinct owners, the denoted map sends an owner to their entry.
pub proof fn lemma_book_of_value(s: Seq<Portfolio>, i: int)
    requires
        owners_distinct(s),
        0 <= i < s.len(),
    ensures
        book_of(s).contains_key(s[i].user),
        book_of(s)[s[i].user] == s[i],
    decreases s.len(),
{
    if i == s.len() - 1 {
    } else {
        assert(owners_distinct(s.drop_last()));
        assert(s.drop_last()[i] == s[i]);
        lemma_book_of_value(s.drop_last(), i);
        assert(s.last().user != s[i].user);
    }
}

/// Replacing the entry of owner `u` in place denotes `insert(u, p)`.
pub proof fn lemma_book_of_update(s1: Seq<Portfolio>, s2: Seq<Portfolio>, i: int, p: Portfolio)
    requires
        owners_distinct(s1),
        0 <= i < s1.len(),
        s1[i].user == p.user,
        s2.len() == s1.len(),
        s2[i] == p,
        forall|j: int| 0 <= j < s1.len() && j != i ==> s2[j] == s1[j],
    ensures
        book_of(s2) == book_of(s1).insert(p.user, p),
    decreases s1.len(),
{
    if i == s1.len() - 1 {
        assert(s2.drop_last() =~= s1.drop_last());
        assert(book_of(s1).insert(p.user, p) =~= book_of(s1.drop_last()).insert(p.user, p));
    } else {
        assert(owners_distinct(s1.drop_last()));
        assert(s1.drop_last()[i] == s1[i]);
        assert(s2.drop_last()[i] == s2[i]);
        assert(forall|j: int|
            0 <= j < s1.len() - 1 && j != i ==> s2.drop_last()[j] == s1.drop_last()[j]);
        lemma_book_of_update(s1.drop_last(), s2.drop_last(), i, p);
        assert(s2.last() == s1.last());
        let lu = s1.last().user;
        assert(lu != p.user);
        assert(book_of(s1.drop_last()).insert(p.user, p).insert(lu, s1.last()) =~= book_of(
            s1.drop_last(),
        ).insert(lu, s1.last()).insert(p.user, p));
    }
}

/// Appending an entry denotes `insert` of its owner.
pub proof fn lemma_book_of_push(s: Seq<Portfolio>, p: Portfolio)
    ensures
        book_of(s.push(p)) == book_of(s).insert(p.user, p),
{
    assert(s.push(p).drop_last() =~= s);
    assert(s.push(p).last() == p);
}

/// Removing the entry of owner `u` denotes `remove(u)`.
pub proof fn lemma_book_of_remove(s: Seq<Portfolio>, i: int)
    requires
        owners_distinct(s),
        0 <= i < s.len(),
    ensures
        book_of(s.remove(i)) == book_of(s).remove(s[i].user),
    decreases s.len(),
{
    let u = s[i].user;
    if i == s.len() - 1 {
        assert(s.remove(i) =~= s.drop_last());
        lemma_book_of_contains(s.drop_last(), u);
        assert(forall|j: int| 0 <= j < s.len() - 1 ==> s.drop_last()[j].user != u);
        assert(book_of(s.drop_last()) =~= book_of(s).remove(u));
    } else {
        assert(owners_distinct(s.drop_last()));
        assert(s.drop_last()[i] == s[i]);
        lemma_book_of_remove(s.drop_last(), i);
        assert(s.remove(i).drop_last() =~= s.drop_last().remove(i));
        assert(s.remove(i).last() == s.last());
        let lu = s.last().user;
        assert(lu != u);
        assert(book_of(s.drop_last()).remove(u).insert(lu, s.last()) =~= book_of(
            s.drop_last(),
        ).insert(lu, s.last()).remove(u));
    }
}

impl PortfolioBook {
    pub open spec fn wf(&self) -> bool {
        owners_distinct(self.entries@)
    }

    pub fn new() -> (b: Self)
        ensures
            b.wf(),
            b@ == Map::<Address, Portfolio>::empty(),
    {
        PortfolioBook { entries: Vec::new() }
    }

    /// Index of the entry owned by `user`, if any.
    fn find(&self, user: Address) -> (r: Option<usize>)
        ensures
            match r {
                Some(i) => i < self.entries@.len() && self.entries@[i as int].user == user,
                None => forall|j: int| 0 <= j < self.entries@.len()
                    ==> self.entries@[j].user != user,
            },
    {
        let mut i: usize = 0;
        while i < self.entries.len()
            invariant
                i <= self.entries@.len(),
                forall|j: int| 0 <= j < i ==> self.entries@[j].user != user,
            decreases self.entries@.len() - i,
        {
            if self.entries[i].user == user {
                return Some(i);
            }
            i = i + 1;
        }
        None
    }

    pub fn get(&self, user: Address) -> (r: Option<Portfolio>)
        requires
            self.wf(),
        ensures
            match r {
                Some(p) => self@.contains_key(user) && p == self@[user],
                None => !self@.contains_key(user),
            },
    {
        match self.find(user) {
            Some(i) => {
                proof {
                    lemma_book_of_value(self.entries@, i as int);
                }
                Some(self.entries[i])
            },
            None => {
                proof {
                    lemma_book_of_contains(self.entries@, user);
                }
                None
            },
        }
    }

    pub fn put(&mut self, p: Portfolio)
        requires
            old(self).wf(),
        ensures
            final(self).wf(),
            final(self)@ == old(self)@.insert(p.user, p),
    {
        let ghost s1 = self.entries@;
        match self.find(p.user) {
            Some(i) => {
                self.entries[i] = p;
                proof {
                    lemma_book_of_update(s1, self.entries@, i as int, p);
                    assert(forall|j: int|
                        0 <= j < self.entries@.len() ==> self.entries@[j].user == s1[j].user);
                }
            },
            None => {
                self.entries.push(p);
                proof {
                    lemma_book_of_push(s1, p);
                    assert(self.entries@.drop_last() =~= s1);
                    assert(owners_distinct(self.entries@));
                }
            },
        }
    }

    pub fn remove(&mut self, user: Address)
        requires
            old(self).wf(),
        ensures
            final(self).wf(),
            final(self)@ == old(self)@.remove(user),
    {
        let ghost s1 = self.entries@;
        match self.find(user) {
            Some(i) => {
                self.entries.remove(i);
                proof {
                    lemma_book_of_remove(s1, i as int);
                    assert(forall|j: int| 0 <= j < self.entries@.len() ==> (if j < i {
                        self.entries@[j] == s1[j]
                    } else {
                        self.entries@[j] == s1[j + 1]
                    }));
                    assert(owners_distinct(self.entries@));
                }
            },
            None => {
                proof {
                    lemma_book_of_contains(s1, user);
                    assert(self@ =~= old(self)@.remove(user));
                }
            },
        }
    }
}

} // verus!
