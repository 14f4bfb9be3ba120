//! A finite set of URLs that remembers the order in which they arrived.

use crate::text::views;
use vstd::prelude::*;

verus! {

/// A set of URL strings. Members are kept in the order of their first
/// insertion, and none is kept twice.
#[derive(Debug)]
pub struct UrlSet {
    items: Vec<String>,
}

impl View for UrlSet {
    type V = Set<Seq<char>>;

    open spec fn view(&self) -> Set<Seq<char>> {
        self.items().to_set()
    }
}

impl Clone for UrlSet {
    fn clone(&self) -> (r: Self)
        ensures
            r.items() == self.items(),
    {
        let mut items: Vec<String> = Vec::new();
        let mut i: usize = 0;
        while i < self.items.len()
            invariant
                i <= self.items.len(),
                views(items@) == views(self.items@).take(i as int),
            decreases self.items.len() - i,
        {
            let ghost before = items@;
            let url = self.items[i].clone();
            items.push(url);
            assert(views(items@) =~= views(before).push(url@));
            assert(views(self.items@).take(i as int + 1) =~= views(self.items@).take(i as int).push(
                self.items@[i as int]@,
            ));
            i += 1;
        }
        assert(views(self.items@).take(i as int) =~= views(self.items@));
        UrlSet { items }
    }
}

impl UrlSet {
    /// The members in insertion order.
    pub closed spec fn items(&self) -> Seq<Seq<char>> {
        views(self.items@)
    }

    /// No member is listed twice.
    pub open spec fn wf(&self) -> bool {
        self.items().no_duplicates()
    }

    /// In a well-formed set the number of listed members is the set's size.
    pub proof fn lemma_len(&self)
        requires
            self.wf(),
        ensures
            self@.finite(),
            self@.len() == self.items().len(),
    {
        self.items().unique_seq_to_set();
    }

    /// The empty set.
    pub fn new() -> (r: Self)
        ensures
            r.wf(),
            r.items() == Seq::<Seq<char>>::empty(),
            r@ == Set::<Seq<char>>::empty(),
    {
        let r = UrlSet { items: Vec::new() };
        assert(r.items() =~= Seq::<Seq<char>>::empty());
        assert(r@ =~= Set::<Seq<char>>::empty());
        r
    }

    /// The number of members.
    pub fn len(&self) -> (n: usize)
        ensures
            n == self.items().len(),
            self.wf() ==> n == self@.len(),
    {
        proof {
            if self.wf() {
                self.lemma_len();
            }
        }
        self.items.len()
    }

    /// Whether the set has no member.
    pub fn is_empty(&self) -> (b: bool)
        ensures
            b == (self.items().len() == 0),
            b == (self@ == Set::<Seq<char>>::empty()),
    {
        proof {
            if self.items().len() == 0 {
                assert(self@ =~= Set::<Seq<char>>::empty());
            } else {
                assert(self.items().contains(self.items()[0]));
                assert(self@.contains(self.items()[0]));
            }
        }
        self.items.len() == 0
    }

    /// The member at position `i` of the insertion order.
    pub fn get(&self, i: usize) -> (r: &String)
        requires
            i < self.items().len(),
        ensures
            r@ == self.items()[i as int],
    {
        &self.items[i]
    }

    /// Whether `url` is a member.
    pub fn contains(&self, url: &String) -> (b: bool)
        ensures
            b == self.items().contains(url@),
            b == self@.contains(url@),
    {
        let mut i: usize = 0;
        while i < self.items.len()
            invariant
                i <= self.items.len(),
                forall|k: int| 0 <= k < i ==> self.items()[k] != url@,
            decreases self.items.len() - i,
        {
            if self.items[i] == *url {
                assert(self.items()[i as int] == url@);
                return true;
            }
            i += 1;
        }
        false
    }

    /// Adds `url` unless it is already a member; says whether it was added.
    pub fn insert(&mut self, url: String) -> (added: bool)
        requires
            old(self).wf(),
        ensures
            final(self).wf(),
            added == !old(self).items().contains(url@),
            final(self).items() == if added {
                old(self).items().push(url@)
            } else {
                old(self).items()
            },
            final(self)@ == old(self)@.insert(url@),
    {
        if self.contains(&url) {
            assert(self@.insert(url@) =~= self@);
            false
        } else {
            let ghost before = self.items();
            self.items.push(url);
            assert(self.items() =~= before.push(url@));
            assert(self@ =~= before.to_set().insert(url@)) by {
                before.lemma_push_to_set_commute(url@);
            }
            true
        }
    }

    /// Adds every member of `other`.
    pub fn extend(&mut self, other: &UrlSet)
        requires
            old(self).wf(),
        ensures
            final(self).wf(),
            final(self)@ == old(self)@.union(other@),
            old(self).items().is_prefix_of(final(self).items()),
    {
        let mut i: usize = 0;
        while i < other.items.len()
            invariant
                i <= other.items.len(),
                self.wf(),
                self@ == old(self)@.union(other.items().take(i as int).to_set()),
                old(self).items().is_prefix_of(self.items()),
            decreases other.items.len() - i,
        {
            let ghost seen = other.items().take(i as int);
            let ghost now = other.items().take(i as int + 1);
            let url = other.items[i].clone();
            assert(now =~= seen.push(url@));
            proof {
                seen.lemma_push_to_set_commute(url@);
            }
            self.insert(url);
            assert(self@ =~= old(self)@.union(now.to_set()));
            i += 1;
        }
        assert(other.items().take(i as int) =~= other.items());
    }

    /// The set of the members of `self` that `other` does not have.
    pub fn difference(&self, other: &UrlSet) -> (r: UrlSet)
        ensures
            r.wf(),
            r@ == self@.difference(other@),
    {
        let mut r = UrlSet::new();
        let mut i: usize = 0;
        assert(self.items().take(0) =~= Seq::<Seq<char>>::empty());
        assert(r@ =~= self.items().take(0).to_set().difference(other@));
        while i < self.items.len()
            invariant
                i <= self.items.len(),
                r.wf(),
                r@ == self.items().take(i as int).to_set().difference(other@),
            decreases self.items.len() - i,
        {
            let ghost seen = self.items().take(i as int);
            let ghost u = self.items()[i as int];
            proof {
                assert(self.items().take(i as int + 1) =~= seen.push(u));
                seen.lemma_push_to_set_commute(u);
            }
            if !other.contains(&self.items[i]) {
                r.insert(self.items[i].clone());
            }
            assert(r@ =~= self.items().take(i as int + 1).to_set().difference(other@));
            i += 1;
        }
        assert(self.items().take(i as int) =~= self.items());
        r
    }

    /// The members as a vector, in insertion order.
    pub fn to_vec(&self) -> (v: Vec<String>)
        ensures
            views(v@) == self.items(),
    {
        let c = self.clone();
        c.items
    }

    /// The set of the strings in `v`.
    pub fn from_vec(v: Vec<String>) -> (r: UrlSet)
        ensures
            r.wf(),
            r@ == views(v@).to_set(),
    {
        let mut r = UrlSet::new();
        let mut i: usize = 0;
        assert(views(v@).take(0) =~= Seq::<Seq<char>>::empty());
        while i < v.len()
            invariant
                i <= v.len(),
                r.wf(),
                r@ == views(v@).take(i as int).to_set(),
            decreases v.len() - i,
        {
            let ghost seen = views(v@).take(i as int);
            let url = v[i].clone();
            proof {
                assert(views(v@).take(i as int + 1) =~= seen.push(url@));
                seen.lemma_push_to_set_commute(url@);
            }
            r.insert(url);
            i += 1;
        }
        assert(views(v@).take(i as int) =~= views(v@));
        r
    }
}

} // verus!
