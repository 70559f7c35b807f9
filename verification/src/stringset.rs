//! The set record: a collection of distinct string members with the
//! standard set algebra, viewed as a `Set<Seq<char>>`.

use vstd::prelude::*;

use crate::strings::str_eq;

verus! {

/// A set of string members. Membership is by character content; the
/// members are kept in insertion order.
pub struct StringSet {
    items: Vec<String>,
}

impl View for StringSet {
    type V = Set<Seq<char>>;

    closed spec fn view(&self) -> Set<Seq<char>> {
        self.items.deep_view().to_set()
    }
}

impl StringSet {
    /// Internal well-formedness: no member occurs twice. Every constructor
    /// establishes it and every operation preserves it.
    pub closed spec fn wf(&self) -> bool {
        self.items.deep_view().no_duplicates()
    }

    /// An empty set.
    pub fn new() -> (r: StringSet)
        ensures
            r.wf(),
            r@ == Set::<Seq<char>>::empty(),
    {
        let r = StringSet { items: Vec::new() };
        proof {
            assert(r.items.deep_view() =~= Seq::<Seq<char>>::empty());
            assert(r@ =~= Set::<Seq<char>>::empty());
        }
        r
    }

    /// The number of members.
    pub fn len(&self) -> (r: usize)
        requires
            self.wf(),
        ensures
            r == self@.len(),
    {
        proof {
            self.items.deep_view().unique_seq_to_set();
        }
        self.items.len()
    }

    /// Whether `m` is a member.
    pub fn contains(&self, m: &str) -> (r: bool)
        ensures
            r == self@.contains(m@),
    {
        let n = self.items.len();
        let mut i: usize = 0;
        while i < n
            invariant
                n == self.items@.len(),
                0 <= i <= n,
                forall|j: int| 0 <= j < i ==> (#[trigger] self.items@[j])@ != m@,
            decreases n - i,
        {
            if str_eq(self.items[i].as_str(), m) {
                proof {
                    assert(self.items.deep_view()[i as int] == m@);
                    assert(self.items.deep_view().contains(m@));
                }
                return true;
            }
            i += 1;
        }
        proof {
            assert(!self.items.deep_view().contains(m@)) by {
                assert(forall|j: int| 0 <= j < self.items.deep_view().len()
                    ==> #[trigger] self.items.deep_view()[j] == (self.items@[j])@);
            }
        }
        false
    }

    /// Adds a member; adding a present member leaves the set as it is.
    /// Returns whether the set grew.
    pub fn insert(&mut self, m: String) -> (r: bool)
        requires
            old(self).wf(),
        ensures
            final(self).wf(),
            final(self)@ == old(self)@.insert(m@),
            r == !old(self)@.contains(m@),
    {
        if self.contains(m.as_str()) {
            proof {
                assert(self@.insert(m@) =~= self@);
            }
            false
        } else {
            self.items.push(m);
            proof {
                assert(self.items.deep_view() =~= old(self).items.deep_view().push(m@));
                assert(self.items.deep_view().drop_last() =~= old(self).items.deep_view());
                assert(self@ =~= old(self)@.insert(m@)) by {
                    assert(forall|x: Seq<char>| self.items.deep_view().contains(x)
                        <==> (old(self).items.deep_view().contains(x) || x == m@)) by {
                        assert(self.items.deep_view().last() == m@);
                        assert(forall|j: int| 0 <= j < old(self).items.deep_view().len()
                            ==> #[trigger] self.items.deep_view()[j]
                                == old(self).items.deep_view()[j]);
                    }
                }
            }
            true
        }
    }

    /// Removes a member; removing an absent member leaves the set as it is.
    /// Returns whether the member was present.
    pub fn remove(&mut self, m: &str) -> (r: bool)
        requires
            old(self).wf(),
        ensures
            final(self).wf(),
            final(self)@ == old(self)@.remove(m@),
            r == old(self)@.contains(m@),
    {
        let n = self.items.len();
        let mut i: usize = 0;
        while i < n
            invariant
                self.wf(),
                self.items@ == old(self).items@,
                n == self.items@.len(),
                0 <= i <= n,
                forall|j: int| 0 <= j < i ==> (#[trigger] self.items@[j])@ != m@,
            decreases n - i,
        {
            if str_eq(self.items[i].as_str(), m) {
                proof {
                    let dv = self.items.deep_view();
                    assert(dv[i as int] == m@);
                    assert(dv.contains(m@));
                    lemma_remove_at(dv, i as int);
                }
                self.items.remove(i);
                proof {
                    assert(self.items.deep_view() =~= old(self).items.deep_view().remove(i as int));
                }
                return true;
            }
            i += 1;
        }
        proof {
            let dv = self.items.deep_view();
            assert(forall|j: int| 0 <= j < dv.len() ==> #[trigger] dv[j] == (self.items@[j])@);
            assert(!dv.contains(m@));
            assert(self@.remove(m@) =~= self@);
        }
        false
    }

    /// The members, in insertion order, without duplicates.
    pub fn members(&self) -> (r: Vec<String>)
        requires
            self.wf(),
        ensures
            r.deep_view().to_set() == self@,
            r.deep_view().no_duplicates(),
            r@.len() == self@.len(),
    {
        let n = self.items.len();
        let mut r: Vec<String> = Vec::new();
        let mut i: usize = 0;
        while i < n
            invariant
                self.wf(),
                n == self.items@.len(),
                0 <= i <= n,
                r@.len() == i,
                forall|j: int| 0 <= j < i ==> (#[trigger] r@[j])@ == (self.items@[j])@,
            decreases n - i,
        {
            r.push(self.items[i].clone());
            i += 1;
        }
        proof {
            assert(r.deep_view() =~= self.items.deep_view());
            self.items.deep_view().unique_seq_to_set();
        }
        r
    }

    /// Adds every member of `other`.
    pub fn union_with(&mut self, other: &StringSet)
        requires
            old(self).wf(),
        ensures
            final(self).wf(),
            final(self)@ == old(self)@.union(other@),
    {
        let n = other.items.len();
        let mut i: usize = 0;
        while i < n
            invariant
                self.wf(),
                n == other.items@.len(),
                0 <= i <= n,
                self@ == old(self)@.union(other.items.deep_view().subrange(0, i as int).to_set()),
            decreases n - i,
        {
            proof {
                assert(other.items.deep_view().subrange(0, i as int + 1)
                    =~= other.items.deep_view().subrange(0, i as int).push(
                        other.items.deep_view()[i as int]));
                lemma_to_set_push(
                    other.items.deep_view().subrange(0, i as int),
                    other.items.deep_view()[i as int],
                );
            }
            self.insert(other.items[i].clone());
            proof {
                assert(self@ =~= old(self)@.union(
                    other.items.deep_view().subrange(0, i as int + 1).to_set()));
            }
            i += 1;
        }
        proof {
            assert(other.items.deep_view().subrange(0, n as int) =~= other.items.deep_view());
        }
    }

    /// Removes every member of `other`.
    pub fn subtract(&mut self, other: &StringSet)
        requires
            old(self).wf(),
        ensures
            final(self).wf(),
            final(self)@ == old(self)@.difference(other@),
    {
        let n = self.items.len();
        let mut kept: Vec<String> = Vec::new();
        let mut i: usize = 0;
        while i < n
            invariant
                self.wf(),
                self.items@ == old(self).items@,
                n == self.items@.len(),
                0 <= i <= n,
                kept.deep_view().no_duplicates(),
                kept.deep_view().to_set()
                    == self.items.deep_view().subrange(0, i as int).to_set().difference(other@),
            decreases n - i,
        {
            let ghost pre = self.items.deep_view().subrange(0, i as int);
            let ghost cur = self.items.deep_view()[i as int];
            let ghost kept_pre = kept.deep_view();
            proof {
                assert(self.items.deep_view().subrange(0, i as int + 1) =~= pre.push(cur));
                lemma_to_set_push(pre, cur);
                assert(cur == (self.items@[i as int])@);
                assert(!pre.contains(cur)) by {
                    if pre.contains(cur) {
                        let j = choose|j: int| 0 <= j < pre.len() && pre[j] == cur;
                        assert(self.items.deep_view()[j] == cur);
                    }
                }
                assert(!kept_pre.contains(cur)) by {
                    if kept_pre.contains(cur) {
                        assert(kept_pre.to_set().contains(cur));
                        assert(pre.to_set().contains(cur));
                    }
                }
            }
            if !other.contains(self.items[i].as_str()) {
                kept.push(self.items[i].clone());
                proof {
                    assert(kept.deep_view() =~= kept_pre.push(cur));
                    lemma_push_no_dup(kept_pre, cur);
                    lemma_to_set_push(kept_pre, cur);
                }
            }
            proof {
                assert(kept.deep_view().to_set() =~= self.items.deep_view().subrange(
                    0, i as int + 1).to_set().difference(other@));
            }
            i += 1;
        }
        proof {
            assert(self.items.deep_view().subrange(0, n as int) =~= self.items.deep_view());
        }
        self.items = kept;
    }

    /// Keeps only the members that `other` also has.
    pub fn intersect(&mut self, other: &StringSet)
        requires
            old(self).wf(),
        ensures
            final(self).wf(),
            final(self)@ == old(self)@.intersect(other@),
    {
        let n = self.items.len();
        let mut kept: Vec<String> = Vec::new();
        let mut i: usize = 0;
        while i < n
            invariant
                self.wf(),
                self.items@ == old(self).items@,
                n == self.items@.len(),
                0 <= i <= n,
                kept.deep_view().no_duplicates(),
                kept.deep_view().to_set()
                    == self.items.deep_view().subrange(0, i as int).to_set().intersect(other@),
            decreases n - i,
        {
            let ghost pre = self.items.deep_view().subrange(0, i as int);
            let ghost cur = self.items.deep_view()[i as int];
            let ghost kept_pre = kept.deep_view();
            proof {
                assert(self.items.deep_view().subrange(0, i as int + 1) =~= pre.push(cur));
                lemma_to_set_push(pre, cur);
                assert(cur == (self.items@[i as int])@);
                assert(!pre.contains(cur)) by {
                    if pre.contains(cur) {
                        let j = choose|j: int| 0 <= j < pre.len() && pre[j] == cur;
                        assert(self.items.deep_view()[j] == cur);
                    }
                }
                assert(!kept_pre.contains(cur)) by {
                    if kept_pre.contains(cur) {
                        assert(kept_pre.to_set().contains(cur));
                        assert(pre.to_set().contains(cur));
                    }
                }
            }
            if other.contains(self.items[i].as_str()) {
                kept.push(self.items[i].clone());
                proof {
                    assert(kept.deep_view() =~= kept_pre.push(cur));
                    lemma_push_no_dup(kept_pre, cur);
                    lemma_to_set_push(kept_pre, cur);
                }
            }
            proof {
                assert(kept.deep_view().to_set() =~= self.items.deep_view().subrange(
                    0, i as int + 1).to_set().intersect(other@));
            }
            i += 1;
        }
        proof {
            assert(self.items.deep_view().subrange(0, n as int) =~= self.items.deep_view());
        }
        self.items = kept;
    }
}

impl Clone for StringSet {
    /// A clone has the same members.
    fn clone(&self) -> (r: Self)
        ensures
            r@ == self@,
            r.wf() == self.wf(),
    {
        let n = self.items.len();
        let mut items: Vec<String> = Vec::new();
        let mut i: usize = 0;
        while i < n
            invariant
                n == self.items@.len(),
                0 <= i <= n,
                items@.len() == i,
                forall|j: int| 0 <= j < i ==> (#[trigger] items@[j])@ == (self.items@[j])@,
            decreases n - i,
        {
            items.push(self.items[i].clone());
            i += 1;
        }
        let r = StringSet { items };
        proof {
            assert(r.items.deep_view() =~= self.items.deep_view());
        }
        r
    }
}

/// Pushing a fresh member keeps a sequence duplicate-free.
proof fn lemma_push_no_dup(s: Seq<Seq<char>>, x: Seq<char>)
    requires
        s.no_duplicates(),
        !s.contains(x),
    ensures
        s.push(x).no_duplicates(),
{
    let t = s.push(x);
    assert forall|i: int, j: int| 0 <= i < j < t.len() implies t[i] != t[j] by {
        if j < t.len() - 1 {
            assert(t[i] == s[i] && t[j] == s[j]);
        } else {
            assert(t[i] == s[i] && t[j] == x);
            assert(s.contains(s[i]));
        }
    }
}

/// The set of a sequence with one member pushed.
pub(crate) proof fn lemma_to_set_push(s: Seq<Seq<char>>, x: Seq<char>)
    ensures
        s.push(x).to_set() == s.to_set().insert(x),
{
    let t = s.push(x);
    assert forall|y: Seq<char>| t.to_set().contains(y)
        implies s.to_set().insert(x).contains(y) by {
        let j = choose|j: int| 0 <= j < t.len() && t[j] == y;
        if j < s.len() {
            assert(s[j] == y);
            assert(s.contains(y));
        } else {
            assert(y == x);
        }
    }
    assert forall|y: Seq<char>| s.to_set().insert(x).contains(y)
        implies t.to_set().contains(y) by {
        if y == x {
            assert(t[s.len() as int] == y);
            assert(t.contains(y));
        } else {
            let j = choose|j: int| 0 <= j < s.len() && s[j] == y;
            assert(t[j] == y);
            assert(t.contains(y));
        }
    }
    assert(t.to_set() =~= s.to_set().insert(x));
}

/// Removing the member at index `i` from a duplicate-free sequence removes
/// exactly that member from its set.
proof fn lemma_remove_at(s: Seq<Seq<char>>, i: int)
    requires
        s.no_duplicates(),
        0 <= i < s.len(),
    ensures
        s.remove(i).to_set() == s.to_set().remove(s[i]),
        s.remove(i).no_duplicates(),
{
    let t = s.remove(i);
    assert(forall|j: int| 0 <= j < i ==> #[trigger] t[j] == s[j]);
    assert(forall|j: int| i <= j < t.len() ==> #[trigger] t[j] == s[j + 1]);
    assert(t.to_set() =~= s.to_set().remove(s[i])) by {
        assert forall|y: Seq<char>| t.to_set().contains(y)
            implies s.to_set().contains(y) && y != s[i] by {
            let j = choose|j: int| 0 <= j < t.len() && t[j] == y;
            if j < i {
                assert(s[j] == y);
            } else {
                assert(s[j + 1] == y);
            }
        }
        assert forall|y: Seq<char>| s.to_set().contains(y) && y != s[i]
            implies t.to_set().contains(y) by {
            let j = choose|j: int| 0 <= j < s.len() && s[j] == y;
            if j < i {
                assert(t[j] == y);
            } else {
                assert(t[j - 1] == y);
            }
        }
    }
}
} // verus!
