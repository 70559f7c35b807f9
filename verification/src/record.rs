//! The flat record shape shared by both engines: an ordered list of
//! (field, string-value) pairs with distinct field names, viewed as a
//! `Map<Seq<char>, Seq<char>>`. This is both the wire form of a typed
//! object and the backing of the low-level hash command surface.

use vstd::prelude::*;
use vstd::string::StringExecFns;

verus! {

/// The map described by a list of (field, value) pairs; a later pair for
/// the same field shadows an earlier one.
pub open spec fn map_of_entries(s: Seq<(String, String)>) -> Map<Seq<char>, Seq<char>>
    decreases s.len(),
{
    if s.len() == 0 {
        Map::empty()
    } else {
        map_of_entries(s.drop_last()).insert(s.last().0@, s.last().1@)
    }
}

/// Whether the field names of `s` are pairwise distinct.
pub open spec fn distinct_fields(s: Seq<(String, String)>) -> bool {
    forall|i: int, j: int| 0 <= i < j < s.len() ==> (#[trigger] s[i]).0@ != (#[trigger] s[j]).0@
}

proof fn lemma_map_of_contains(s: Seq<(String, String)>, k: Seq<char>)
    ensures
        map_of_entries(s).contains_key(k) <==> exists|i: int| 0 <= i < s.len() && (#[trigger] s[i]).0@ == k,
    decreases s.len(),
{
    if s.len() > 0 {
        lemma_map_of_contains(s.drop_last(), k);
        if s.last().0@ == k {
            assert(s[s.len() - 1].0@ == k);
        } else if map_of_entries(s).contains_key(k) {
            let i = choose|i: int| 0 <= i < s.len() - 1 && (#[trigger] s.drop_last()[i]).0@ == k;
            assert(s[i].0@ == k);
        } else {
            assert(forall|i: int| 0 <= i < s.len() - 1 ==> (#[trigger] s[i]).0@ == s.drop_last()[i].0@);
        }
    }
}

proof fn lemma_map_of_index(s: Seq<(String, String)>, i: int)
    requires
        distinct_fields(s),
        0 <= i < s.len(),
    ensures
        map_of_entries(s).contains_key(s[i].0@),
        map_of_entries(s)[s[i].0@] == s[i].1@,
    decreases s.len(),
{
    if i == s.len() - 1 {
    } else {
        assert(distinct_fields(s.drop_last()));
        assert(s.drop_last()[i] == s[i]);
        lemma_map_of_index(s.drop_last(), i);
        assert(s[s.len() - 1].0@ != s[i].0@);
    }
}

proof fn lemma_map_of_update(s: Seq<(String, String)>, i: int, k: String, v: String)
    requires
        distinct_fields(s),
        0 <= i < s.len(),
        k@ == s[i].0@,
    ensures
        map_of_entries(s.update(i, (k, v))) == map_of_entries(s).insert(s[i].0@, v@),
        distinct_fields(s.update(i, (k, v))),
    decreases s.len(),
{
    let t = s.update(i, (k, v));
    assert(distinct_fields(t)) by {
        assert(forall|p: int| 0 <= p < s.len() ==> (#[trigger] t[p]).0@ == s[p].0@);
    }
    if i == s.len() - 1 {
        assert(t.drop_last() =~= s.drop_last());
        assert(map_of_entries(t) =~= map_of_entries(s).insert(s[i].0@, v@));
    } else {
        assert(distinct_fields(s.drop_last()));
        assert(s.drop_last()[i] == s[i]);
        lemma_map_of_update(s.drop_last(), i, k, v);
        assert(t.drop_last() =~= s.drop_last().update(i, (k, v)));
        assert(s.last().0@ != s[i].0@);
        assert(t.last() == s.last());
        assert(map_of_entries(t) =~= map_of_entries(s).insert(s[i].0@, v@));
    }
}

proof fn lemma_map_of_remove(s: Seq<(String, String)>, i: int)
    requires
        distinct_fields(s),
        0 <= i < s.len(),
    ensures
        map_of_entries(s.remove(i)) == map_of_entries(s).remove(s[i].0@),
        distinct_fields(s.remove(i)),
    decreases s.len(),
{
    let t = s.remove(i);
    assert(distinct_fields(t)) by {
        assert(forall|p: int| 0 <= p < i ==> #[trigger] t[p] == s[p]);
        assert(forall|p: int| i <= p < t.len() ==> #[trigger] t[p] == s[p + 1]);
    }
    if i == s.len() - 1 {
        assert(t =~= s.drop_last());
        lemma_map_of_not_contains(s.drop_last(), s[i].0@);
        assert(map_of_entries(t) =~= map_of_entries(s).remove(s[i].0@));
    } else {
        assert(distinct_fields(s.drop_last()));
        assert(s.drop_last()[i] == s[i]);
        lemma_map_of_remove(s.drop_last(), i);
        assert(t.drop_last() =~= s.drop_last().remove(i));
        assert(t.last() == s.last());
        assert(s.last().0@ != s[i].0@);
        assert(map_of_entries(t) =~= map_of_entries(s).remove(s[i].0@));
    }
}

proof fn lemma_map_of_not_contains(s: Seq<(String, String)>, k: Seq<char>)
    requires
        forall|i: int| 0 <= i < s.len() ==> (#[trigger] s[i]).0@ != k,
    ensures
        !map_of_entries(s).contains_key(k),
{
    lemma_map_of_contains(s, k);
}

proof fn lemma_map_of_len(s: Seq<(String, String)>)
    requires
        distinct_fields(s),
    ensures
        map_of_entries(s).dom().finite(),
        map_of_entries(s).dom().len() == s.len(),
    decreases s.len(),
{
    if s.len() > 0 {
        assert(distinct_fields(s.drop_last()));
        lemma_map_of_len(s.drop_last());
        lemma_map_of_not_contains(s.drop_last(), s.last().0@);
    }
}

/// A flat record: field names mapped to string values, the canonical
/// storage shape for typed objects and for hash records in both engines.
/// Field order is kept for the wire, but the meaning is the map view.
pub struct FieldMap {
    entries: Vec<(String, String)>,
}

impl View for FieldMap {
    type V = Map<Seq<char>, Seq<char>>;

    closed spec fn view(&self) -> Map<Seq<char>, Seq<char>> {
        map_of_entries(self.entries@)
    }
}

impl FieldMap {
    /// Internal well-formedness: field names are pairwise distinct. Every
    /// constructor establishes it and every operation preserves it.
    pub closed spec fn wf(&self) -> bool {
        distinct_fields(self.entries@)
    }

    /// The fields in wire order.
    pub closed spec fn spec_fields(&self) -> Seq<Seq<char>> {
        self.entries@.map_values(|e: (String, String)| e.0@)
    }

    /// The values in wire order.
    pub closed spec fn spec_values(&self) -> Seq<Seq<char>> {
        self.entries@.map_values(|e: (String, String)| e.1@)
    }

    /// An empty record.
    pub fn new() -> (r: FieldMap)
        ensures
            r.wf(),
            r@ == Map::<Seq<char>, Seq<char>>::empty(),
            r.spec_fields() == Seq::<Seq<char>>::empty(),
    {
        let r = FieldMap { entries: Vec::new() };
        proof {
            assert(r.spec_fields() =~= Seq::<Seq<char>>::empty());
        }
        r
    }

    /// The number of fields.
    pub fn len(&self) -> (r: usize)
        requires
            self.wf(),
        ensures
            r == self@.dom().len(),
            r == self.spec_fields().len(),
    {
        proof {
            lemma_map_of_len(self.entries@);
        }
        self.entries.len()
    }

    /// Looks a field up.
    pub fn get(&self, field: &str) -> (r: Option<&String>)
        requires
            self.wf(),
        ensures
            match r {
                Some(v) => self@.contains_key(field@) && v@ == self@[field@],
                None => !self@.contains_key(field@),
            },
    {
        let n = self.entries.len();
        let mut i: usize = 0;
        while i < n
            invariant
                self.wf(),
                n == self.entries@.len(),
                0 <= i <= n,
                forall|j: int| 0 <= j < i ==> (#[trigger] self.entries@[j]).0@ != field@,
            decreases n - i,
        {
            if crate::strings::str_eq(self.entries[i].0.as_str(), field) {
                proof {
                    lemma_map_of_index(self.entries@, i as int);
                }
                return Some(&self.entries[i].1);
            }
            i += 1;
        }
        proof {
            lemma_map_of_not_contains(self.entries@, field@);
        }
        None
    }

    /// Whether a field is present.
    pub fn contains_field(&self, field: &str) -> (r: bool)
        requires
            self.wf(),
        ensures
            r == self@.contains_key(field@),
    {
        match self.get(field) {
            Some(_) => true,
            None => false,
        }
    }

    /// Sets a field, overwriting any existing value for it.
    pub fn set(&mut self, field: String, value: String)
        requires
            old(self).wf(),
        ensures
            final(self).wf(),
            final(self)@ == old(self)@.insert(field@, value@),
    {
        let n = self.entries.len();
        let mut i: usize = 0;
        while i < n
            invariant
                self.wf(),
                self.entries@ == old(self).entries@,
                n == self.entries@.len(),
                0 <= i <= n,
                forall|j: int| 0 <= j < i ==> (#[trigger] self.entries@[j]).0@ != field@,
            decreases n - i,
        {
            if crate::strings::str_eq(self.entries[i].0.as_str(), field.as_str()) {
                proof {
                    lemma_map_of_update(self.entries@, i as int, field, value);
                }
                self.entries[i] = (field, value);
                return ;
            }
            i += 1;
        }
        proof {
            lemma_map_of_not_contains(self.entries@, field@);
        }
        self.entries.push((field, value));
        proof {
            assert(self.entries@.drop_last() =~= old(self).entries@);
        }
    }

    /// Removes a field; removing an absent field leaves the record as it is.
    pub fn remove(&mut self, field: &str)
        requires
            old(self).wf(),
        ensures
            final(self).wf(),
            final(self)@ == old(self)@.remove(field@),
    {
        let n = self.entries.len();
        let mut i: usize = 0;
        while i < n
            invariant
                self.wf(),
                self.entries@ == old(self).entries@,
                n == self.entries@.len(),
                0 <= i <= n,
                forall|j: int| 0 <= j < i ==> (#[trigger] self.entries@[j]).0@ != field@,
            decreases n - i,
        {
            if crate::strings::str_eq(self.entries[i].0.as_str(), field) {
                proof {
                    lemma_map_of_remove(self.entries@, i as int);
                }
                self.entries.remove(i);
                return ;
            }
            i += 1;
        }
        proof {
            lemma_map_of_not_contains(self.entries@, field@);
            assert(old(self)@.remove(field@) =~= old(self)@);
        }
    }

    /// The field names, in wire order.
    pub fn fields(&self) -> (r: Vec<String>)
        requires
            self.wf(),
        ensures
            r.deep_view() == self.spec_fields(),
            forall|k: Seq<char>| self@.contains_key(k) <==> self.spec_fields().contains(k),
    {
        let n = self.entries.len();
        let mut r: Vec<String> = Vec::new();
        let mut i: usize = 0;
        while i < n
            invariant
                self.wf(),
                n == self.entries@.len(),
                0 <= i <= n,
                r@.len() == i,
                forall|j: int| 0 <= j < i ==> (#[trigger] r@[j])@ == self.entries@[j].0@,
            decreases n - i,
        {
            r.push(self.entries[i].0.clone());
            i += 1;
        }
        proof {
            assert(r.deep_view() =~= self.spec_fields());
            lemma_fields_contains(self.entries@);
        }
        r
    }

    /// The values, in wire order.
    pub fn values(&self) -> (r: Vec<String>)
        requires
            self.wf(),
        ensures
            r.deep_view() == self.spec_values(),
            forall|i: int| 0 <= i < self.spec_fields().len() ==>
                self@[#[trigger] self.spec_fields()[i]] == self.spec_values()[i],
    {
        let n = self.entries.len();
        let mut r: Vec<String> = Vec::new();
        let mut i: usize = 0;
        while i < n
            invariant
                self.wf(),
                n == self.entries@.len(),
                0 <= i <= n,
                r@.len() == i,
                forall|j: int| 0 <= j < i ==> (#[trigger] r@[j])@ == self.entries@[j].1@,
            decreases n - i,
        {
            r.push(self.entries[i].1.clone());
            i += 1;
        }
        proof {
            assert(r.deep_view() =~= self.spec_values());
            assert(forall|i: int| 0 <= i < self.spec_fields().len() ==>
                self@[#[trigger] self.spec_fields()[i]] == self.spec_values()[i]) by {
                assert(forall|i: int| 0 <= i < self.entries@.len() ==> {
                    &&& map_of_entries(self.entries@).contains_key((#[trigger] self.entries@[i]).0@)
                    &&& map_of_entries(self.entries@)[self.entries@[i].0@] == self.entries@[i].1@
                }) by {
                    assert forall|i: int| 0 <= i < self.entries@.len() implies {
                        &&& map_of_entries(self.entries@).contains_key((#[trigger] self.entries@[i]).0@)
                        &&& map_of_entries(self.entries@)[self.entries@[i].0@] == self.entries@[i].1@
                    } by {
                        lemma_map_of_index(self.entries@, i);
                    }
                }
            }
        }
        r
    }

    /// The (field, value) pairs in wire order, for handing to the remote
    /// store in one write.
    pub fn pairs(&self) -> (r: &Vec<(String, String)>)
        ensures
            r.deep_view() == self.spec_pairs(),
    {
        proof {
            assert(self.entries.deep_view() =~= self.spec_pairs());
        }
        &self.entries
    }

    /// The (field, value) pairs in wire order.
    pub closed spec fn spec_pairs(&self) -> Seq<(Seq<char>, Seq<char>)> {
        self.entries@.map_values(|e: (String, String)| (e.0@, e.1@))
    }
}

impl FieldMap {
    /// What well-formedness gives the record's field list: it has no
    /// duplicates, it covers the domain exactly, and it indexes the values.
    pub proof fn lemma_wf_props(&self)
        requires
            self.wf(),
        ensures
            self.spec_fields().no_duplicates(),
            self.spec_fields().to_set() == self@.dom(),
            self@.dom().finite(),
            self@.dom().len() == self.spec_fields().len(),
            self.spec_values().len() == self.spec_fields().len(),
            forall|i: int| 0 <= i < self.spec_fields().len()
                ==> self@.contains_key(#[trigger] self.spec_fields()[i])
                    && self@[self.spec_fields()[i]] == self.spec_values()[i],
    {
        let s = self.entries@;
        let f = self.spec_fields();
        assert(f.no_duplicates()) by {
            assert(forall|i: int| 0 <= i < s.len() ==> #[trigger] f[i] == s[i].0@);
        }
        lemma_fields_contains(s);
        assert(f.to_set() =~= self@.dom()) by {
            assert(forall|k: Seq<char>| self@.dom().contains(k) == self@.contains_key(k));
        }
        lemma_map_of_len(s);
        assert forall|i: int| 0 <= i < f.len()
            implies self@.contains_key(#[trigger] f[i]) && self@[f[i]] == self.spec_values()[i] by {
            lemma_map_of_index(s, i);
        }
    }
}

proof fn lemma_fields_contains(s: Seq<(String, String)>)
    ensures
        forall|k: Seq<char>| map_of_entries(s).contains_key(k)
            <==> s.map_values(|e: (String, String)| e.0@).contains(k),
{
    assert forall|k: Seq<char>| map_of_entries(s).contains_key(k)
        <==> s.map_values(|e: (String, String)| e.0@).contains(k) by {
        lemma_map_of_contains(s, k);
        let f = s.map_values(|e: (String, String)| e.0@);
        if exists|i: int| 0 <= i < s.len() && (#[trigger] s[i]).0@ == k {
            let i = choose|i: int| 0 <= i < s.len() && (#[trigger] s[i]).0@ == k;
            assert(f[i] == k);
        }
        if f.contains(k) {
            let i = choose|i: int| 0 <= i < f.len() && f[i] == k;
            assert(s[i].0@ == k);
        }
    }
}

impl Clone for FieldMap {
    /// A clone carries the same fields and values.
    fn clone(&self) -> (r: Self)
        ensures
            r@ == self@,
            r.wf() == self.wf(),
            r.spec_fields() == self.spec_fields(),
    {
        let n = self.entries.len();
        let mut entries: Vec<(String, String)> = Vec::new();
        let mut i: usize = 0;
        while i < n
            invariant
                n == self.entries@.len(),
                0 <= i <= n,
                entries@.len() == i,
                forall|j: int| 0 <= j < i ==> #[trigger] entries@[j].0@ == self.entries@[j].0@
                    && entries@[j].1@ == self.entries@[j].1@,
            decreases n - i,
        {
            entries.push((self.entries[i].0.clone(), self.entries[i].1.clone()));
            i += 1;
        }
        let r = FieldMap { entries };
        proof {
            lemma_map_of_congruence(r.entries@, self.entries@);
            assert(r.spec_fields() =~= self.spec_fields());
        }
        r
    }
}

proof fn lemma_map_of_congruence(a: Seq<(String, String)>, b: Seq<(String, String)>)
    requires
        a.len() == b.len(),
        forall|j: int| 0 <= j < a.len() ==> #[trigger] a[j].0@ == b[j].0@ && a[j].1@ == b[j].1@,
    ensures
        map_of_entries(a) == map_of_entries(b),
        distinct_fields(a) == distinct_fields(b),
    decreases a.len(),
{
    if a.len() > 0 {
        assert(forall|j: int| 0 <= j < a.len() - 1
            ==> #[trigger] a.drop_last()[j].0@ == b.drop_last()[j].0@
                && a.drop_last()[j].1@ == b.drop_last()[j].1@) by {
            assert(forall|j: int| 0 <= j < a.len() - 1 ==> #[trigger] a.drop_last()[j] == a[j]);
            assert(forall|j: int| 0 <= j < b.len() - 1 ==> #[trigger] b.drop_last()[j] == b[j]);
        }
        lemma_map_of_congruence(a.drop_last(), b.drop_last());
        assert(map_of_entries(a) =~= map_of_entries(b));
        if distinct_fields(a) {
            assert forall|i: int, j: int| 0 <= i < j < b.len()
                implies (#[trigger] b[i]).0@ != (#[trigger] b[j]).0@ by {
                assert(a[i].0@ == b[i].0@);
                assert(a[j].0@ == b[j].0@);
            }
        }
        if distinct_fields(b) {
            assert forall|i: int, j: int| 0 <= i < j < a.len()
                implies (#[trigger] a[i]).0@ != (#[trigger] a[j]).0@ by {
                assert(a[i].0@ == b[i].0@);
                assert(a[j].0@ == b[j].0@);
            }
        }
    } else {
        assert(map_of_entries(a) =~= map_of_entries(b));
    }
}
} // verus!
