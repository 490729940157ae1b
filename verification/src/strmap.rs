//! A small association map with string keys, backed by a vector whose keys
//! are pairwise distinct.  Lookups are specified by `map_find`; every
//! mutating operation says exactly which key changed and that every other
//! binding is untouched.

use vstd::prelude::*;
use vstd::string::*;

verus! {

/// The first value bound to key `k`, scanning from the front.
pub open spec fn map_find<V>(s: Seq<(String, V)>, k: Seq<char>) -> Option<V>
    decreases s.len(),
{
    if s.len() == 0 {
        None
    } else if s[0].0@ == k {
        Some(s[0].1)
    } else {
        map_find(s.skip(1), k)
    }
}

proof fn lemma_find_first<V>(s: Seq<(String, V)>, k: Seq<char>, i: int)
    requires
        0 <= i < s.len(),
        s[i].0@ == k,
        forall|j: int| 0 <= j < i ==> #[trigger] s[j].0@ != k,
    ensures
        map_find(s, k) == Some(s[i].1),
    decreases i,
{
    if i > 0 {
        assert forall|j: int| 0 <= j < i - 1 implies #[trigger] s.skip(1)[j].0@ != k by {
            assert(s.skip(1)[j] == s[j + 1]);
        }
        assert(s.skip(1)[i - 1] == s[i]);
        lemma_find_first(s.skip(1), k, i - 1);
    }
}

proof fn lemma_find_absent<V>(s: Seq<(String, V)>, k: Seq<char>)
    requires
        forall|j: int| 0 <= j < s.len() ==> #[trigger] s[j].0@ != k,
    ensures
        map_find(s, k) is None,
    decreases s.len(),
{
    if s.len() > 0 {
        assert forall|j: int| 0 <= j < s.len() - 1 implies #[trigger] s.skip(1)[j].0@ != k by {
            assert(s.skip(1)[j] == s[j + 1]);
        }
        lemma_find_absent(s.skip(1), k);
    }
}

/// A found binding sits at some index.
pub proof fn lemma_find_some_index<V>(s: Seq<(String, V)>, k: Seq<char>)
    requires
        map_find(s, k) is Some,
    ensures
        exists|i: int|
            0 <= i < s.len() && #[trigger] s[i].0@ == k && s[i].1 == map_find(s, k)->Some_0,
    decreases s.len(),
{
    if s.len() > 0 && s[0].0@ != k {
        lemma_find_some_index(s.skip(1), k);
        let i = choose|i: int|
            0 <= i < s.skip(1).len() && #[trigger] s.skip(1)[i].0@ == k && s.skip(1)[i].1
                == map_find(s.skip(1), k)->Some_0;
        assert(s[i + 1] == s.skip(1)[i]);
    }
}

proof fn lemma_find_update<V>(s: Seq<(String, V)>, i: int, e: (String, V))
    requires
        0 <= i < s.len(),
        e.0@ == s[i].0@,
        forall|j: int| 0 <= j < i ==> #[trigger] s[j].0@ != s[i].0@,
    ensures
        map_find(s.update(i, e), s[i].0@) == Some(e.1),
        forall|k2: Seq<char>|
            k2 != s[i].0@ ==> #[trigger] map_find(s.update(i, e), k2) == map_find(s, k2),
    decreases i,
{
    let k = s[i].0@;
    let t = s.update(i, e);
    if i == 0 {
        assert(t[0] == e);
        assert forall|k2: Seq<char>| k2 != k implies #[trigger] map_find(t, k2) == map_find(
            s,
            k2,
        ) by {
            assert(t.skip(1) =~= s.skip(1));
            assert(t[0].0@ != k2 && s[0].0@ != k2);
        }
    } else {
        assert(t[0] == s[0]);
        assert(s[0].0@ != k);
        assert(t.skip(1) =~= s.skip(1).update(i - 1, e));
        assert(s.skip(1)[i - 1] == s[i]);
        assert forall|j: int| 0 <= j < i - 1 implies #[trigger] s.skip(1)[j].0@ != k by {
            assert(s.skip(1)[j] == s[j + 1]);
        }
        lemma_find_update(s.skip(1), i - 1, e);
        assert(map_find(t, k) == map_find(s.skip(1).update(i - 1, e), k));
        assert forall|k2: Seq<char>| k2 != k implies #[trigger] map_find(t, k2) == map_find(
            s,
            k2,
        ) by {
            if s[0].0@ != k2 {
                assert(map_find(s.skip(1).update(i - 1, e), k2) == map_find(s.skip(1), k2));
                assert(map_find(t, k2) == map_find(t.skip(1), k2));
            }
        }
    }
}

proof fn lemma_find_remove<V>(s: Seq<(String, V)>, i: int)
    requires
        0 <= i < s.len(),
        forall|j: int| 0 <= j < s.len() && j != i ==> #[trigger] s[j].0@ != s[i].0@,
    ensures
        map_find(s.remove(i), s[i].0@) is None,
        forall|k2: Seq<char>|
            k2 != s[i].0@ ==> #[trigger] map_find(s.remove(i), k2) == map_find(s, k2),
    decreases i,
{
    let k = s[i].0@;
    let t = s.remove(i);
    if i == 0 {
        assert(t =~= s.skip(1));
        assert forall|j: int| 0 <= j < s.skip(1).len() implies #[trigger] s.skip(1)[j].0@
            != k by {
            assert(s.skip(1)[j] == s[j + 1]);
        }
        lemma_find_absent(s.skip(1), k);
    } else {
        assert(t[0] == s[0]);
        assert(s[0].0@ != k);
        assert(t.skip(1) =~= s.skip(1).remove(i - 1));
        assert(s.skip(1)[i - 1] == s[i]);
        assert forall|j: int|
            0 <= j < s.skip(1).len() && j != i - 1 implies #[trigger] s.skip(1)[j].0@ != k by {
            assert(s.skip(1)[j] == s[j + 1]);
        }
        lemma_find_remove(s.skip(1), i - 1);
        assert(map_find(t, k) == map_find(s.skip(1).remove(i - 1), k));
        assert forall|k2: Seq<char>| k2 != k implies #[trigger] map_find(t, k2) == map_find(
            s,
            k2,
        ) by {
            if s[0].0@ != k2 {
                assert(map_find(s.skip(1).remove(i - 1), k2) == map_find(s.skip(1), k2));
                assert(map_find(t, k2) == map_find(t.skip(1), k2));
            }
        }
    }
}

proof fn lemma_find_push<V>(s: Seq<(String, V)>, e: (String, V))
    requires
        forall|j: int| 0 <= j < s.len() ==> #[trigger] s[j].0@ != e.0@,
    ensures
        map_find(s.push(e), e.0@) == Some(e.1),
        forall|k2: Seq<char>| k2 != e.0@ ==> #[trigger] map_find(s.push(e), k2) == map_find(s, k2),
    decreases s.len(),
{
    let t = s.push(e);
    if s.len() == 0 {
        assert(t[0] == e);
        assert forall|k2: Seq<char>| k2 != e.0@ implies #[trigger] map_find(t, k2) == map_find(
            s,
            k2,
        ) by {
            assert(t.skip(1) =~= Seq::<(String, V)>::empty());
            assert(map_find(t, k2) == map_find(t.skip(1), k2));
            assert(map_find(Seq::<(String, V)>::empty(), k2) is None);
            assert(map_find(s, k2) is None);
        }
    } else {
        assert(t[0] == s[0]);
        assert(t.skip(1) =~= s.skip(1).push(e));
        assert forall|j: int| 0 <= j < s.skip(1).len() implies #[trigger] s.skip(1)[j].0@
            != e.0@ by {
            assert(s.skip(1)[j] == s[j + 1]);
        }
        lemma_find_push(s.skip(1), e);
        assert(s[0].0@ != e.0@);
        assert(map_find(t, e.0@) == map_find(s.skip(1).push(e), e.0@));
        assert forall|k2: Seq<char>| k2 != e.0@ implies #[trigger] map_find(t, k2) == map_find(
            s,
            k2,
        ) by {
            if s[0].0@ != k2 {
                assert(map_find(s.skip(1).push(e), k2) == map_find(s.skip(1), k2));
                assert(map_find(t, k2) == map_find(t.skip(1), k2));
            }
        }
    }
}

/// A vector-backed association map with pairwise-distinct string keys.
pub struct StrMap<V> {
    entries: Vec<(String, V)>,
}

impl<V> StrMap<V> {
    /// The stored bindings, in insertion order.
    pub closed spec fn entries(&self) -> Seq<(String, V)> {
        self.entries@
    }

    /// The value bound to `k`, if any.
    pub open spec fn spec_get(&self, k: Seq<char>) -> Option<V> {
        map_find(self.entries(), k)
    }

    /// Keys are pairwise distinct.
    pub closed spec fn wf(&self) -> bool {
        forall|p: int, q: int|
            0 <= p < q < self.entries@.len() ==> #[trigger] self.entries@[p].0@ != #[trigger] self.entries@[q].0@
    }

    /// Under distinct keys, the binding at index `i` is what lookup of its
    /// key finds.
    pub proof fn lemma_get_at(&self, i: int)
        requires
            self.wf(),
            0 <= i < self.entries().len(),
        ensures
            self.spec_get(self.entries()[i].0@) == Some(self.entries()[i].1),
    {
        assert forall|j: int| 0 <= j < i implies #[trigger] self.entries@[j].0@
            != self.entries@[i].0@ by {}
        lemma_find_first(self.entries@, self.entries@[i].0@, i);
    }

    /// Creates an empty map.
    pub fn new() -> (r: Self)
        ensures
            r.wf(),
            r.entries().len() == 0,
            forall|k: Seq<char>| #[trigger] r.spec_get(k) is None,
    {
        StrMap { entries: Vec::new() }
    }

    /// The number of bindings.
    pub fn len(&self) -> (r: usize)
        ensures
            r == self.entries().len(),
    {
        self.entries.len()
    }

    /// The index of the binding for `k`, if any.
    pub fn index_of(&self, k: &str) -> (r: Option<usize>)
        ensures
            r matches Some(i) ==> i < self.entries().len() && self.entries()[i as int].0@ == k@
                && self.spec_get(k@) == Some(self.entries()[i as int].1) && forall|j: int|
                0 <= j < i ==> #[trigger] self.entries()[j].0@ != k@,
            r is None ==> self.spec_get(k@) is None && forall|j: int|
                0 <= j < self.entries().len() ==> #[trigger] self.entries()[j].0@ != k@,
    {
        let key: String = k.to_owned();
        let n = self.entries.len();
        let mut i: usize = 0;
        while i < n
            invariant
                i <= n == self.entries@.len(),
                key@ == k@,
                forall|j: int| 0 <= j < i ==> #[trigger] self.entries@[j].0@ != k@,
            decreases n - i,
        {
            if self.entries[i].0 == key {
                proof {
                    lemma_find_first(self.entries@, k@, i as int);
                }
                return Some(i);
            }
            i += 1;
        }
        proof {
            lemma_find_absent(self.entries@, k@);
        }
        None
    }

    /// Borrows the value bound to `k`.
    pub fn get(&self, k: &str) -> (r: Option<&V>)
        ensures
            match self.spec_get(k@) {
                Some(v) => r matches Some(rv) && *rv == v,
                None => r is None,
            },
    {
        match self.index_of(k) {
            Some(i) => Some(&self.entries[i].1),
            None => None,
        }
    }

    /// The key of the binding at index `i`.
    pub fn key_at(&self, i: usize) -> (r: &String)
        requires
            i < self.entries().len(),
        ensures
            *r == self.entries()[i as int].0,
    {
        &self.entries[i].0
    }

    /// The value of the binding at index `i`.
    pub fn value_at(&self, i: usize) -> (r: &V)
        requires
            i < self.entries().len(),
        ensures
            *r == self.entries()[i as int].1,
    {
        &self.entries[i].1
    }

    /// Binds `k` to `v`, overwriting any prior binding; no other binding
    /// changes.
    pub fn insert(&mut self, k: String, v: V)
        requires
            old(self).wf(),
        ensures
            final(self).wf(),
            final(self).spec_get(k@) == Some(v),
            forall|k2: Seq<char>|
                k2 != k@ ==> #[trigger] final(self).spec_get(k2) == old(self).spec_get(k2),
    {
        match self.index_of(k.as_str()) {
            Some(i) => {
                proof {
                    lemma_find_update(self.entries@, i as int, (k, v));
                }
                self.entries.set(i, (k, v));
            },
            None => {
                proof {
                    lemma_find_push(self.entries@, (k, v));
                }
                self.entries.push((k, v));
            },
        }
    }

    /// Replaces the value at index `i`, keeping its key; no other binding
    /// changes.
    pub fn set_at(&mut self, i: usize, v: V)
        requires
            old(self).wf(),
            i < old(self).entries().len(),
        ensures
            final(self).wf(),
            final(self).entries().len() == old(self).entries().len(),
            final(self).entries()[i as int].0 == old(self).entries()[i as int].0,
            final(self).spec_get(old(self).entries()[i as int].0@) == Some(v),
            forall|k2: Seq<char>|
                k2 != old(self).entries()[i as int].0@ ==> #[trigger] final(self).spec_get(k2)
                    == old(self).spec_get(k2),
    {
        let e = &mut self.entries[i];
        e.1 = v;
        proof {
            assert(self.entries@ =~= old(self).entries@.update(
                i as int,
                (old(self).entries@[i as int].0, v),
            ));
            lemma_find_update(
                old(self).entries@,
                i as int,
                (old(self).entries@[i as int].0, v),
            );
        }
    }

    /// Removes the binding at index `i`; no other binding changes.
    pub fn remove_at(&mut self, i: usize)
        requires
            old(self).wf(),
            i < old(self).entries().len(),
        ensures
            final(self).wf(),
            final(self).entries() == old(self).entries().remove(i as int),
            final(self).spec_get(old(self).entries()[i as int].0@) is None,
            forall|k2: Seq<char>|
                k2 != old(self).entries()[i as int].0@ ==> #[trigger] final(self).spec_get(k2)
                    == old(self).spec_get(k2),
    {
        proof {
            lemma_find_remove(self.entries@, i as int);
        }
        self.entries.remove(i);
    }

    /// Removes any binding for `k`; no other binding changes.
    pub fn remove_key(&mut self, k: &str)
        requires
            old(self).wf(),
        ensures
            final(self).wf(),
            final(self).spec_get(k@) is None,
            forall|k2: Seq<char>|
                k2 != k@ ==> #[trigger] final(self).spec_get(k2) == old(self).spec_get(k2),
    {
        match self.index_of(k) {
            Some(i) => {
                proof {
                    lemma_find_remove(self.entries@, i as int);
                }
                self.entries.remove(i);
            },
            None => {},
        }
    }
}

} // verus!
