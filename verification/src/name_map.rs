use vstd::prelude::*;
use crate::ty::Type;

verus! {

/// Index of the last entry of `s` whose key is `k`, or -1 when there is none.
pub open spec fn last_index_of<V>(s: Seq<(String, V)>, k: Seq<char>) -> int
    decreases s.len(),
{
    if s.len() == 0 {
        -1
    } else if s.last().0@ == k {
        s.len() - 1
    } else {
        last_index_of(s.drop_last(), k)
    }
}

/// The map that a list of bindings denotes: a key maps to the value of its
/// last binding.
pub open spec fn bindings_map<V>(s: Seq<(String, V)>) -> Map<Seq<char>, V> {
    Map::new(|k: Seq<char>| last_index_of(s, k) >= 0, |k: Seq<char>| s[last_index_of(s, k)].1)
}

pub proof fn lemma_last_index_of_bounds<V>(s: Seq<(String, V)>, k: Seq<char>)
    ensures
        -1 <= last_index_of(s, k) < s.len(),
        last_index_of(s, k) >= 0 ==> s[last_index_of(s, k)].0@ == k,
        last_index_of(s, k) == -1 ==> forall|i: int| 0 <= i < s.len() ==> s[i].0@ != k,
        forall|i: int| last_index_of(s, k) < i < s.len() ==> s[i].0@ != k,
    decreases s.len(),
{
    if s.len() > 0 && s.last().0@ != k {
        lemma_last_index_of_bounds(s.drop_last(), k);
        assert forall|i: int| last_index_of(s, k) < i < s.len() implies s[i].0@ != k by {
            if i < s.len() - 1 {
                assert(s[i] == s.drop_last()[i]);
            }
        }
        assert forall|i: int| 0 <= i < s.len() && last_index_of(s, k) == -1 implies s[i].0@ != k by {
            if i < s.len() - 1 {
                assert(s[i] == s.drop_last()[i]);
            }
        }
    }
}

/// `last_index_of` is the last index holding key `k`.
pub proof fn lemma_last_index_of_char<V>(s: Seq<(String, V)>, k: Seq<char>, i: int)
    requires
        0 <= i < s.len(),
        s[i].0@ == k,
        forall|j: int| i < j < s.len() ==> s[j].0@ != k,
    ensures
        last_index_of(s, k) == i,
    decreases s.len(),
{
    if i < s.len() - 1 {
        assert(s.drop_last()[i] == s[i]);
        assert forall|j: int| i < j < s.drop_last().len() implies s.drop_last()[j].0@ != k by {
            assert(s.drop_last()[j] == s[j]);
        }
        lemma_last_index_of_char(s.drop_last(), k, i);
    }
}

/// Adding a binding at the end binds its key to its value.
pub proof fn lemma_bindings_map_push<V>(s: Seq<(String, V)>, b: (String, V))
    ensures
        bindings_map(s.push(b)) == bindings_map(s).insert(b.0@, b.1),
{
    assert(s.push(b).drop_last() =~= s);
    assert forall|k: Seq<char>| #[trigger] last_index_of(s.push(b), k) == (if k == b.0@ {
        s.len() as int
    } else {
        last_index_of(s, k)
    }) by {}
    assert forall|k: Seq<char>| bindings_map(s).contains_key(k) && k != b.0@ implies s.push(b)[last_index_of(s, k)] == s[last_index_of(s, k)] by {
        lemma_last_index_of_bounds(s, k);
    }
    assert(bindings_map(s.push(b)) =~= bindings_map(s).insert(b.0@, b.1));
}

/// A small map from names to values, kept as a list of bindings in the order
/// they were first made. Looking a name up yields the value bound to it most
/// recently; binding a name that is already bound replaces its value in place.
#[derive(Debug)]
pub struct NameMap<V> {
    entries: Vec<(String, V)>,
}

impl<V> View for NameMap<V> {
    type V = Map<Seq<char>, V>;

    open spec fn view(&self) -> Map<Seq<char>, V> {
        bindings_map(self.bindings())
    }
}

impl<V> NameMap<V> {
    /// The bindings in order.
    pub closed spec fn bindings(&self) -> Seq<(String, V)> {
        self.entries@
    }

    pub fn new() -> (m: Self)
        ensures
            m@ == Map::<Seq<char>, V>::empty(),
            m.bindings() == Seq::<(String, V)>::empty(),
    {
        let m = NameMap { entries: Vec::new() };
        assert(bindings_map(m.entries@) =~= Map::<Seq<char>, V>::empty());
        m
    }

    pub fn len(&self) -> (n: usize)
        ensures
            n == self.bindings().len(),
    {
        self.entries.len()
    }

    pub fn key_at(&self, i: usize) -> (k: &String)
        requires
            i < self.bindings().len(),
        ensures
            *k == self.bindings()[i as int].0,
    {
        &self.entries[i].0
    }

    pub fn value_at(&self, i: usize) -> (v: &V)
        requires
            i < self.bindings().len(),
        ensures
            *v == self.bindings()[i as int].1,
    {
        &self.entries[i].1
    }

    /// The position of the binding of `k`, if any.
    pub fn position(&self, k: &String) -> (r: Option<usize>)
        ensures
            match r {
                Some(i) => i as int == last_index_of(self.bindings(), k@) && i < self.bindings().len(),
                None => last_index_of(self.bindings(), k@) == -1,
            },
    {
        let mut i = self.entries.len();
        while i > 0
            invariant
                i <= self.entries.len(),
                forall|j: int| i <= j < self.entries@.len() ==> self.entries@[j].0@ != k@,
            decreases i,
        {
            if self.entries[i - 1].0 == *k {
                proof {
                    lemma_last_index_of_char(self.entries@, k@, i - 1);
                }
                return Some(i - 1);
            }
            i = i - 1;
        }
        proof {
            lemma_last_index_of_bounds(self.entries@, k@);
            if last_index_of(self.entries@, k@) >= 0 {
                assert(self.entries@[last_index_of(self.entries@, k@)].0@ == k@);
            }
        }
        None
    }

    pub fn contains_key(&self, k: &String) -> (b: bool)
        ensures
            b == self@.contains_key(k@),
    {
        self.position(k).is_some()
    }

    pub fn get(&self, k: &String) -> (r: Option<&V>)
        ensures
            match r {
                Some(v) => self@.contains_key(k@) && *v == self@[k@],
                None => !self@.contains_key(k@),
            },
    {
        match self.position(k) {
            Some(i) => Some(&self.entries[i].1),
            None => None,
        }
    }

    /// Binds `k` to `v`, replacing the value of an existing binding of `k`.
    pub fn insert(&mut self, k: String, v: V)
        ensures
            final(self)@ == old(self)@.insert(k@, v),
            old(self)@.contains_key(k@) ==> final(self).bindings().len() == old(self).bindings().len(),
            !old(self)@.contains_key(k@) ==> final(self).bindings() == old(self).bindings().push((k, v)),
    {
        let ghost old_s = self.entries@;
        match self.position(&k) {
            Some(i) => {
                self.entries.set(i, (k, v));
                proof {
                    let s = self.entries@;
                    lemma_last_index_of_bounds(old_s, k@);
                    assert forall|key: Seq<char>| #[trigger] last_index_of(s, key) == last_index_of(old_s, key) by {
                        Self::lemma_same_keys(old_s, s, key);
                    }
                    assert forall|key: Seq<char>| key != k@ && last_index_of(old_s, key) >= 0 implies
                        s[last_index_of(s, key)] == old_s[last_index_of(old_s, key)] by {
                        lemma_last_index_of_bounds(old_s, key);
                    }
                    assert(bindings_map(s) =~= bindings_map(old_s).insert(k@, v));
                }
            },
            None => {
                self.entries.push((k, v));
                proof {
                    let s = self.entries@;
                    assert(s.drop_last() =~= old_s);
                    assert forall|key: Seq<char>| key != k@ implies #[trigger] last_index_of(s, key) == last_index_of(old_s, key) by {
                    }
                    lemma_last_index_of_bounds(old_s, k@);
                    assert(bindings_map(s) =~= bindings_map(old_s).insert(k@, v)) by {
                        assert forall|key: Seq<char>| key != k@ && last_index_of(old_s, key) >= 0 implies
                            s[last_index_of(s, key)] == old_s[last_index_of(old_s, key)] by {
                            lemma_last_index_of_bounds(old_s, key);
                        }
                    }
                }
            },
        }
    }

    /// Puts `v` in place of the value of the binding at position `i` and
    /// hands back the value it replaces.
    pub fn replace_value_at(&mut self, i: usize, v: V) -> (prev: V)
        requires
            i < old(self).bindings().len(),
        ensures
            prev == old(self).bindings()[i as int].1,
            final(self).bindings() == old(self).bindings().update(i as int, (old(self).bindings()[i as int].0, v)),
            last_index_of(old(self).bindings(), old(self).bindings()[i as int].0@) == i
                ==> final(self)@ == old(self)@.insert(old(self).bindings()[i as int].0@, v),
            forall|key: Seq<char>| #[trigger] last_index_of(final(self).bindings(), key) == last_index_of(old(self).bindings(), key),
    {
        let ghost old_s = self.entries@;
        let (k, prev) = self.entries.remove(i);
        self.entries.insert(i, (k, v));
        proof {
            let s = self.entries@;
            assert(s =~= old_s.update(i as int, (old_s[i as int].0, v)));
            let kk = old_s[i as int].0@;
            assert forall|key: Seq<char>| #[trigger] last_index_of(s, key) == last_index_of(old_s, key) by {
                Self::lemma_same_keys(old_s, s, key);
            }
            if last_index_of(old_s, kk) == i {
                assert forall|key: Seq<char>| key != kk && last_index_of(old_s, key) >= 0 implies
                    s[last_index_of(s, key)] == old_s[last_index_of(old_s, key)] by {
                    lemma_last_index_of_bounds(old_s, key);
                }
                assert(bindings_map(s) =~= bindings_map(old_s).insert(kk, v));
            }
        }
        prev
    }

    /// A copy of the map, for values that are copied bit for bit.
    pub fn copy(&self) -> (r: Self)
        where V: Copy,
        ensures
            r.bindings() == self.bindings(),
            r@ == self@,
    {
        let mut entries: Vec<(String, V)> = Vec::new();
        let mut i: usize = 0;
        while i < self.entries.len()
            invariant
                i <= self.entries@.len(),
                entries@ == self.entries@.take(i as int),
            decreases self.entries@.len() - i,
        {
            let k = self.entries[i].0.clone();
            let v = self.entries[i].1;
            entries.push((k, v));
            assert(self.entries@.take(i + 1) =~= self.entries@.take(i as int).push(self.entries@[i as int]));
            i = i + 1;
        }
        assert(self.entries@.take(self.entries@.len() as int) =~= self.entries@);
        NameMap { entries }
    }

    proof fn lemma_same_keys(s1: Seq<(String, V)>, s2: Seq<(String, V)>, key: Seq<char>)
        requires
            s1.len() == s2.len(),
            forall|j: int| 0 <= j < s1.len() ==> #[trigger] s1[j].0@ == s2[j].0@,
        ensures
            last_index_of(s2, key) == last_index_of(s1, key),
        decreases s1.len(),
    {
        if s1.len() > 0 {
            assert forall|j: int| 0 <= j < s1.drop_last().len() implies #[trigger] s1.drop_last()[j].0@
                == s2.drop_last()[j].0@ by {
                assert(s1.drop_last()[j] == s1[j]);
                assert(s2.drop_last()[j] == s2[j]);
            }
            Self::lemma_same_keys(s1.drop_last(), s2.drop_last(), key);
        }
    }
}

impl NameMap<Type> {
    /// A copy of a map of types.
    pub fn copy_types(&self) -> (r: Self)
        ensures
            r.bindings().len() == self.bindings().len(),
            forall|i: int| 0 <= i < self.bindings().len() ==> (#[trigger] r.bindings()[i]).0 == self.bindings()[i].0
                && r.bindings()[i].1@ == self.bindings()[i].1@,
    {
        let mut entries: Vec<(String, Type)> = Vec::new();
        let mut i: usize = 0;
        while i < self.entries.len()
            invariant
                i <= self.entries@.len(),
                entries@.len() == i,
                forall|j: int| 0 <= j < i ==> (#[trigger] entries@[j]).0 == self.entries@[j].0
                    && entries@[j].1@ == self.entries@[j].1@,
            decreases self.entries@.len() - i,
        {
            let k = self.entries[i].0.clone();
            let v = self.entries[i].1.copy();
            entries.push((k, v));
            i = i + 1;
        }
        NameMap { entries }
    }
}

} // verus!
