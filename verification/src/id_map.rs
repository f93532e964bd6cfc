//! A map from textual identifiers to copyable values.
//!
//! The map is an association list whose keys are kept pairwise distinct; its
//! abstract value is a `Map` from the identifier's characters to the value.
use vstd::prelude::*;
use vstd::std_specs::cmp::PartialEqSpec;
use vstd::std_specs::cmp::PartialEqSpecImpl;

verus! {

/// The identifiers of `s`, in order.
pub open spec fn key_seq<V>(s: Seq<(String, V)>) -> Seq<Seq<char>> {
    s.map_values(|p: (String, V)| p.0@)
}

/// The map that an association list denotes.
pub open spec fn pairs_map<V>(s: Seq<(String, V)>) -> Map<Seq<char>, V> {
    Map::new(|k: Seq<char>| key_seq(s).contains(k), |k: Seq<char>| s[key_seq(s).index_of(k)].1)
}

/// Identifier-keyed map whose entries never share a key.
#[derive(Debug)]
pub struct IdMap<V> {
    entries: Vec<(String, V)>,
}

impl<V> View for IdMap<V> {
    type V = Map<Seq<char>, V>;

    closed spec fn view(&self) -> Map<Seq<char>, V> {
        pairs_map(self.entries@)
    }
}

proof fn lemma_value_at<V>(s: Seq<(String, V)>, i: int)
    requires
        key_seq(s).no_duplicates(),
        0 <= i < s.len(),
    ensures
        pairs_map(s).contains_key(s[i].0@),
        pairs_map(s)[s[i].0@] == s[i].1,
{
    assert(key_seq(s)[i] == s[i].0@);
    assert(key_seq(s).contains(s[i].0@));
    let j = key_seq(s).index_of(s[i].0@);
    assert(key_seq(s)[j] == s[i].0@);
}

proof fn lemma_absent<V>(s: Seq<(String, V)>, k: Seq<char>)
    requires
        forall|i: int| 0 <= i < s.len() ==> s[i].0@ != k,
    ensures
        !pairs_map(s).contains_key(k),
{
    if key_seq(s).contains(k) {
        let j = choose|j: int| 0 <= j < key_seq(s).len() && key_seq(s)[j] == k;
        assert(s[j].0@ == k);
    }
}

proof fn lemma_update<V>(s: Seq<(String, V)>, i: int, key: String, v: V)
    requires
        key_seq(s).no_duplicates(),
        0 <= i < s.len(),
        key@ == s[i].0@,
    ensures
        key_seq(s.update(i, (key, v))).no_duplicates(),
        pairs_map(s.update(i, (key, v))) == pairs_map(s).insert(key@, v),
{
    let t = s.update(i, (key, v));
    assert(key_seq(t) =~= key_seq(s));
    lemma_value_at(s, i);
    lemma_value_at(t, i);
    let m = pairs_map(s).insert(key@, v);
    assert forall|k: Seq<char>| #[trigger] pairs_map(t).contains_key(k) <==> m.contains_key(k) by {
    }
    assert forall|k: Seq<char>| pairs_map(t).contains_key(k) implies #[trigger] pairs_map(t)[k]
        == m[k] by {
        if k != key@ {
            let j = key_seq(t).index_of(k);
            lemma_value_at(t, j);
            lemma_value_at(s, j);
        }
    }
    assert(pairs_map(t) =~= m);
}

proof fn lemma_push<V>(s: Seq<(String, V)>, key: String, v: V)
    requires
        key_seq(s).no_duplicates(),
        !pairs_map(s).contains_key(key@),
    ensures
        key_seq(s.push((key, v))).no_duplicates(),
        pairs_map(s.push((key, v))) == pairs_map(s).insert(key@, v),
{
    let t = s.push((key, v));
    assert(key_seq(t) =~= key_seq(s).push(key@));
    assert forall|i: int| 0 <= i < s.len() implies s[i].0@ != key@ by {
        lemma_value_at(s, i);
    }
    let m = pairs_map(s).insert(key@, v);
    assert forall|k: Seq<char>| #[trigger] pairs_map(t).contains_key(k) <==> m.contains_key(k) by {
        if key_seq(t).contains(k) {
            let j = key_seq(t).index_of(k);
            if j < s.len() {
                lemma_value_at(s, j);
            }
        }
        if key_seq(s).contains(k) {
            let j = key_seq(s).index_of(k);
            assert(key_seq(t)[j] == k);
        }
        if k == key@ {
            assert(key_seq(t)[s.len() as int] == k);
        }
    }
    assert forall|k: Seq<char>| pairs_map(t).contains_key(k) implies #[trigger] pairs_map(t)[k]
        == m[k] by {
        let j = key_seq(t).index_of(k);
        lemma_value_at(t, j);
        if j < s.len() {
            lemma_value_at(s, j);
        }
    }
    assert(pairs_map(t) =~= m);
}

proof fn lemma_remove<V>(s: Seq<(String, V)>, i: int)
    requires
        key_seq(s).no_duplicates(),
        0 <= i < s.len(),
    ensures
        key_seq(s.remove(i)).no_duplicates(),
        pairs_map(s.remove(i)) == pairs_map(s).remove(s[i].0@),
{
    let t = s.remove(i);
    assert(key_seq(t) =~= key_seq(s).remove(i));
    let m = pairs_map(s).remove(s[i].0@);
    assert(key_seq(s)[i] == s[i].0@);
    assert forall|k: Seq<char>| #[trigger] pairs_map(t).contains_key(k) <==> m.contains_key(k) by {
        if key_seq(t).contains(k) {
            let j = key_seq(t).index_of(k);
            let j2 = if j < i { j } else { j + 1 };
            assert(key_seq(s)[j2] == k);
            lemma_value_at(s, j2);
            assert(k != s[i].0@);
        }
        if m.contains_key(k) {
            let j = key_seq(s).index_of(k);
            assert(key_seq(s)[j] == k);
            assert(j != i);
            if j < i {
                assert(key_seq(t)[j] == k);
            } else {
                assert(key_seq(t)[j - 1] == k);
            }
        }
    }
    assert forall|k: Seq<char>| pairs_map(t).contains_key(k) implies #[trigger] pairs_map(t)[k]
        == m[k] by {
        let j = key_seq(t).index_of(k);
        lemma_value_at(t, j);
        if j < i {
            lemma_value_at(s, j);
        } else {
            lemma_value_at(s, j + 1);
        }
    }
    assert(pairs_map(t) =~= m);
}

impl<V> IdMap<V> {
    #[verifier::type_invariant]
    spec fn keys_distinct(self) -> bool {
        key_seq(self.entries@).no_duplicates()
    }

    /// The values of the entries, in the order the entries are kept.
    pub closed spec fn value_seq(self) -> Seq<V> {
        self.entries@.map_values(|p: (String, V)| p.1)
    }

    /// The position of `k`'s entry in `value_seq`.
    pub closed spec fn slot(self, k: Seq<char>) -> int {
        key_seq(self.entries@).index_of(k)
    }

    /// An empty map.
    pub fn new() -> (m: Self)
        ensures
            m@ == Map::<Seq<char>, V>::empty(),
            m.value_seq().len() == 0,
    {
        let m = IdMap { entries: Vec::new() };
        assert(m@ =~= Map::<Seq<char>, V>::empty());
        m
    }

    /// The number of entries.
    pub fn len(&self) -> (n: usize)
        ensures
            self@.dom().finite(),
            n == self@.dom().len(),
            n == self.value_seq().len(),
    {
        proof {
            use_type_invariant(self);
            assert(self@.dom() =~= key_seq(self.entries@).to_set());
            key_seq(self.entries@).unique_seq_to_set();
        }
        self.entries.len()
    }

    /// The slot of `key`, when the map holds it.
    fn find(&self, key: &String) -> (r: Option<usize>)
        ensures
            match r {
                Some(i) => self@.contains_key(key@) && i == self.slot(key@) && i
                    < self.entries@.len() && self.entries@[i as int].0@ == key@,
                None => !self@.contains_key(key@),
            },
    {
        proof {
            use_type_invariant(self);
        }
        let n = self.entries.len();
        let mut i: usize = 0;
        while i < n
            invariant
                n == self.entries@.len(),
                i <= n,
                key_seq(self.entries@).no_duplicates(),
                forall|j: int| 0 <= j < i ==> self.entries@[j].0@ != key@,
            decreases n - i,
        {
            if self.entries[i].0 == *key {
                proof {
                    lemma_value_at(self.entries@, i as int);
                    assert(key_seq(self.entries@)[i as int] == key@);
                    let j = key_seq(self.entries@).index_of(key@);
                    assert(key_seq(self.entries@)[j] == key@);
                }
                return Some(i);
            }
            i = i + 1;
        }
        proof {
            lemma_absent(self.entries@, key@);
        }
        None
    }

    /// Whether `key` has an entry.
    pub fn contains_key(&self, key: &str) -> (b: bool)
        ensures
            b == self@.contains_key(key@),
    {
        let k = key.to_owned();
        self.find(&k).is_some()
    }

    /// Sets `key`'s value, adding the key when it is new.
    pub fn insert(&mut self, key: String, value: V)
        ensures
            final(self)@ == old(self)@.insert(key@, value),
            final(self).value_seq() == (if old(self)@.contains_key(key@) {
                old(self).value_seq().update(old(self).slot(key@), value)
            } else {
                old(self).value_seq().push(value)
            }),
            old(self)@.contains_key(key@) ==> final(self).slot(key@) == old(self).slot(key@)
                && 0 <= old(self).slot(key@) < old(self).value_seq().len()
                && old(self).value_seq()[old(self).slot(key@)] == old(self)@[key@],
            !old(self)@.contains_key(key@) ==> final(self).slot(key@) == old(self).value_seq().len(),
    {
        proof {
            use_type_invariant(&*self);
        }
        let found = self.find(&key);
        let mut entries: Vec<(String, V)> = Vec::new();
        std::mem::swap(&mut entries, &mut self.entries);
        let ghost s = entries@;
        match found {
            Some(i) => {
                proof {
                    lemma_update(s, i as int, key, value);
                }
                entries.set(i, (key, value));
                proof {
                    assert(entries@.map_values(|p: (String, V)| p.1) =~= s.map_values(
                        |p: (String, V)| p.1,
                    ).update(i as int, value));
                    assert(key_seq(entries@) =~= key_seq(s));
                }
            },
            None => {
                proof {
                    lemma_push(s, key, value);
                }
                entries.push((key, value));
                proof {
                    assert(entries@.map_values(|p: (String, V)| p.1) =~= s.map_values(
                        |p: (String, V)| p.1,
                    ).push(value));
                    let t = entries@;
                    assert(key_seq(t)[s.len() as int] == key@);
                    let j = key_seq(t).index_of(key@);
                    assert(key_seq(t)[j] == key@);
                }
            },
        }
        self.entries = entries;
    }

    /// Removes `key`'s entry, handing back its value.
    pub fn remove(&mut self, key: &String) -> (r: Option<V>)
        ensures
            final(self)@ == old(self)@.remove(key@),
            r == (if old(self)@.contains_key(key@) {
                Some(old(self)@[key@])
            } else {
                None
            }),
            old(self)@.contains_key(key@) ==> 0 <= old(self).slot(key@) < old(self).value_seq().len()
                && old(self).value_seq()[old(self).slot(key@)] == old(self)@[key@]
                && final(self).value_seq() == old(self).value_seq().remove(old(self).slot(key@)),
            !old(self)@.contains_key(key@) ==> final(self).value_seq() == old(self).value_seq(),
    {
        proof {
            use_type_invariant(&*self);
        }
        match self.find(key) {
            Some(i) => {
                let mut entries: Vec<(String, V)> = Vec::new();
                std::mem::swap(&mut entries, &mut self.entries);
                let ghost s = entries@;
                proof {
                    lemma_remove(s, i as int);
                    lemma_value_at(s, i as int);
                }
                let (_, v) = entries.remove(i);
                proof {
                    assert(entries@.map_values(|p: (String, V)| p.1) =~= s.map_values(
                        |p: (String, V)| p.1,
                    ).remove(i as int));
                }
                self.entries = entries;
                Some(v)
            },
            None => {
                proof {
                    assert(old(self)@.remove(key@) =~= old(self)@);
                }
                None
            },
        }
    }
}

impl<V: Copy> IdMap<V> {
    /// `key`'s value, when the map holds it.
    pub fn get_value(&self, key: &String) -> (r: Option<V>)
        ensures
            r == (if self@.contains_key(key@) {
                Some(self@[key@])
            } else {
                None
            }),
            self@.contains_key(key@) ==> 0 <= self.slot(key@) < self.value_seq().len()
                && self.value_seq()[self.slot(key@)] == self@[key@],
    {
        proof {
            use_type_invariant(self);
        }
        match self.find(key) {
            Some(i) => {
                proof {
                    lemma_value_at(self.entries@, i as int);
                }
                Some(self.entries[i].1)
            },
            None => None,
        }
    }

    /// `key`'s value, when the map holds it.
    pub fn get(&self, key: &str) -> (r: Option<V>)
        ensures
            r == (if self@.contains_key(key@) {
                Some(self@[key@])
            } else {
                None
            }),
    {
        let k = key.to_owned();
        self.get_value(&k)
    }

    /// The value in slot `i`.
    pub fn value_at(&self, i: usize) -> (v: V)
        requires
            i < self.value_seq().len(),
        ensures
            v == self.value_seq()[i as int],
    {
        self.entries[i].1
    }

    /// The key of slot `i`: one the map holds, with the value of that slot.
    pub fn key_at(&self, i: usize) -> (k: String)
        requires
            i < self.value_seq().len(),
        ensures
            self@.contains_key(k@),
            self.slot(k@) == i,
            self@[k@] == self.value_seq()[i as int],
    {
        proof {
            use_type_invariant(self);
            let s = self.entries@;
            lemma_value_at(s, i as int);
            assert(key_seq(s)[i as int] == s[i as int].0@);
            let j = key_seq(s).index_of(s[i as int].0@);
            assert(key_seq(s)[j] == s[i as int].0@);
        }
        self.entries[i].0.clone()
    }
}

impl<V: Copy> Clone for IdMap<V> {
    fn clone(&self) -> (c: Self)
        ensures
            c@ == self@,
            c.value_seq() == self.value_seq(),
            forall|k: Seq<char>| c.slot(k) == self.slot(k),
    {
        proof {
            use_type_invariant(self);
        }
        let n = self.entries.len();
        let mut entries: Vec<(String, V)> = Vec::new();
        let mut i: usize = 0;
        while i < n
            invariant
                n == self.entries@.len(),
                i <= n,
                entries@ =~= self.entries@.take(i as int),
            decreases n - i,
        {
            let key = self.entries[i].0.clone();
            entries.push((key, self.entries[i].1));
            i = i + 1;
        }
        proof {
            assert(entries@ =~= self.entries@);
        }
        IdMap { entries }
    }
}

impl<V: PartialEq> IdMap<V> {
    /// Every key of `self` is a key of `other` whose value `==` calls equal.
    pub open spec fn includes(&self, other: &Self) -> bool {
        forall|k: Seq<char>| #[trigger]
            self@.contains_key(k) ==> other@.contains_key(k) && self@[k].eq_spec(&other@[k])
    }

    fn includes_exec(&self, other: &Self) -> (r: bool)
        ensures
            <V as PartialEqSpec>::obeys_eq_spec() ==> r == self.includes(other),
    {
        proof {
            use_type_invariant(self);
        }
        let n = self.entries.len();
        let mut i: usize = 0;
        while i < n
            invariant
                n == self.entries@.len(),
                i <= n,
                key_seq(self.entries@).no_duplicates(),
                <V as PartialEqSpec>::obeys_eq_spec() ==> forall|j: int|
                    0 <= j < i ==> other@.contains_key(#[trigger] self.entries@[j].0@)
                        && self.entries@[j].1.eq_spec(&other@[self.entries@[j].0@]),
            decreases n - i,
        {
            match other.find(&self.entries[i].0) {
                Some(j) => {
                    proof {
                        use_type_invariant(other);
                        lemma_value_at(other.entries@, j as int);
                    }
                    if !(self.entries[i].1 == other.entries[j].1) {
                        proof {
                            lemma_value_at(self.entries@, i as int);
                            let k = self.entries@[i as int].0@;
                            assert(self@.contains_key(k));
                            assert(other.entries@[j as int].0@ == k);
                        }
                        return false;
                    }
                },
                None => {
                    proof {
                        lemma_value_at(self.entries@, i as int);
                        let k = self.entries@[i as int].0@;
                        assert(self@.contains_key(k));
                    }
                    return false;
                },
            }
            i = i + 1;
        }
        proof {
            if <V as PartialEqSpec>::obeys_eq_spec() {
                assert forall|k: Seq<char>| #[trigger]
                    self@.contains_key(k) implies other@.contains_key(k) && self@[k].eq_spec(
                        &other@[k],
                    ) by {
                    let j = key_seq(self.entries@).index_of(k);
                    lemma_value_at(self.entries@, j);
                    assert(self.entries@[j].0@ == k);
                }
            }
        }
        true
    }
}

impl<V: PartialEq> PartialEq for IdMap<V> {
    fn eq(&self, other: &Self) -> (r: bool) {
        self.includes_exec(other) && other.includes_exec(self)
    }
}

impl<V: Eq> Eq for IdMap<V> {

}

impl<V: PartialEq> PartialEqSpecImpl for IdMap<V> {
    open spec fn obeys_eq_spec() -> bool {
        <V as PartialEqSpec>::obeys_eq_spec()
    }

    open spec fn eq_spec(&self, other: &Self) -> bool {
        self.includes(other) && other.includes(self)
    }
}

} // verus!
