//! A small map from strings to values, kept as a list of entries with
//! distinct keys, viewed as a `Map<Seq<char>, V>`.

use vstd::prelude::*;

verus! {

/// The map that a list of entries with distinct keys denotes.
pub open spec fn entries_map<V>(s: Seq<(String, V)>) -> Map<Seq<char>, V>
    decreases s.len(),
{
    if s.len() == 0 {
        Map::empty()
    } else {
        entries_map(s.drop_last()).insert(s.last().0@, s.last().1)
    }
}

/// No two entries share a key.
pub open spec fn keys_distinct<V>(s: Seq<(String, V)>) -> bool {
    forall|i: int, j: int| 0 <= i < s.len() && 0 <= j < s.len() && i != j ==> #[trigger] s[i].0@
        != #[trigger] s[j].0@
}

/// The keys of a list of entries, in order.
pub open spec fn entry_keys<V>(s: Seq<(String, V)>) -> Seq<Seq<char>> {
    s.map_values(|e: (String, V)| e.0@)
}

pub proof fn lemma_entries_map_dom<V>(s: Seq<(String, V)>, k: Seq<char>)
    ensures
        entries_map(s).contains_key(k) <==> exists|i: int| 0 <= i < s.len() && #[trigger] s[i].0@ == k,
    decreases s.len(),
{
    if s.len() > 0 {
        lemma_entries_map_dom(s.drop_last(), k);
        if entries_map(s.drop_last()).contains_key(k) {
            let i = choose|i: int| 0 <= i < s.drop_last().len() && #[trigger] s.drop_last()[i].0@ == k;
            assert(s[i].0@ == k);
        }
        if exists|i: int| 0 <= i < s.len() && #[trigger] s[i].0@ == k {
            let i = choose|i: int| 0 <= i < s.len() && #[trigger] s[i].0@ == k;
            if i < s.len() - 1 {
                assert(s.drop_last()[i].0@ == k);
            }
        }
    }
}

pub proof fn lemma_entries_map_value<V>(s: Seq<(String, V)>, i: int)
    requires
        keys_distinct(s),
        0 <= i < s.len(),
    ensures
        entries_map(s).contains_key(s[i].0@),
        entries_map(s)[s[i].0@] == s[i].1,
    decreases s.len(),
{
    lemma_entries_map_dom(s, s[i].0@);
    if i < s.len() - 1 {
        let t = s.drop_last();
        assert(keys_distinct(t)) by {
            assert forall|a: int, b: int|
                0 <= a < t.len() && 0 <= b < t.len() && a != b implies #[trigger] t[a].0@
                != #[trigger] t[b].0@ by {
                assert(t[a] == s[a] && t[b] == s[b]);
            }
        }
        assert(t[i] == s[i]);
        lemma_entries_map_value(t, i);
        assert(s.last().0@ != s[i].0@);
    }
}

/// The keys in entry order are distinct and are exactly the domain.
pub proof fn lemma_entry_keys<V>(s: Seq<(String, V)>)
requires
    keys_distinct(s),
ensures
    entry_keys(s).no_duplicates(),
    entry_keys(s).len() == entries_map(s).len(),
    forall|k: Seq<char>| entry_keys(s).contains(k) <==> entries_map(s).contains_key(k),
    entries_map(s).dom().finite(),
{
    let ks = entry_keys(s);
    assert forall|i: int, j: int| 0 <= i < ks.len() && 0 <= j < ks.len() && i != j implies ks[i]
        != ks[j] by {
        assert(ks[i] == s[i].0@ && ks[j] == s[j].0@);
    }
    assert forall|k: Seq<char>| ks.contains(k) <==> entries_map(s).contains_key(k) by {
        lemma_entries_map_dom(s, k);
        if ks.contains(k) {
            let i = choose|i: int| 0 <= i < ks.len() && ks[i] == k;
            assert(s[i].0@ == k);
        }
        if entries_map(s).contains_key(k) {
            let i = choose|i: int| 0 <= i < s.len() && #[trigger] s[i].0@ == k;
            assert(ks[i] == k);
        }
    }
    assert(entries_map(s).dom() =~= ks.to_set());
    ks.unique_seq_to_set();
}


/// Replacing the value of entry `i` (same key) keeps the keys distinct and
/// in order, and updates the map at that key.
proof fn lemma_entry_update<V>(s: Seq<(String, V)>, i: int, k: String, v: V)
    requires
        keys_distinct(s),
        0 <= i < s.len(),
        s[i].0@ == k@,
    ensures
        keys_distinct(s.update(i, (k, v))),
        entries_map(s.update(i, (k, v))) == entries_map(s).insert(k@, v),
        entry_keys(s.update(i, (k, v))) == entry_keys(s),
{
    let t = s.update(i, (k, v));
    assert(s[i].0@ == k@);
    lemma_entries_map_value(s, i);
    assert(keys_distinct(t)) by {
        assert forall|a: int, b: int|
            0 <= a < t.len() && 0 <= b < t.len() && a != b implies #[trigger] t[a].0@
            != #[trigger] t[b].0@ by {
            if a != i && b != i {
                assert(t[a] == s[a] && t[b] == s[b]);
            } else if a == i {
                assert(t[b] == s[b]);
            } else {
                assert(t[a] == s[a]);
            }
        }
    }
    let m = entries_map(s).insert(k@, v);
    lemma_entries_map_value(t, i);
    assert forall|kk: Seq<char>| #[trigger] m.contains_key(kk) <==> entries_map(
        t,
    ).contains_key(kk) by {
        lemma_entries_map_dom(s, kk);
        lemma_entries_map_dom(t, kk);
        if exists|j: int| 0 <= j < s.len() && #[trigger] s[j].0@ == kk {
            let j = choose|j: int| 0 <= j < s.len() && #[trigger] s[j].0@ == kk;
            if j != i {
                assert(t[j] == s[j]);
            } else {
                assert(t[j].0@ == kk);
            }
        }
        if exists|j: int| 0 <= j < t.len() && #[trigger] t[j].0@ == kk {
            let j = choose|j: int| 0 <= j < t.len() && #[trigger] t[j].0@ == kk;
            if j != i {
                assert(s[j] == t[j]);
            }
        }
    }
    assert forall|kk: Seq<char>| #[trigger] m.contains_key(kk) implies m[kk]
        == entries_map(t)[kk] by {
        if kk != k@ {
            lemma_entries_map_dom(s, kk);
            let j = choose|j: int| 0 <= j < s.len() && #[trigger] s[j].0@ == kk;
            assert(j != i);
            assert(t[j] == s[j]);
            lemma_entries_map_value(s, j);
            lemma_entries_map_value(t, j);
        }
    }
    assert(m =~= entries_map(t));
    assert(entry_keys(t) =~= entry_keys(s));
}

/// A map from strings to values; each key appears in at most one entry,
/// and entries keep the order in which their keys were first inserted.
#[derive(Debug)]
pub struct StrMap<V> {
    entries: Vec<(String, V)>,
}

impl<V> View for StrMap<V> {
    type V = Map<Seq<char>, V>;

    closed spec fn view(&self) -> Map<Seq<char>, V> {
        entries_map(self.entries@)
    }
}

impl<V> StrMap<V> {
    #[verifier::type_invariant]
    closed spec fn inv(self) -> bool {
        keys_distinct(self.entries@)
    }

    /// The keys in entry order.
    pub closed spec fn key_order(&self) -> Seq<Seq<char>> {
        entry_keys(self.entries@)
    }

    pub fn new() -> (m: Self)
        ensures
            m@ == Map::<Seq<char>, V>::empty(),
            m.key_order() == Seq::<Seq<char>>::empty(),
    {
        let m = StrMap { entries: Vec::new() };
        assert(entries_map(m.entries@) =~= Map::<Seq<char>, V>::empty());
        assert(entry_keys(m.entries@) =~= Seq::<Seq<char>>::empty());
        m
    }

    /// The number of keys.
    pub fn len(&self) -> (n: usize)
        ensures
            n == self@.len(),
            n == self.key_order().len(),
            self.key_order().no_duplicates(),
            forall|k: Seq<char>| self.key_order().contains(k) <==> self@.contains_key(k),
            self@.dom().finite(),
    {
        proof {
            use_type_invariant(self);
            lemma_entry_keys(self.entries@);
        }
        self.entries.len()
    }

    /// The position of `k` in entry order, if present.
    pub fn index_of(&self, k: &str) -> (r: Option<usize>)
        ensures
            match r {
                Some(i) => i < self.key_order().len() && self.key_order()[i as int] == k@,
                None => !self@.contains_key(k@),
            },
    {
        proof {
            use_type_invariant(self);
            lemma_entries_map_dom(self.entries@, k@);
        }
        let key = k.to_owned();
        let mut i: usize = 0;
        while i < self.entries.len()
            invariant
                key@ == k@,
                i <= self.entries@.len(),
                forall|j: int| 0 <= j < i ==> #[trigger] self.entries@[j].0@ != k@,
            decreases self.entries@.len() - i,
        {
            if self.entries[i].0 == key {
                return Some(i);
            }
            i = i + 1;
        }
        None
    }

    /// Whether `k` is a key.
    pub fn contains_key(&self, k: &str) -> (b: bool)
        ensures
            b == self@.contains_key(k@),
    {
        proof {
            use_type_invariant(self);
        }
        match self.index_of(k) {
            Some(i) => {
                proof {
                    lemma_entries_map_value(self.entries@, i as int);
                }
                true
            },
            None => false,
        }
    }

    /// The value stored under `k`.
    pub fn get(&self, k: &str) -> (r: Option<&V>)
        ensures
            match r {
                Some(v) => self@.contains_key(k@) && *v == self@[k@],
                None => !self@.contains_key(k@),
            },
    {
        proof {
            use_type_invariant(self);
        }
        match self.index_of(k) {
            Some(i) => {
                proof {
                    lemma_entries_map_value(self.entries@, i as int);
                }
                Some(&self.entries[i].1)
            },
            None => None,
        }
    }

    /// The key at position `i` of entry order.
    pub fn key_at(&self, i: usize) -> (k: &String)
        requires
            i < self.key_order().len(),
        ensures
            k@ == self.key_order()[i as int],
            self@.contains_key(k@),
    {
        proof {
            use_type_invariant(self);
            lemma_entries_map_value(self.entries@, i as int);
        }
        &self.entries[i].0
    }

    /// The value at position `i` of entry order.
    pub fn value_at(&self, i: usize) -> (v: &V)
        requires
            i < self.key_order().len(),
        ensures
            *v == self@[self.key_order()[i as int]],
    {
        proof {
            use_type_invariant(self);
            lemma_entries_map_value(self.entries@, i as int);
        }
        &self.entries[i].1
    }

    /// Sets the value under `k`: an existing key keeps its position, a new
    /// key goes last.
    pub fn insert(&mut self, k: String, v: V)
        ensures
            final(self)@ == old(self)@.insert(k@, v),
            old(self)@.contains_key(k@) ==> final(self).key_order() == old(self).key_order(),
            !old(self)@.contains_key(k@) ==> final(self).key_order() == old(self).key_order().push(
                k@,
            ),
    {
        proof {
            use_type_invariant(&*self);
        }
        let ghost s = self.entries@;
        match self.index_of(k.as_str()) {
            Some(i) => {
                proof {
                    lemma_entry_update(s, i as int, k, v);
                    lemma_entries_map_value(s, i as int);
                }
                let mut entries: Vec<(String, V)> = Vec::new();
                std::mem::swap(&mut entries, &mut self.entries);
                entries.set(i, (k, v));
                self.entries = entries;
            },
            None => {
                let ghost t = s.push((k, v));
                proof {
                    lemma_entries_map_dom(s, k@);
                    assert(keys_distinct(t)) by {
                        assert forall|a: int, b: int|
                            0 <= a < t.len() && 0 <= b < t.len() && a != b implies #[trigger] t[a].0@
                            != #[trigger] t[b].0@ by {
                            if a < s.len() && b < s.len() {
                                assert(t[a] == s[a] && t[b] == s[b]);
                            } else if a < s.len() {
                                assert(t[a] == s[a]);
                            } else {
                                assert(t[b] == s[b]);
                            }
                        }
                    }
                    assert(t.drop_last() =~= s);
                    assert(entry_keys(t) =~= entry_keys(s).push(k@));
                }
                let mut entries: Vec<(String, V)> = Vec::new();
                std::mem::swap(&mut entries, &mut self.entries);
                entries.push((k, v));
                self.entries = entries;
            },
        }
    }

    /// Removes `k` and hands back its value; the other keys keep their
    /// relative order.
    pub fn remove(&mut self, k: &str) -> (r: Option<V>)
        ensures
            final(self)@ == old(self)@.remove(k@),
            match r {
                Some(v) => old(self)@.contains_key(k@) && v == old(self)@[k@],
                None => !old(self)@.contains_key(k@),
            },
            forall|kk: Seq<char>| #[trigger] final(self).key_order().contains(kk) <==> (old(
                self,
            ).key_order().contains(kk) && kk != k@),
    {
        proof {
            use_type_invariant(&*self);
        }
        let ghost s = self.entries@;
        match self.index_of(k) {
            Some(i) => {
                let ghost t = s.remove(i as int);
                proof {
                    lemma_entries_map_value(s, i as int);
                    assert(keys_distinct(t)) by {
                        assert forall|a: int, b: int|
                            0 <= a < t.len() && 0 <= b < t.len() && a != b implies #[trigger] t[a].0@
                            != #[trigger] t[b].0@ by {
                            let a2 = if a < i {
                                a
                            } else {
                                a + 1
                            };
                            let b2 = if b < i {
                                b
                            } else {
                                b + 1
                            };
                            assert(t[a] == s[a2] && t[b] == s[b2]);
                        }
                    }
                    let m = entries_map(s).remove(k@);
                    assert forall|kk: Seq<char>| #[trigger] m.contains_key(kk) <==> entries_map(
                        t,
                    ).contains_key(kk) by {
                        lemma_entries_map_dom(s, kk);
                        lemma_entries_map_dom(t, kk);
                        if exists|j: int| 0 <= j < s.len() && #[trigger] s[j].0@ == kk {
                            let j = choose|j: int| 0 <= j < s.len() && #[trigger] s[j].0@ == kk;
                            if j < i {
                                assert(t[j] == s[j]);
                            } else if j > i {
                                assert(t[j - 1] == s[j]);
                            }
                        }
                        if exists|j: int| 0 <= j < t.len() && #[trigger] t[j].0@ == kk {
                            let j = choose|j: int| 0 <= j < t.len() && #[trigger] t[j].0@ == kk;
                            if j < i {
                                assert(t[j] == s[j]);
                            } else {
                                assert(t[j] == s[j + 1]);
                            }
                        }
                    }
                    assert forall|kk: Seq<char>| #[trigger] m.contains_key(kk) implies m[kk]
                        == entries_map(t)[kk] by {
                        lemma_entries_map_dom(s, kk);
                        let j = choose|j: int| 0 <= j < s.len() && #[trigger] s[j].0@ == kk;
                        assert(j != i);
                        lemma_entries_map_value(s, j);
                        if j < i {
                            assert(t[j] == s[j]);
                            lemma_entries_map_value(t, j);
                        } else {
                            assert(t[j - 1] == s[j]);
                            lemma_entries_map_value(t, j - 1);
                        }
                    }
                    assert(m =~= entries_map(t));
                    let ko = entry_keys(s);
                    let kn = entry_keys(t);
                    assert forall|kk: Seq<char>| #[trigger] kn.contains(kk) <==> (ko.contains(kk)
                        && kk != k@) by {
                        if kn.contains(kk) {
                            let j = choose|j: int| 0 <= j < kn.len() && kn[j] == kk;
                            if j < i {
                                assert(t[j] == s[j]);
                                assert(ko[j] == kk);
                            } else {
                                assert(t[j] == s[j + 1]);
                                assert(ko[j + 1] == kk);
                            }
                        }
                        if ko.contains(kk) && kk != k@ {
                            let j = choose|j: int| 0 <= j < ko.len() && ko[j] == kk;
                            if j < i {
                                assert(t[j] == s[j]);
                                assert(kn[j] == kk);
                            } else {
                                assert(j != i);
                                assert(t[j - 1] == s[j]);
                                assert(kn[j - 1] == kk);
                            }
                        }
                    }
                }
                let mut entries: Vec<(String, V)> = Vec::new();
                std::mem::swap(&mut entries, &mut self.entries);
                let (_, v) = entries.remove(i);
                self.entries = entries;
                Some(v)
            },
            None => {
                proof {
                    assert(entries_map(s).remove(k@) =~= entries_map(s));
                    assert forall|kk: Seq<char>| #[trigger] entry_keys(s).contains(kk) implies kk
                        != k@ by {
                        let j = choose|j: int| 0 <= j < entry_keys(s).len() && entry_keys(s)[j] == kk;
                        lemma_entries_map_dom(s, kk);
                        assert(s[j].0@ == kk);
                    }
                }
                None
            },
        }
    }

    /// Puts `v` under the key of entry `i` and hands back the value it
    /// replaces; the keys and their order stay as they are.
    pub fn replace_value_at(&mut self, i: usize, v: V) -> (old_v: V)
        requires
            i < old(self).key_order().len(),
        ensures
            old_v == old(self)@[old(self).key_order()[i as int]],
            final(self)@ == old(self)@.insert(old(self).key_order()[i as int], v),
            final(self).key_order() == old(self).key_order(),
    {
        proof {
            use_type_invariant(&*self);
            lemma_entries_map_value(self.entries@, i as int);
        }
        let ghost s = self.entries@;
        let mut entries: Vec<(String, V)> = Vec::new();
        std::mem::swap(&mut entries, &mut self.entries);
        let (k, old_v) = entries.remove(i);
        proof {
            lemma_entry_update(s, i as int, k, v);
            assert(entries@.insert(i as int, (k, v)) =~= s.update(i as int, (k, v)));
        }
        entries.insert(i, (k, v));
        self.entries = entries;
        old_v
    }

    /// Removes the oldest entry and hands it back.
    pub fn remove_first(&mut self) -> (r: Option<(String, V)>)
        ensures
            old(self).key_order().len() == 0 ==> r is None && final(self)@ == old(self)@
                && final(self).key_order() == old(self).key_order(),
            old(self).key_order().len() > 0 ==> (r matches Some(p) && p.0@ == old(self).key_order()[0]
                && p.1 == old(self)@[p.0@] && final(self)@ == old(self)@.remove(p.0@)
                && final(self).key_order() == old(self).key_order().drop_first()),
    {
        proof {
            use_type_invariant(&*self);
        }
        let ghost s = self.entries@;
        if self.entries.len() == 0 {
            return None;
        }
        let ghost t = s.remove(0);
        proof {
            lemma_entries_map_value(s, 0);
            assert(keys_distinct(t)) by {
                assert forall|a: int, b: int|
                    0 <= a < t.len() && 0 <= b < t.len() && a != b implies #[trigger] t[a].0@
                    != #[trigger] t[b].0@ by {
                    assert(t[a] == s[a + 1] && t[b] == s[b + 1]);
                }
            }
            let k = s[0].0@;
            let m = entries_map(s).remove(k);
            assert forall|kk: Seq<char>| #[trigger] m.contains_key(kk) <==> entries_map(t).contains_key(
                kk,
            ) by {
                lemma_entries_map_dom(s, kk);
                lemma_entries_map_dom(t, kk);
                if exists|j: int| 0 <= j < s.len() && #[trigger] s[j].0@ == kk {
                    let j = choose|j: int| 0 <= j < s.len() && #[trigger] s[j].0@ == kk;
                    if j > 0 {
                        assert(t[j - 1] == s[j]);
                    }
                }
                if exists|j: int| 0 <= j < t.len() && #[trigger] t[j].0@ == kk {
                    let j = choose|j: int| 0 <= j < t.len() && #[trigger] t[j].0@ == kk;
                    assert(t[j] == s[j + 1]);
                }
            }
            assert forall|kk: Seq<char>| #[trigger] m.contains_key(kk) implies m[kk] == entries_map(
                t,
            )[kk] by {
                lemma_entries_map_dom(s, kk);
                let j = choose|j: int| 0 <= j < s.len() && #[trigger] s[j].0@ == kk;
                assert(j != 0);
                lemma_entries_map_value(s, j);
                assert(t[j - 1] == s[j]);
                lemma_entries_map_value(t, j - 1);
            }
            assert(m =~= entries_map(t));
            assert(entry_keys(t) =~= entry_keys(s).drop_first());
        }
        let mut entries: Vec<(String, V)> = Vec::new();
        std::mem::swap(&mut entries, &mut self.entries);
        let first = entries.remove(0);
        self.entries = entries;
        Some(first)
    }

    /// The keys in entry order.
    pub fn keys(&self) -> (ks: Vec<String>)
        ensures
            ks@.len() == self.key_order().len(),
            self.key_order().no_duplicates(),
            forall|k: Seq<char>| self.key_order().contains(k) <==> self@.contains_key(k),
            forall|i: int| 0 <= i < ks@.len() ==> #[trigger] ks@[i]@ == self.key_order()[i],
    {
        proof {
            use_type_invariant(self);
            lemma_entry_keys(self.entries@);
        }
        let mut ks: Vec<String> = Vec::new();
        let mut i: usize = 0;
        while i < self.entries.len()
            invariant
                i <= self.entries@.len(),
                ks@.len() == i,
                forall|j: int| 0 <= j < i ==> #[trigger] ks@[j]@ == self.key_order()[j],
            decreases self.entries@.len() - i,
        {
            ks.push(self.entries[i].0.clone());
            i = i + 1;
        }
        ks
    }
}

} // verus!
