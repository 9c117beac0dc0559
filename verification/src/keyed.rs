//! An insertion-ordered map keyed by text, the collection behind every lookup table of the
//! interface (selected assets, expanded accounts, loaded account data).
use vstd::prelude::*;

verus! {

/// A value that is found again by its text.
pub trait TextKey: Sized {
    spec fn text(&self) -> Seq<char>;

    fn same_text(&self, other: &Self) -> (r: bool)
        ensures
            r == (self.text() == other.text()),
    ;

    fn duplicate(&self) -> (r: Self)
        ensures
            r.text() == self.text(),
    ;
}

impl TextKey for String {
    open spec fn text(&self) -> Seq<char> {
        self@
    }

    fn same_text(&self, other: &Self) -> (r: bool) {
        *self == *other
    }

    fn duplicate(&self) -> (r: Self) {
        self.clone()
    }
}

/// No two entries share a key.
pub open spec fn keys_unique<K: TextKey, V>(s: Seq<(K, V)>) -> bool {
    forall|i: int, j: int|
        0 <= i < s.len() && 0 <= j < s.len() && i != j ==> #[trigger] s[i].0.text()
            != #[trigger] s[j].0.text()
}

pub open spec fn key_at<K: TextKey, V>(s: Seq<(K, V)>, k: Seq<char>, i: int) -> bool {
    0 <= i < s.len() && s[i].0.text() == k
}

/// The map that a sequence of entries stands for.
pub open spec fn entries_map<K: TextKey, V>(s: Seq<(K, V)>) -> Map<Seq<char>, V> {
    Map::new(
        |k: Seq<char>| exists|i: int| key_at(s, k, i),
        |k: Seq<char>| s[choose|i: int| key_at(s, k, i)].1,
    )
}

/// The entry at an index is what the map gives back for its key.
pub proof fn lemma_entry_in_map<K: TextKey, V>(s: Seq<(K, V)>, i: int)
    requires
        keys_unique(s),
        0 <= i < s.len(),
    ensures
        entries_map(s).contains_key(s[i].0.text()),
        entries_map(s)[s[i].0.text()] == s[i].1,
{
    let k = s[i].0.text();
    assert(key_at(s, k, i));
    let j = choose|j: int| key_at(s, k, j);
    assert(j == i);
}

/// Appending an entry with a new key inserts that key into the map.
pub proof fn lemma_push<K: TextKey, V>(s: Seq<(K, V)>, k: K, v: V)
    requires
        keys_unique(s),
        !entries_map(s).contains_key(k.text()),
    ensures
        keys_unique(s.push((k, v))),
        entries_map(s.push((k, v))) == entries_map(s).insert(k.text(), v),
{
    let t = s.push((k, v));
    assert forall|i: int, j: int|
        0 <= i < t.len() && 0 <= j < t.len() && i != j implies #[trigger] t[i].0.text()
        != #[trigger] t[j].0.text() by {
        if i == s.len() {
            assert(!key_at(s, k.text(), j));
        } else if j == s.len() {
            assert(!key_at(s, k.text(), i));
        }
    }
    assert forall|q: Seq<char>| #[trigger] entries_map(t).contains_key(q)
        <==> entries_map(s).insert(k.text(), v).contains_key(q) by {
        if entries_map(s).contains_key(q) {
            let i = choose|i: int| key_at(s, q, i);
            assert(key_at(t, q, i));
        }
        if q == k.text() {
            assert(key_at(t, q, s.len() as int));
        }
        if entries_map(t).contains_key(q) {
            let i = choose|i: int| key_at(t, q, i);
            if i < s.len() {
                assert(key_at(s, q, i));
            }
        }
    }
    assert forall|q: Seq<char>| #[trigger] entries_map(t).contains_key(q) implies entries_map(
        t,
    )[q] == entries_map(s).insert(k.text(), v)[q] by {
        let i = choose|i: int| key_at(t, q, i);
        lemma_entry_in_map(t, i);
        if i < s.len() {
            assert(t[i] == s[i]);
            lemma_entry_in_map(s, i);
        }
    }
    assert(entries_map(t) =~= entries_map(s).insert(k.text(), v));
}

/// Removing the entry at an index removes its key from the map.
pub proof fn lemma_remove<K: TextKey, V>(s: Seq<(K, V)>, i: int)
    requires
        keys_unique(s),
        0 <= i < s.len(),
    ensures
        keys_unique(s.remove(i)),
        entries_map(s.remove(i)) == entries_map(s).remove(s[i].0.text()),
{
    let t = s.remove(i);
    let k = s[i].0.text();
    assert forall|a: int, b: int|
        0 <= a < t.len() && 0 <= b < t.len() && a != b implies #[trigger] t[a].0.text()
        != #[trigger] t[b].0.text() by {
        let a2 = if a < i { a } else { a + 1 };
        let b2 = if b < i { b } else { b + 1 };
        assert(t[a] == s[a2]);
        assert(t[b] == s[b2]);
    }
    assert forall|q: Seq<char>| #[trigger] entries_map(t).contains_key(q)
        <==> entries_map(s).remove(k).contains_key(q) by {
        if entries_map(t).contains_key(q) {
            let a = choose|a: int| key_at(t, q, a);
            let a2 = if a < i { a } else { a + 1 };
            assert(t[a] == s[a2]);
            assert(key_at(s, q, a2));
        }
        if entries_map(s).remove(k).contains_key(q) {
            let a = choose|a: int| key_at(s, q, a);
            assert(a != i);
            let a2 = if a < i { a } else { a - 1 };
            assert(t[a2] == s[a]);
            assert(key_at(t, q, a2));
        }
    }
    assert forall|q: Seq<char>| #[trigger] entries_map(t).contains_key(q) implies entries_map(
        t,
    )[q] == entries_map(s).remove(k)[q] by {
        let a = choose|a: int| key_at(t, q, a);
        lemma_entry_in_map(t, a);
        let a2 = if a < i { a } else { a + 1 };
        assert(t[a] == s[a2]);
        lemma_entry_in_map(s, a2);
    }
    assert(entries_map(t) =~= entries_map(s).remove(k));
}

/// Replacing the entry at an index by one with the same key replaces the key's value.
pub proof fn lemma_update<K: TextKey, V>(s: Seq<(K, V)>, i: int, k: K, v: V)
    requires
        keys_unique(s),
        0 <= i < s.len(),
        k.text() == s[i].0.text(),
    ensures
        keys_unique(s.update(i, (k, v))),
        entries_map(s.update(i, (k, v))) == entries_map(s).insert(k.text(), v),
{
    let t = s.update(i, (k, v));
    assert forall|a: int, b: int|
        0 <= a < t.len() && 0 <= b < t.len() && a != b implies #[trigger] t[a].0.text()
        != #[trigger] t[b].0.text() by {
        assert(t[a].0.text() == s[a].0.text());
        assert(t[b].0.text() == s[b].0.text());
    }
    assert forall|q: Seq<char>| #[trigger] entries_map(t).contains_key(q)
        <==> entries_map(s).insert(k.text(), v).contains_key(q) by {
        if entries_map(t).contains_key(q) {
            let a = choose|a: int| key_at(t, q, a);
            assert(key_at(s, q, a));
        }
        if entries_map(s).contains_key(q) {
            let a = choose|a: int| key_at(s, q, a);
            assert(key_at(t, q, a));
        }
        if q == k.text() {
            assert(key_at(t, q, i));
        }
    }
    assert forall|q: Seq<char>| #[trigger] entries_map(t).contains_key(q) implies entries_map(
        t,
    )[q] == entries_map(s).insert(k.text(), v)[q] by {
        let a = choose|a: int| key_at(t, q, a);
        lemma_entry_in_map(t, a);
        if a != i {
            lemma_entry_in_map(s, a);
        }
    }
    assert(entries_map(t) =~= entries_map(s).insert(k.text(), v));
}

/// Two entry sequences with the same keys in the same order stand for maps with the same
/// keys, and each map gives back the value stored at the key's index.
pub proof fn lemma_same_keys<K: TextKey, V, W>(s: Seq<(K, V)>, t: Seq<(K, W)>)
    requires
        keys_unique(s),
        s.len() == t.len(),
        forall|j: int| 0 <= j < s.len() ==> #[trigger] s[j].0.text() == t[j].0.text(),
    ensures
        keys_unique(t),
        entries_map(t).dom() == entries_map(s).dom(),
        forall|j: int|
            0 <= j < t.len() ==> #[trigger] entries_map(t)[t[j].0.text()] == t[j].1
                && entries_map(s)[t[j].0.text()] == s[j].1,
        forall|k: Seq<char>|
            #[trigger] entries_map(t).contains_key(k) ==> exists|j: int|
                0 <= j < t.len() && t[j].0.text() == k,
{
    assert forall|a: int, b: int|
        0 <= a < t.len() && 0 <= b < t.len() && a != b implies #[trigger] t[a].0.text()
        != #[trigger] t[b].0.text() by {
        assert(s[a].0.text() == t[a].0.text());
        assert(s[b].0.text() == t[b].0.text());
    }
    assert forall|k: Seq<char>| #[trigger] entries_map(t).contains_key(k) <==> entries_map(
        s,
    ).contains_key(k) by {
        if entries_map(t).contains_key(k) {
            let j = choose|j: int| key_at(t, k, j);
            assert(key_at(s, k, j));
        }
        if entries_map(s).contains_key(k) {
            let j = choose|j: int| key_at(s, k, j);
            assert(key_at(t, k, j));
        }
    }
    assert(entries_map(t).dom() =~= entries_map(s).dom());
    assert forall|j: int| 0 <= j < t.len() implies #[trigger] entries_map(t)[t[j].0.text()]
        == t[j].1 && entries_map(s)[t[j].0.text()] == s[j].1 by {
        lemma_entry_in_map(t, j);
        lemma_entry_in_map(s, j);
    }
    assert forall|k: Seq<char>| #[trigger] entries_map(t).contains_key(k) implies exists|j: int|
        0 <= j < t.len() && t[j].0.text() == k by {
        let j = choose|j: int| key_at(t, k, j);
        assert(key_at(t, k, j));
    }
}

pub struct KeyedList<K: TextKey, V> {
    entries: Vec<(K, V)>,
}

impl<K: TextKey, V> KeyedList<K, V> {
    #[verifier::type_invariant]
    spec fn unique(self) -> bool {
        keys_unique(self.entries@)
    }

    /// The entries in the order they were first inserted.
    pub closed spec fn entries(self) -> Seq<(K, V)> {
        self.entries@
    }

    pub open spec fn view(self) -> Map<Seq<char>, V> {
        entries_map(self.entries())
    }

    pub fn new() -> (r: Self)
        ensures
            r.view() == Map::<Seq<char>, V>::empty(),
            r.entries().len() == 0,
    {
        let r = KeyedList { entries: Vec::new() };
        assert(r.view() =~= Map::<Seq<char>, V>::empty());
        r
    }

    /// States that no two entries share a key.
    pub fn check_keys_unique(&self)
        ensures
            keys_unique(self.entries()),
    {
        proof {
            use_type_invariant(self);
        }
    }

    pub fn len(&self) -> (r: usize)
        ensures
            r == self.entries().len(),
    {
        self.entries.len()
    }

    pub fn is_empty(&self) -> (r: bool)
        ensures
            r == (self.view() == Map::<Seq<char>, V>::empty()),
            r == (self.entries().len() == 0),
    {
        proof {
            use_type_invariant(self);
            if self.entries@.len() == 0 {
                assert(self.view() =~= Map::<Seq<char>, V>::empty());
            } else {
                lemma_entry_in_map(self.entries@, 0);
            }
        }
        self.entries.len() == 0
    }

    /// Where the entry with the given key stands, if there is one.
    pub fn index_of(&self, k: &K) -> (r: Option<usize>)
        ensures
            self.view().contains_key(k.text()) == (r is Some),
            r matches Some(i) ==> i < self.entries().len() && self.entries()[i as int].0.text()
                == k.text(),
    {
        let mut i: usize = 0;
        while i < self.entries.len()
            invariant
                i <= self.entries@.len(),
                forall|j: int| 0 <= j < i ==> self.entries@[j].0.text() != k.text(),
            decreases self.entries@.len() - i,
        {
            if self.entries[i].0.same_text(k) {
                assert(key_at(self.entries@, k.text(), i as int));
                return Some(i);
            }
            i += 1;
        }
        proof {
            if self.view().contains_key(k.text()) {
                let j = choose|j: int| key_at(self.entries@, k.text(), j);
                assert(self.entries@[j].0.text() != k.text());
            }
        }
        None
    }

    pub fn contains_key(&self, k: &K) -> (r: bool)
        ensures
            r == self.view().contains_key(k.text()),
    {
        self.index_of(k).is_some()
    }

    pub fn get(&self, k: &K) -> (r: Option<&V>)
        ensures
            self.view().contains_key(k.text()) == (r is Some),
            r matches Some(v) ==> *v == self.view()[k.text()],
    {
        proof {
            use_type_invariant(self);
        }
        match self.index_of(k) {
            Some(i) => {
                proof {
                    lemma_entry_in_map(self.entries@, i as int);
                }
                Some(&self.entries[i].1)
            },
            None => None,
        }
    }

    /// The entry at an index, in insertion order.
    pub fn entry_at(&self, i: usize) -> (r: (&K, &V))
        requires
            i < self.entries().len(),
        ensures
            *r.0 == self.entries()[i as int].0,
            *r.1 == self.entries()[i as int].1,
            self.view().contains_key(r.0.text()),
            self.view()[r.0.text()] == *r.1,
    {
        proof {
            use_type_invariant(self);
            lemma_entry_in_map(self.entries@, i as int);
        }
        let e = &self.entries[i];
        (&e.0, &e.1)
    }

    /// Sets the value of a key, adding the key at the end if it is new; gives back the value
    /// that the key had.
    pub fn insert(&mut self, k: K, v: V) -> (r: Option<V>)
        ensures
            final(self).view() == old(self).view().insert(k.text(), v),
            old(self).view().contains_key(k.text()) == (r is Some),
            r matches Some(o) ==> o == old(self).view()[k.text()],
            old(self).view().contains_key(k.text()) ==> final(self).entries().len()
                == old(self).entries().len(),
            !old(self).view().contains_key(k.text()) ==> final(self).entries() == old(
                self,
            ).entries().push((k, v)),
    {
        proof {
            use_type_invariant(&*self);
        }
        match self.index_of(&k) {
            Some(i) => {
                let mut e: Vec<(K, V)> = Vec::new();
                std::mem::swap(&mut e, &mut self.entries);
                let ghost s = e@;
                let (_old_k, old_v) = e.remove(i);
                e.insert(i, (k, v));
                proof {
                    lemma_entry_in_map(s, i as int);
                    assert(e@ =~= s.update(i as int, (k, v)));
                    lemma_update(s, i as int, k, v);
                }
                self.entries = e;
                Some(old_v)
            },
            None => {
                let mut e: Vec<(K, V)> = Vec::new();
                std::mem::swap(&mut e, &mut self.entries);
                proof {
                    lemma_push(e@, k, v);
                }
                e.push((k, v));
                self.entries = e;
                None
            },
        }
    }

    /// Takes a key out, giving back its value.
    pub fn remove(&mut self, k: &K) -> (r: Option<V>)
        ensures
            final(self).view() == old(self).view().remove(k.text()),
            old(self).view().contains_key(k.text()) == (r is Some),
            r matches Some(o) ==> o == old(self).view()[k.text()],
    {
        proof {
            use_type_invariant(&*self);
        }
        match self.index_of(k) {
            Some(i) => {
                let mut e: Vec<(K, V)> = Vec::new();
                std::mem::swap(&mut e, &mut self.entries);
                let ghost s = e@;
                let (_old_k, old_v) = e.remove(i);
                proof {
                    lemma_entry_in_map(s, i as int);
                    lemma_remove(s, i as int);
                }
                self.entries = e;
                Some(old_v)
            },
            None => {
                assert(self.view() =~= self.view().remove(k.text()));
                None
            },
        }
    }

    /// Replaces the value at an index, keeping its key and place.
    pub fn set_value_at(&mut self, i: usize, v: V)
        requires
            i < old(self).entries().len(),
        ensures
            final(self).entries() == old(self).entries().update(
                i as int,
                (old(self).entries()[i as int].0, v),
            ),
            final(self).view() == old(self).view().insert(old(self).entries()[i as int].0.text(), v),
    {
        proof {
            use_type_invariant(&*self);
        }
        let mut e: Vec<(K, V)> = Vec::new();
        std::mem::swap(&mut e, &mut self.entries);
        let ghost s = e@;
        let (k, _old_v) = e.remove(i);
        e.insert(i, (k, v));
        proof {
            assert(e@ =~= s.update(i as int, (k, v)));
            lemma_update(s, i as int, k, v);
        }
        self.entries = e;
    }

    pub fn clear(&mut self)
        ensures
            final(self).view() == Map::<Seq<char>, V>::empty(),
            final(self).entries().len() == 0,
    {
        self.entries = Vec::new();
        assert(self.view() =~= Map::<Seq<char>, V>::empty());
    }

    /// Gives up the entries, in insertion order.
    pub fn into_entries(self) -> (r: Vec<(K, V)>)
        ensures
            r@ == self.entries(),
            keys_unique(r@),
            entries_map(r@) == self.view(),
    {
        proof {
            use_type_invariant(&self);
        }
        self.entries
    }

    /// Adds every entry of another list, its values winning over the ones already here.
    pub fn extend(&mut self, other: Self)
        ensures
            final(self).view() == old(self).view().union_prefer_right(other.view()),
    {
        let ghost start = self.view();
        let mut e = other.into_entries();
        let ghost s = e@;
        let total = e.len();
        let mut i: usize = 0;
        while e.len() > 0
            invariant
                keys_unique(s),
                i <= s.len(),
                s.len() == total,
                e@ == s.skip(i as int),
                entries_map(s) == other.view(),
                self.view() == start.union_prefer_right(entries_map(s.take(i as int))),
            decreases e@.len(),
        {
            assert(e@.len() == s.len() - i);
            let (k, v) = e.remove(0);
            proof {
                assert(k == s[i as int].0 && v == s[i as int].1);
            }
            self.insert(k, v);
            proof {
                let t = s.take(i as int);
                assert(s.take(i + 1) =~= t.push((k, v)));
                assert(keys_unique(t)) by {
                    assert forall|a: int, b: int|
                        0 <= a < t.len() && 0 <= b < t.len() && a != b implies #[trigger] t[a].0.text()
                        != #[trigger] t[b].0.text() by {
                        assert(t[a] == s[a] && t[b] == s[b]);
                    }
                }
                if entries_map(t).contains_key(k.text()) {
                    let a = choose|a: int| key_at(t, k.text(), a);
                    assert(t[a] == s[a]);
                }
                lemma_push(t, k, v);
                assert(self.view() =~= start.union_prefer_right(entries_map(s.take(i + 1))));
            }
            i += 1;
            assert(e@ =~= s.skip(i as int));
        }
        proof {
            assert(s.take(s.len() as int) =~= s);
        }
    }
}

} // verus!
