//! A string-to-string map with unique keys, kept as a vector of entries.
use vstd::prelude::*;

verus! {

/// Entries keyed by name; each key occurs at most once.
pub struct Properties {
    entries: Vec<(String, String)>,
}

/// The keys of `s` are pairwise distinct.
pub open spec fn keys_unique(s: Seq<(String, String)>) -> bool {
    forall|i: int, j: int|
        0 <= i < s.len() && 0 <= j < s.len() && i != j ==> (#[trigger] s[i]).0@ != (#[trigger] s[j]).0@
}

/// The map that a sequence of entries with unique keys stands for.
pub open spec fn map_of(s: Seq<(String, String)>) -> Map<Seq<char>, Seq<char>> {
    Map::new(
        |k: Seq<char>| exists|i: int| 0 <= i < s.len() && (#[trigger] s[i]).0@ == k,
        |k: Seq<char>| s[choose|i: int| 0 <= i < s.len() && (#[trigger] s[i]).0@ == k].1@,
    )
}

proof fn lemma_map_of_at(s: Seq<(String, String)>, i: int)
    requires
        keys_unique(s),
        0 <= i < s.len(),
    ensures
        map_of(s).contains_key(s[i].0@),
        map_of(s)[s[i].0@] == s[i].1@,
{
    let k = s[i].0@;
    assert(map_of(s).contains_key(k));
    let j = choose|j: int| 0 <= j < s.len() && (#[trigger] s[j]).0@ == k;
    assert(i == j);
}

proof fn lemma_map_of_push(s: Seq<(String, String)>, k: String, v: String)
    requires
        keys_unique(s),
        !map_of(s).contains_key(k@),
    ensures
        keys_unique(s.push((k, v))),
        map_of(s.push((k, v))) == map_of(s).insert(k@, v@),
{
    let t = s.push((k, v));
    assert forall|i: int| 0 <= i < s.len() implies (#[trigger] s[i]).0@ != k@ by {
        if s[i].0@ == k@ {
            assert(map_of(s).contains_key(k@));
        }
    }
    assert(keys_unique(t)) by {
        assert forall|i: int, j: int|
            0 <= i < t.len() && 0 <= j < t.len() && i != j implies (#[trigger] t[i]).0@ != (
            #[trigger] t[j]).0@ by {
            if i < s.len() && j < s.len() {
                assert(t[i] == s[i] && t[j] == s[j]);
            } else if i < s.len() {
                assert(t[i] == s[i]);
            } else {
                assert(t[j] == s[j]);
            }
        }
    }
    assert forall|q: Seq<char>| #[trigger] map_of(t).contains_key(q) == map_of(s).insert(k@, v@).contains_key(q) by {
        if map_of(s).contains_key(q) {
            let i = choose|i: int| 0 <= i < s.len() && (#[trigger] s[i]).0@ == q;
            assert(t[i] == s[i]);
        }
        if map_of(t).contains_key(q) && q != k@ {
            let i = choose|i: int| 0 <= i < t.len() && (#[trigger] t[i]).0@ == q;
            assert(t[i] == s[i]);
        }
        if q == k@ {
            assert(t[s.len() as int].0@ == q);
        }
    }
    assert forall|q: Seq<char>| #[trigger] map_of(t).contains_key(q) implies map_of(t)[q] == map_of(s).insert(k@, v@)[q] by {
        let i = choose|i: int| 0 <= i < t.len() && (#[trigger] t[i]).0@ == q;
        lemma_map_of_at(t, i);
        if i < s.len() {
            assert(t[i] == s[i]);
            lemma_map_of_at(s, i);
        }
    }
    assert(map_of(t) =~= map_of(s).insert(k@, v@));
}

proof fn lemma_map_of_update(s: Seq<(String, String)>, j: int, k: String, v: String)
    requires
        keys_unique(s),
        0 <= j < s.len(),
        s[j].0@ == k@,
    ensures
        keys_unique(s.update(j, (k, v))),
        map_of(s.update(j, (k, v))) == map_of(s).insert(k@, v@),
{
    let t = s.update(j, (k, v));
    assert(keys_unique(t)) by {
        assert forall|a: int, b: int|
            0 <= a < t.len() && 0 <= b < t.len() && a != b implies (#[trigger] t[a]).0@ != (
            #[trigger] t[b]).0@ by {
            assert(t[a].0@ == s[a].0@ && t[b].0@ == s[b].0@);
        }
    }
    assert forall|q: Seq<char>| #[trigger] map_of(t).contains_key(q) == map_of(s).insert(k@, v@).contains_key(q) by {
        if map_of(s).contains_key(q) {
            let i = choose|i: int| 0 <= i < s.len() && (#[trigger] s[i]).0@ == q;
            assert(t[i].0@ == q);
        }
        if map_of(t).contains_key(q) {
            let i = choose|i: int| 0 <= i < t.len() && (#[trigger] t[i]).0@ == q;
            assert(s[i].0@ == q);
        }
        if q == k@ {
            assert(t[j].0@ == q);
        }
    }
    assert forall|q: Seq<char>| #[trigger] map_of(t).contains_key(q) implies map_of(t)[q] == map_of(s).insert(k@, v@)[q] by {
        let i = choose|i: int| 0 <= i < t.len() && (#[trigger] t[i]).0@ == q;
        lemma_map_of_at(t, i);
        if i != j {
            assert(t[i] == s[i]);
            lemma_map_of_at(s, i);
        }
    }
    assert(map_of(t) =~= map_of(s).insert(k@, v@));
}

impl View for Properties {
    type V = Map<Seq<char>, Seq<char>>;

    closed spec fn view(&self) -> Map<Seq<char>, Seq<char>> {
        map_of(self.entries@)
    }
}

impl Properties {
    /// The entries keep their keys distinct.
    pub closed spec fn wf(&self) -> bool {
        keys_unique(self.entries@)
    }

    /// The entries in the order in which they are held.
    pub closed spec fn entry_seq(&self) -> Seq<(String, String)> {
        self.entries@
    }

    /// An empty map.
    pub fn new() -> (r: Properties)
        ensures
            r.wf(),
            r@ == Map::<Seq<char>, Seq<char>>::empty(),
    {
        let r = Properties { entries: Vec::new() };
        assert(r@ =~= Map::<Seq<char>, Seq<char>>::empty());
        r
    }

    /// The number of entries.
    pub fn len(&self) -> (r: usize)
        requires
            self.wf(),
        ensures
            r == self.entry_seq().len(),
    {
        self.entries.len()
    }

    /// Whether the map is empty.
    pub fn is_empty(&self) -> (r: bool)
        requires
            self.wf(),
        ensures
            r == (self@ == Map::<Seq<char>, Seq<char>>::empty()),
    {
        if self.entries.len() == 0 {
            assert(self@ =~= Map::<Seq<char>, Seq<char>>::empty());
            true
        } else {
            proof {
                lemma_map_of_at(self.entries@, 0);
                assert(!Map::<Seq<char>, Seq<char>>::empty().contains_key(self.entries@[0].0@));
            }
            false
        }
    }

    /// The entries, in the order in which they are held.
    pub fn entries(&self) -> (r: &Vec<(String, String)>)
        ensures
            r@ == self.entry_seq(),
    {
        &self.entries
    }

    /// A copy of these entries.
    pub fn copy(&self) -> (r: Properties)
        requires
            self.wf(),
        ensures
            r.wf(),
            r@ == self@,
            r.entry_seq() == self.entry_seq(),
    {
        let mut entries: Vec<(String, String)> = Vec::new();
        let mut i: usize = 0;
        while i < self.entries.len()
            invariant
                i <= self.entries@.len(),
                entries@ == self.entries@.subrange(0, i as int),
            decreases self.entries@.len() - i,
        {
            let k = self.entries[i].0.clone();
            let v = self.entries[i].1.clone();
            entries.push((k, v));
            i = i + 1;
            assert(entries@ =~= self.entries@.subrange(0, i as int));
        }
        assert(entries@ =~= self.entries@);
        Properties { entries }
    }

    /// The value held under `key`.
    pub fn get(&self, key: &String) -> (r: Option<&String>)
        requires
            self.wf(),
        ensures
            match r {
                Some(v) => self@.contains_key(key@) && self@[key@] == v@,
                None => !self@.contains_key(key@),
            },
    {
        let mut i: usize = 0;
        while i < self.entries.len()
            invariant
                i <= self.entries@.len(),
                keys_unique(self.entries@),
                forall|j: int| 0 <= j < i ==> (#[trigger] self.entries@[j]).0@ != key@,
            decreases self.entries@.len() - i,
        {
            if self.entries[i].0 == *key {
                proof {
                    lemma_map_of_at(self.entries@, i as int);
                }
                return Some(&self.entries[i].1);
            }
            i = i + 1;
        }
        None
    }

    /// Sets `key` to `value`, replacing what was held under it; returns the
    /// value that was replaced.
    pub fn insert(&mut self, key: String, value: String) -> (r: Option<String>)
        requires
            old(self).wf(),
        ensures
            final(self).wf(),
            final(self)@ == old(self)@.insert(key@, value@),
            match r {
                Some(v) => old(self)@.contains_key(key@) && old(self)@[key@] == v@,
                None => !old(self)@.contains_key(key@),
            },
    {
        let mut i: usize = 0;
        while i < self.entries.len()
            invariant
                i <= self.entries@.len(),
                self.entries@ == old(self).entries@,
                keys_unique(self.entries@),
                forall|j: int| 0 <= j < i ==> (#[trigger] self.entries@[j]).0@ != key@,
            decreases self.entries@.len() - i,
        {
            if self.entries[i].0 == key {
                proof {
                    lemma_map_of_at(self.entries@, i as int);
                    lemma_map_of_update(self.entries@, i as int, key, value);
                }
                let previous = self.entries[i].1.clone();
                self.entries.set(i, (key, value));
                return Some(previous);
            }
            i = i + 1;
        }
        proof {
            if map_of(self.entries@).contains_key(key@) {
                let j = choose|j: int| 0 <= j < self.entries@.len() && (#[trigger] self.entries@[j]).0@ == key@;
                assert(self.entries@[j].0@ != key@);
            }
            lemma_map_of_push(self.entries@, key, value);
        }
        self.entries.push((key, value));
        None
    }
}

} // verus!
