use vstd::prelude::*;

verus! {

/// True when no two entries of `s` carry the same name.
pub open spec fn names_unique<V>(s: Seq<(Seq<char>, V)>) -> bool {
    forall|i: int, j: int|
        0 <= i < s.len() && 0 <= j < s.len() && i != j ==> #[trigger] s[i].0 != #[trigger] s[j].0
}

/// True when `i` is the first position of `s` whose entry is named `k`.
pub open spec fn first_named<V>(s: Seq<(Seq<char>, V)>, k: Seq<char>, i: int) -> bool {
    &&& 0 <= i < s.len()
    &&& s[i].0 == k
    &&& forall|j: int| 0 <= j < i ==> #[trigger] s[j].0 != k
}

/// True when some entry of `s` is named `k`.
pub open spec fn has_name<V>(s: Seq<(Seq<char>, V)>, k: Seq<char>) -> bool {
    exists|i: int| 0 <= i < s.len() && #[trigger] s[i].0 == k
}

/// A map from names to values that keeps its entries in insertion order.
/// Inserting a name that is present replaces its value in place, so a map built
/// by `new` and `insert` never repeats a name.
#[derive(Clone, Debug)]
pub struct NamedMap<V> {
    entries: Vec<(String, V)>,
}

impl<V> View for NamedMap<V> {
    type V = Seq<(Seq<char>, V)>;

    closed spec fn view(&self) -> Seq<(Seq<char>, V)> {
        self.entries@.map_values(|e: (String, V)| (e.0@, e.1))
    }
}

impl<V> NamedMap<V> {
    pub fn new() -> (r: Self)
        ensures
            r@ == Seq::<(Seq<char>, V)>::empty(),
    {
        let r = NamedMap { entries: Vec::new() };
        assert(r@ =~= Seq::<(Seq<char>, V)>::empty());
        r
    }

    pub fn len(&self) -> (r: usize)
        ensures
            r == self@.len(),
    {
        self.entries.len()
    }

    pub fn is_empty(&self) -> (r: bool)
        ensures
            r == (self@.len() == 0),
    {
        self.entries.len() == 0
    }

    /// The name and value of the entry at position `i`.
    pub fn entry(&self, i: usize) -> (r: (&String, &V))
        requires
            i < self@.len(),
        ensures
            r.0@ == self@[i as int].0,
            *r.1 == self@[i as int].1,
    {
        let e = &self.entries[i];
        (&e.0, &e.1)
    }

    /// The position of the entry named `key`, if any.
    pub fn position(&self, key: &str) -> (r: Option<usize>)
        ensures
            match r {
                Some(i) => first_named(self@, key@, i as int),
                None => !has_name(self@, key@),
            },
    {
        let k = key.to_string();
        let mut i: usize = 0;
        while i < self.entries.len()
            invariant
                k@ == key@,
                i <= self.entries.len(),
                self@.len() == self.entries.len(),
                forall|j: int| 0 <= j < i ==> #[trigger] self@[j].0 != key@,
            decreases self.entries.len() - i,
        {
            if self.entries[i].0 == k {
                return Some(i);
            }
            i += 1;
        }
        None
    }

    pub fn contains_key(&self, key: &str) -> (r: bool)
        ensures
            r == has_name(self@, key@),
    {
        self.position(key).is_some()
    }

    pub fn get(&self, key: &str) -> (r: Option<&V>)
        ensures
            match r {
                Some(v) => exists|i: int| first_named(self@, key@, i) && #[trigger] self@[i].1 == *v,
                None => !has_name(self@, key@),
            },
    {
        match self.position(key) {
            Some(i) => {
                let (_, v) = self.entry(i);
                Some(v)
            },
            None => None,
        }
    }

    /// Sets the value of `key`: in place of its first entry if the name is present,
    /// else as a new last entry.
    pub fn insert(&mut self, key: String, value: V)
        ensures
            has_name(old(self)@, key@) ==> exists|i: int|
                first_named(old(self)@, key@, i) && final(self)@ == #[trigger] old(self)@.update(
                    i,
                    (key@, value),
                ),
            !has_name(old(self)@, key@) ==> final(self)@ == old(self)@.push((key@, value)),
            names_unique(old(self)@) ==> names_unique(final(self)@),
    {
        let ghost before = self@;
        match self.position(key.as_str()) {
            Some(i) => {
                self.entries.set(i, (key, value));
                assert(self@ =~= before.update(i as int, (key@, value)));
            },
            None => {
                self.entries.push((key, value));
                assert(self@ =~= before.push((key@, value)));
                assert(names_unique(before) ==> names_unique(self@)) by {
                    if names_unique(before) {
                        assert forall|a: int, b: int|
                            0 <= a < self@.len() && 0 <= b < self@.len() && a != b implies #[trigger] self@[a].0
                            != #[trigger] self@[b].0 by {
                            if a < before.len() && b < before.len() {
                                assert(self@[a] == before[a] && self@[b] == before[b]);
                            } else if a < before.len() {
                                assert(self@[a] == before[a]);
                            } else {
                                assert(self@[b] == before[b]);
                            }
                        }
                    }
                }
            },
        }
    }
}

} // verus!
