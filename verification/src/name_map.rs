//! Finite maps keyed by names, kept as vectors of (name, value) entries in
//! which no name occurs twice.
use vstd::prelude::*;

verus! {

/// The map that the entries `s` denote (a later entry wins).
pub open spec fn entries_map<V>(s: Seq<(String, V)>) -> Map<Seq<char>, V>
    decreases s.len(),
{
    if s.len() == 0 {
        Map::empty()
    } else {
        entries_map(s.drop_last()).insert(s.last().0@, s.last().1)
    }
}

/// No name occurs twice.
pub open spec fn unique_names<V>(s: Seq<(String, V)>) -> bool {
    forall|i: int, j: int| 0 <= i < j < s.len() ==> s[i].0@ != s[j].0@
}

/// A map from names to values.
#[derive(Debug)]
pub struct NameMap<V> {
    entries: Vec<(String, V)>,
}

impl<V> View for NameMap<V> {
    type V = Map<Seq<char>, V>;

    closed spec fn view(&self) -> Map<Seq<char>, V> {
        entries_map(self.entries@)
    }
}

/// The value found by a lookup, by value.
pub open spec fn found_value<V>(r: Option<&V>) -> Option<V> {
    match r {
        Some(v) => Some(*v),
        None => None,
    }
}

/// What looking `k` up in `m` gives.
pub open spec fn map_get<V>(m: Map<Seq<char>, V>, k: Seq<char>) -> Option<V> {
    if m.contains_key(k) {
        Some(m[k])
    } else {
        None
    }
}

impl<V> NameMap<V> {
    /// No name occurs twice among the entries.
    #[verifier::type_invariant]
    closed spec fn wf(&self) -> bool {
        unique_names(self.entries@)
    }

    /// Number of names bound.
    pub closed spec fn size(&self) -> nat {
        self.entries@.len()
    }

    /// An empty map.
    pub fn new() -> (r: NameMap<V>)
        ensures
            r@ == Map::<Seq<char>, V>::empty(),
            r.size() == 0,
    {
        NameMap { entries: Vec::new() }
    }

    /// Number of names bound.
    pub fn len(&self) -> (r: usize)
        ensures
            r == self.size(),
    {
        self.entries.len()
    }

    /// Index of the entry named `name`, if any.
    fn position(&self, name: &String) -> (r: Option<usize>)
        ensures
            match r {
                Some(i) => i < self.entries@.len() && self.entries@[i as int].0@ == name@,
                None => !self@.contains_key(name@),
            },
    {
        proof {
            use_type_invariant(self);
            lemma_entries_map_dom(self.entries@, name@);
        }
        let mut i: usize = 0;
        while i < self.entries.len()
            invariant
                0 <= i <= self.entries@.len(),
                forall|j: int| 0 <= j < i ==> #[trigger] self.entries@[j].0@ != name@,
                self@.contains_key(name@) <==> exists|j: int|
                    0 <= j < self.entries@.len() && #[trigger] self.entries@[j].0@ == name@,
            decreases self.entries.len() - i,
        {
            if self.entries[i].0.eq(name) {
                return Some(i);
            }
            i = i + 1;
        }
        None
    }

    /// The value bound to `name`, if any.
    pub fn get(&self, name: &str) -> (r: Option<&V>)
        ensures
            found_value(r) == map_get(self@, name@),
    {
        let key = name.to_owned();
        match self.position(&key) {
            Some(i) => {
                proof {
                    use_type_invariant(self);
                    lemma_entries_map_at(self.entries@, i as int);
                }
                Some(&self.entries[i].1)
            },
            None => None,
        }
    }

    /// Is `name` bound?
    pub fn contains_key(&self, name: &str) -> (r: bool)
        ensures
            r == self@.contains_key(name@),
    {
        let key = name.to_owned();
        match self.position(&key) {
            Some(i) => {
                proof {
                    use_type_invariant(self);
                    lemma_entries_map_at(self.entries@, i as int);
                }
                true
            },
            None => false,
        }
    }

    /// The names bound, in the order in which they were first bound.
    pub closed spec fn names(&self) -> Seq<Seq<char>> {
        self.entries@.map_values(|e: (String, V)| e.0@)
    }

    /// The names listed are exactly the names bound.
    pub proof fn lemma_names_are_bound(&self)
        ensures
            forall|n: Seq<char>| #[trigger] self.names().contains(n) <==> self@.contains_key(n),
    {
        assert forall|n: Seq<char>| #[trigger] self.names().contains(n) <==> self@.contains_key(n) by {
            lemma_entries_map_dom(self.entries@, n);
            if self@.contains_key(n) {
                let i = choose|i: int| 0 <= i < self.entries@.len() && #[trigger] self.entries@[i].0@ == n;
                assert(self.names()[i] == n);
            }
        }
    }

    /// The names bound, in the order in which they were first bound.
    pub fn keys(&self) -> (r: Vec<String>)
        ensures
            r@.map_values(|s: String| s@) == self.names(),
            self.names().to_set() == self@.dom(),
            self.names().no_duplicates(),
            self.names().len() == self.size(),
    {
        proof {
            use_type_invariant(self);
            assert forall|n: Seq<char>| self.names().contains(n) <==> self@.contains_key(n) by {
                lemma_entries_map_dom(self.entries@, n);
                if self@.contains_key(n) {
                    let i = choose|i: int| 0 <= i < self.entries@.len() && #[trigger] self.entries@[i].0@ == n;
                    assert(self.names()[i] == n);
                }
            }
            assert(self.names().to_set() =~= self@.dom());
        }
        let mut out: Vec<String> = Vec::new();
        let mut i: usize = 0;
        while i < self.entries.len()
            invariant
                0 <= i <= self.entries@.len(),
                out@.map_values(|s: String| s@) == self.entries@.take(i as int).map_values(|e: (String, V)| e.0@),
            decreases self.entries.len() - i,
        {
            let ghost prev = out@;
            let name = self.entries[i].0.clone();
            out.push(name);
            proof {
                let f = |e: (String, V)| e.0@;
                let g = |s: String| s@;
                assert(self.entries@.take(i as int + 1) =~= self.entries@.take(i as int).push(self.entries@[i as int]));
                assert(out@ == prev.push(name));
                assert(out@.map_values(g) =~= prev.map_values(g).push(name@));
                assert(self.entries@.take(i as int + 1).map_values(f) =~= self.entries@.take(i as int).map_values(f).push(
                    self.entries@[i as int].0@,
                ));
            }
            i = i + 1;
        }
        proof {
            assert(self.entries@.take(self.entries@.len() as int) =~= self.entries@);
        }
        out
    }

    /// Replaces the value bound to `name` by `value` and returns the value it
    /// replaced; an unbound name leaves the map unchanged.
    pub fn swap_value(&mut self, name: &str, value: V) -> (r: Option<V>)
        ensures
            match r {
                Some(v) => old(self)@.contains_key(name@) && v == old(self)@[name@] && final(self)@ == old(self)@.insert(
                    name@,
                    value,
                ),
                None => !old(self)@.contains_key(name@) && final(self)@ == old(self)@,
            },
            final(self).names() == old(self).names(),
            final(self).size() == old(self).size(),
    {
        proof {
            use_type_invariant(&*self);
        }
        let key = name.to_owned();
        let position = self.position(&key);
        match position {
            Some(i) => {
                let ghost before = self.entries@;
                proof {
                    lemma_entries_map_at(before, i as int);
                    lemma_entries_map_update(before, i as int, (key, value));
                }
                let mut entries: Vec<(String, V)> = Vec::new();
                std::mem::swap(&mut entries, &mut self.entries);
                let mut pair = (key, value);
                entries.set_and_swap(i, &mut pair);
                proof {
                    assert(entries@ == before.update(i as int, (key, value)));
                    assert(entries@.map_values(|e: (String, V)| e.0@) =~= before.map_values(|e: (String, V)| e.0@));
                }
                self.entries = entries;
                Some(pair.1)
            },
            None => None,
        }
    }

    /// Binds `name` to `value`, replacing the value it was bound to.
    pub fn insert(&mut self, name: String, value: V)
        ensures
            final(self)@ == old(self)@.insert(name@, value),
            final(self).size() == old(self).size() + if old(self)@.contains_key(name@) { 0int } else { 1 },
    {
        proof {
            use_type_invariant(&*self);
        }
        let position = self.position(&name);
        let ghost before = self.entries@;
        let mut entries: Vec<(String, V)> = Vec::new();
        std::mem::swap(&mut entries, &mut self.entries);
        match position {
            Some(i) => {
                proof {
                    lemma_entries_map_update(before, i as int, (name, value));
                }
                entries.set(i, (name, value));
            },
            None => {
                proof {
                    lemma_entries_map_dom(before, name@);
                    assert(before.push((name, value)).drop_last() =~= before);
                    assert forall|a: int, b: int| 0 <= a < b < before.push((name, value)).len() implies before.push(
                        (name, value),
                    )[a].0@ != before.push((name, value))[b].0@ by {
                        if b == before.len() {
                            assert(before[a].0@ != name@);
                        }
                    }
                }
                entries.push((name, value));
            },
        }
        self.entries = entries;
    }
}

proof fn lemma_entries_map_dom<V>(s: Seq<(String, V)>, n: Seq<char>)
    ensures
        entries_map(s).contains_key(n) <==> exists|i: int| 0 <= i < s.len() && #[trigger] s[i].0@ == n,
    decreases s.len(),
{
    if s.len() > 0 {
        lemma_entries_map_dom(s.drop_last(), n);
        if entries_map(s.drop_last()).contains_key(n) {
            let i = choose|i: int| 0 <= i < s.drop_last().len() && #[trigger] s.drop_last()[i].0@ == n;
            assert(s[i].0@ == n);
        }
        if exists|i: int| 0 <= i < s.len() && #[trigger] s[i].0@ == n {
            let i = choose|i: int| 0 <= i < s.len() && #[trigger] s[i].0@ == n;
            if i < s.len() - 1 {
                assert(s.drop_last()[i].0@ == n);
            }
        }
    }
}

/// With unique names, the entry at `i` is what the map binds its name to.
proof fn lemma_entries_map_at<V>(s: Seq<(String, V)>, i: int)
    requires
        unique_names(s),
        0 <= i < s.len(),
    ensures
        entries_map(s).contains_key(s[i].0@),
        entries_map(s)[s[i].0@] == s[i].1,
    decreases s.len(),
{
    if i < s.len() - 1 {
        lemma_entries_map_at(s.drop_last(), i);
        assert(s.drop_last()[i] == s[i]);
        assert(s.last().0@ != s[i].0@);
    }
}

/// Replacing the entry at `i` by one of the same name rebinds that name.
proof fn lemma_entries_map_update<V>(s: Seq<(String, V)>, i: int, x: (String, V))
    requires
        unique_names(s),
        0 <= i < s.len(),
        s[i].0@ == x.0@,
    ensures
        entries_map(s.update(i, x)) == entries_map(s).insert(x.0@, x.1),
        unique_names(s.update(i, x)),
        entries_map(s).contains_key(x.0@),
    decreases s.len(),
{
    lemma_entries_map_at(s, i);
    if i < s.len() - 1 {
        lemma_entries_map_update(s.drop_last(), i, x);
        assert(s.update(i, x).drop_last() =~= s.drop_last().update(i, x));
        assert(s.last().0@ != x.0@);
        assert(entries_map(s.update(i, x)) =~= entries_map(s).insert(x.0@, x.1));
    } else {
        assert(s.update(i, x).drop_last() =~= s.drop_last());
        lemma_entries_map_dom(s.drop_last(), x.0@);
        assert(entries_map(s.update(i, x)) =~= entries_map(s).insert(x.0@, x.1));
    }
}

} // verus!
