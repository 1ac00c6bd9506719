//! Tables of values keyed by name, backed by a vector in insertion order.
//! The server's tables must also be walked whole (every connected client,
//! every rule's run-time state, every listener to stop), and vstd's
//! `StringHashMap` gives no verified way to list its entries; the order
//! itself carries no meaning.
use vstd::prelude::*;
use vstd::string::StringExecFns;

use crate::text::str_eq;

verus! {

/// The map that a list of named states stands for (a later entry wins).
pub open spec fn table_map<V>(s: Seq<(String, V)>) -> Map<Seq<char>, V>
    decreases s.len(),
{
    if s.len() == 0 {
        Map::empty()
    } else {
        table_map(s.drop_last()).insert(s.last().0@, s.last().1)
    }
}

/// No name occurs twice.
pub open spec fn unique_names<V>(s: Seq<(String, V)>) -> bool {
    forall|i: int, j: int| 0 <= i < j < s.len() ==> s[i].0@ != s[j].0@
}

/// The names of a list of named states.
pub open spec fn names_of<V>(s: Seq<(String, V)>) -> Seq<Seq<char>> {
    s.map_values(|e: (String, V)| e.0@)
}

/// A name is in the map exactly when some entry has it, and then the map
/// holds that entry's state.
proof fn lemma_table_map_index<V>(s: Seq<(String, V)>)
    requires
        unique_names(s),
    ensures
        forall|k: Seq<char>| #[trigger]
            table_map(s).contains_key(k) <==> exists|i: int| 0 <= i < s.len() && s[i].0@ == k,
        forall|i: int| #![trigger s[i]]
            0 <= i < s.len() ==> table_map(s).contains_key(s[i].0@) && table_map(s)[s[i].0@]
                == s[i].1,
    decreases s.len(),
{
    if s.len() > 0 {
        let t = s.drop_last();
        assert(unique_names(t));
        lemma_table_map_index(t);
        assert forall|k: Seq<char>| #[trigger]
            table_map(s).contains_key(k) <==> exists|i: int| 0 <= i < s.len() && s[i].0@ == k by {
            if table_map(s).contains_key(k) {
                if k == s.last().0@ {
                    assert(s[s.len() - 1].0@ == k);
                } else {
                    assert(table_map(t).contains_key(k));
                    let i = choose|i: int| 0 <= i < t.len() && t[i].0@ == k;
                    assert(s[i].0@ == k);
                }
            }
            if exists|i: int| 0 <= i < s.len() && s[i].0@ == k {
                let i = choose|i: int| 0 <= i < s.len() && s[i].0@ == k;
                if i < s.len() - 1 {
                    assert(t[i].0@ == k);
                }
            }
        }
        assert forall|i: int| #![trigger s[i]] 0 <= i < s.len() implies table_map(s).contains_key(
            s[i].0@,
        ) && table_map(s)[s[i].0@] == s[i].1 by {
            if i < s.len() - 1 {
                assert(t[i] == s[i]);
                assert(s[i].0@ != s.last().0@);
            }
        }
    }
}

/// Replacing the state of an entry replaces it in the map.
proof fn lemma_table_map_update<V>(s: Seq<(String, V)>, i: int, v: V)
    requires
        unique_names(s),
        0 <= i < s.len(),
    ensures
        table_map(s.update(i, (s[i].0, v))) == table_map(s).insert(s[i].0@, v),
        unique_names(s.update(i, (s[i].0, v))),
    decreases s.len(),
{
    let u = s.update(i, (s[i].0, v));
    assert(unique_names(u)) by {
        assert forall|a: int, b: int| 0 <= a < b < u.len() implies u[a].0@ != u[b].0@ by {
            assert(u[a].0@ == s[a].0@);
            assert(u[b].0@ == s[b].0@);
        }
    }
    if i == s.len() - 1 {
        assert(u.drop_last() =~= s.drop_last());
    } else {
        let t = s.drop_last();
        assert(unique_names(t));
        lemma_table_map_update(t, i, v);
        assert(u.drop_last() =~= t.update(i, (t[i].0, v)));
        assert(s[i].0@ != s.last().0@);
        assert(table_map(u) =~= table_map(s).insert(s[i].0@, v));
    }
}

/// Removing an entry removes its name from the map.
proof fn lemma_table_map_remove<V>(s: Seq<(String, V)>, i: int)
    requires
        unique_names(s),
        0 <= i < s.len(),
    ensures
        table_map(s.remove(i)) == table_map(s).remove(s[i].0@),
        unique_names(s.remove(i)),
    decreases s.len(),
{
    let r = s.remove(i);
    assert(unique_names(r)) by {
        assert forall|a: int, b: int| 0 <= a < b < r.len() implies r[a].0@ != r[b].0@ by {
            let a2 = if a < i {
                a
            } else {
                a + 1
            };
            let b2 = if b < i {
                b
            } else {
                b + 1
            };
            assert(r[a] == s[a2]);
            assert(r[b] == s[b2]);
        }
    }
    let t = s.drop_last();
    assert(unique_names(t));
    if i == s.len() - 1 {
        assert(r =~= t);
        lemma_table_map_index(t);
        assert forall|j: int| 0 <= j < t.len() implies t[j].0@ != s[i].0@ by {
            assert(t[j] == s[j]);
        }
        assert(!table_map(t).contains_key(s[i].0@));
        assert(table_map(r) =~= table_map(s).remove(s[i].0@));
    } else {
        lemma_table_map_remove(t, i);
        assert(r.drop_last() =~= t.remove(i));
        assert(r.last() == s.last());
        assert(s[i].0@ != s.last().0@);
        assert(table_map(r) =~= table_map(s).remove(s[i].0@));
    }
}

/// Values per name, each name at most once, in the order the names came.
pub struct NameTable<V> {
    entries: Vec<(String, V)>,
}

impl<V> NameTable<V> {
    /// The value per name.
    pub closed spec fn view(&self) -> Map<Seq<char>, V> {
        table_map(self.entries@)
    }

    /// Each name occurs once.
    pub closed spec fn wf(&self) -> bool {
        unique_names(self.entries@)
    }

    /// The names, in the order they were added.
    pub closed spec fn names(&self) -> Seq<Seq<char>> {
        names_of(self.entries@)
    }

    /// The names are the keys of the map, each once.
    pub proof fn lemma_names(&self)
        requires
            self.wf(),
        ensures
            self.names().to_set() == self.view().dom(),
            self.names().no_duplicates(),
            self.names().len() == self.view().dom().len(),
            forall|i: int| #![trigger self.names()[i]] 0 <= i < self.names().len() ==> self.view().contains_key(self.names()[i]),
    {
        let s = self.entries@;
        lemma_table_map_index(s);
        let n = self.names();
        assert(n.to_set() =~= self.view().dom()) by {
            assert forall|k: Seq<char>| n.to_set().contains(k) <==> self.view().dom().contains(
                k,
            ) by {
                if n.to_set().contains(k) {
                    let i = choose|i: int| 0 <= i < n.len() && n[i] == k;
                    assert(s[i].0@ == k);
                }
                if self.view().dom().contains(k) {
                    let i = choose|i: int| 0 <= i < s.len() && s[i].0@ == k;
                    assert(n[i] == k);
                }
            }
        }
        assert(n.no_duplicates());
        n.unique_seq_to_set();
        assert forall|i: int| #![trigger self.names()[i]] 0 <= i < self.names().len() implies self.view().contains_key(self.names()[i]) by {
            assert(s[i].0@ == n[i]);
        }
    }

    /// An empty table.
    pub fn new() -> (t: Self)
        ensures
            t.wf(),
            t@ == Map::<Seq<char>, V>::empty(),
            t.names() == Seq::<Seq<char>>::empty(),
    {
        let t = NameTable { entries: Vec::new() };
        assert(t.names() =~= Seq::<Seq<char>>::empty());
        t
    }

    /// Where the entry named `name` is, if any.
    fn find(&self, name: &str) -> (r: Option<usize>)
        requires
            self.wf(),
        ensures
            match r {
                Some(i) => i < self.entries@.len() && self.entries@[i as int].0@ == name@,
                None => !self@.contains_key(name@),
            },
    {
        proof {
            lemma_table_map_index(self.entries@);
        }
        let mut i: usize = 0;
        while i < self.entries.len()
            invariant
                i <= self.entries@.len(),
                forall|j: int| 0 <= j < i ==> self.entries@[j].0@ != name@,
            decreases self.entries@.len() - i,
        {
            if str_eq(self.entries[i].0.as_str(), name) {
                return Some(i);
            }
            i = i + 1;
        }
        None
    }

    /// Whether a name has a value.
    pub fn contains(&self, name: &str) -> (r: bool)
        requires
            self.wf(),
        ensures
            r == self@.contains_key(name@),
    {
        proof {
            lemma_table_map_index(self.entries@);
        }
        self.find(name).is_some()
    }

    /// The value of a name, if it has one.
    pub fn get(&self, name: &str) -> (r: Option<&V>)
        requires
            self.wf(),
        ensures
            match r {
                Some(s) => self@.contains_key(name@) && self@[name@] == *s,
                None => !self@.contains_key(name@),
            },
    {
        proof {
            lemma_table_map_index(self.entries@);
        }
        match self.find(name) {
            Some(i) => Some(&self.entries[i].1),
            None => None,
        }
    }

    /// Sets the value of a name (adding the name when it has none); gives
    /// back the value it replaced.
    pub fn set(&mut self, name: &str, value: V) -> (replaced: Option<V>)
        requires
            old(self).wf(),
        ensures
            final(self).wf(),
            final(self)@ == old(self)@.insert(name@, value),
            old(self)@.contains_key(name@) ==> replaced == Some(old(self)@[name@]) && final(self).names() == old(self).names(),
            !old(self)@.contains_key(name@) ==> replaced is None && final(self).names() == old(self).names().push(
                name@,
            ),
    {
        proof {
            lemma_table_map_index(self.entries@);
        }
        match self.find(name) {
            Some(i) => {
                proof {
                    lemma_table_map_update(self.entries@, i as int, value);
                }
                let ghost before = self.entries@;
                let key = self.entries[i].0.clone();
                let (_, prev) = self.entries.remove(i);
                self.entries.insert(i, (key, value));
                assert(self.entries@ =~= before.update(i as int, (before[i as int].0, value)));
                assert(self.names() =~= names_of(before));
                Some(prev)
            },
            None => {
                let ghost before = self.entries@;
                self.entries.push((String::from_str(name), value));
                assert(self.entries@.drop_last() =~= before);
                assert(unique_names(self.entries@)) by {
                    assert forall|a: int, b: int|
                        0 <= a < b < self.entries@.len() implies self.entries@[a].0@
                        != self.entries@[b].0@ by {
                        if b == before.len() {
                            assert(self.entries@[a] == before[a]);
                        } else {
                            assert(self.entries@[a] == before[a]);
                            assert(self.entries@[b] == before[b]);
                        }
                    }
                }
                assert(self.names() =~= names_of(before).push(name@));
                None
            },
        }
    }

    /// Forgets the value of a name; gives it back.
    pub fn remove(&mut self, name: &str) -> (removed: Option<V>)
        requires
            old(self).wf(),
        ensures
            final(self).wf(),
            final(self)@ == old(self)@.remove(name@),
            old(self)@.contains_key(name@) ==> removed == Some(old(self)@[name@]),
            !old(self)@.contains_key(name@) ==> removed is None,
    {
        proof {
            lemma_table_map_index(self.entries@);
        }
        match self.find(name) {
            Some(i) => {
                proof {
                    lemma_table_map_remove(self.entries@, i as int);
                }
                let (_, v) = self.entries.remove(i);
                Some(v)
            },
            None => {
                assert(self@ =~= self@.remove(name@));
                None
            },
        }
    }

    /// The number of names.
    pub fn len(&self) -> (n: usize)
        requires
            self.wf(),
        ensures
            n == self.names().len(),
    {
        self.entries.len()
    }

    /// The `i`-th name, in the order they were added.
    pub fn name_at(&self, i: usize) -> (n: &String)
        requires
            self.wf(),
            i < self.names().len(),
        ensures
            n@ == self.names()[i as int],
    {
        &self.entries[i].0
    }

    /// The value of the `i`-th name.
    pub fn value_at(&self, i: usize) -> (v: &V)
        requires
            self.wf(),
            i < self.names().len(),
        ensures
            *v == self@[self.names()[i as int]],
    {
        proof {
            lemma_table_map_index(self.entries@);
        }
        &self.entries[i].1
    }

    /// All names, in the order they were added.
    pub fn name_list(&self) -> (names: Vec<String>)
        requires
            self.wf(),
        ensures
            names@.map_values(|s: String| s@) == self.names(),
    {
        let mut names: Vec<String> = Vec::new();
        let mut i: usize = 0;
        while i < self.entries.len()
            invariant
                i <= self.entries@.len(),
                names@.len() == i,
                forall|j: int| 0 <= j < i ==> #[trigger] names@[j]@ == self.entries@[j].0@,
            decreases self.entries@.len() - i,
        {
            let k = self.entries[i].0.clone();
            names.push(k);
            i = i + 1;
        }
        assert(names@.map_values(|s: String| s@) =~= self.names());
        names
    }

    /// Empties the table, giving back every name with its value.
    pub fn take_all(&mut self) -> (all: Vec<(String, V)>)
        requires
            old(self).wf(),
        ensures
            final(self).wf(),
            final(self)@ == Map::<Seq<char>, V>::empty(),
            final(self).names() == Seq::<Seq<char>>::empty(),
            all@.map_values(|e: (String, V)| e.0@) == old(self).names(),
            forall|i: int| #![trigger all@[i]] 0 <= i < all@.len() ==> old(self)@.contains_key(all@[i].0@) && old(self)@[all@[i].0@] == all@[i].1,
    {
        proof {
            lemma_table_map_index(self.entries@);
        }
        let mut all: Vec<(String, V)> = Vec::new();
        std::mem::swap(&mut all, &mut self.entries);
        assert(all@.map_values(|e: (String, V)| e.0@) =~= old(self).names());
        assert(self.names() =~= Seq::<Seq<char>>::empty());
        assert(self@ =~= Map::<Seq<char>, V>::empty());
        all
    }
}

} // verus!
