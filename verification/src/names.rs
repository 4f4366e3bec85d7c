//! A map from names to values.

use vstd::prelude::*;

use crate::adapter::TestStatus;
use crate::text::same_text;

verus! {

/// The map that a list of entries stands for: where a name occurs twice, the later entry counts.
pub open spec fn entries_map<V: View>(entries: Seq<(String, V)>) -> Map<Seq<char>, V::V>
    decreases entries.len(),
{
    if entries.len() == 0 {
        Map::empty()
    } else {
        entries_map(entries.drop_last()).insert(entries.last().0@, entries.last().1@)
    }
}

/// No name occurs twice in a list of entries.
pub open spec fn distinct_names<V>(entries: Seq<(String, V)>) -> bool {
    forall|i: int, j: int|
        0 <= i < entries.len() && 0 <= j < entries.len() && i != j ==> (#[trigger] entries[i]).0@
            != (#[trigger] entries[j]).0@
}

/// The map of a list without repeated names holds what the entries say, and nothing else.
proof fn lemma_entries_map<V: View>(entries: Seq<(String, V)>)
    requires
        distinct_names(entries),
    ensures
        forall|i: int|
            0 <= i < entries.len() ==> entries_map(entries).contains_key(
                (#[trigger] entries[i]).0@,
            ) && entries_map(entries)[entries[i].0@] == entries[i].1@,
        forall|name: Seq<char>| #[trigger]
            entries_map(entries).contains_key(name) ==> exists|i: int|
                0 <= i < entries.len() && (#[trigger] entries[i]).0@ == name,
    decreases entries.len(),
{
    if entries.len() > 0 {
        let rest = entries.drop_last();
        lemma_entries_map(rest);
        assert forall|i: int| 0 <= i < entries.len() implies entries_map(entries).contains_key(
            (#[trigger] entries[i]).0@,
        ) && entries_map(entries)[entries[i].0@] == entries[i].1@ by {
            if i < rest.len() {
                assert(rest[i] == entries[i]);
            }
        }
        assert forall|name: Seq<char>| #[trigger]
            entries_map(entries).contains_key(name) implies exists|i: int|
            0 <= i < entries.len() && (#[trigger] entries[i]).0@ == name by {
            if entries_map(rest).contains_key(name) {
                let i = choose|i: int| 0 <= i < rest.len() && (#[trigger] rest[i]).0@ == name;
                assert(entries[i].0@ == name);
            } else {
                assert(entries[entries.len() - 1].0@ == name);
            }
        }
    }
}

/// A map from names to values, kept as a list of entries in which no name occurs twice.
#[derive(Debug)]
pub struct NameMap<V> {
    entries: Vec<(String, V)>,
}

impl<V: View> View for NameMap<V> {
    type V = Map<Seq<char>, V::V>;

    closed spec fn view(&self) -> Map<Seq<char>, V::V> {
        entries_map(self.entries@)
    }
}

impl<V> NameMap<V> {
    #[verifier::type_invariant]
    spec fn distinct(self) -> bool {
        distinct_names(self.entries@)
    }
}

impl<V: View> NameMap<V> {
    /// The empty map.
    pub fn new() -> (r: Self)
        ensures
            r@ == Map::<Seq<char>, V::V>::empty(),
    {
        NameMap { entries: Vec::new() }
    }

    /// The entries of the map, each name once.
    pub fn entries(&self) -> (r: &Vec<(String, V)>)
        ensures
            distinct_names(r@),
            entries_map(r@) == self@,
    {
        proof {
            use_type_invariant(self);
        }
        &self.entries
    }

    /// Where a name stands among the entries.
    fn find(&self, name: &str) -> (r: Option<usize>)
        ensures
            match r {
                Some(i) => i < self.entries@.len() && self.entries@[i as int].0@ == name@,
                None => forall|i: int|
                    0 <= i < self.entries@.len() ==> (#[trigger] self.entries@[i]).0@ != name@,
            },
    {
        let mut i: usize = 0;
        while i < self.entries.len()
            invariant
                i <= self.entries@.len(),
                forall|j: int| 0 <= j < i ==> (#[trigger] self.entries@[j]).0@ != name@,
            decreases self.entries@.len() - i,
        {
            if same_text(self.entries[i].0.as_str(), name) {
                return Some(i);
            }
            i += 1;
        }
        None
    }

    /// The value under a name.
    pub fn get(&self, name: &str) -> (r: Option<&V>)
        ensures
            match r {
                Some(value) => self@.contains_key(name@) && self@[name@] == value@,
                None => !self@.contains_key(name@),
            },
    {
        proof {
            use_type_invariant(self);
            lemma_entries_map(self.entries@);
        }
        match self.find(name) {
            Some(i) => Some(&self.entries[i].1),
            None => None,
        }
    }

    /// Puts a value under a name, in place of the one that stood there.
    pub fn insert(&mut self, name: String, value: V)
        ensures
            final(self)@ == old(self)@.insert(name@, value@),
    {
        proof {
            use_type_invariant(&*self);
        }
        let found = self.find(name.as_str());
        let mut entries: Vec<(String, V)> = Vec::new();
        std::mem::swap(&mut entries, &mut self.entries);
        let ghost before = entries@;
        match found {
            Some(i) => {
                entries[i] = (name, value);
                proof {
                    lemma_entries_map(before);
                    lemma_entries_map(entries@);
                    assert(entries_map(entries@) =~= entries_map(before).insert(name@, value@)) by {
                        assert forall|n: Seq<char>| #[trigger]
                            entries_map(before).contains_key(n) implies entries_map(
                            entries@,
                        ).contains_key(n) by {
                            let j = choose|j: int|
                                0 <= j < before.len() && (#[trigger] before[j]).0@ == n;
                            assert(entries@[j].0@ == n);
                        }
                        assert forall|n: Seq<char>| #[trigger]
                            entries_map(entries@).contains_key(n) && n != name@ implies entries_map(
                            before,
                        ).contains_key(n) && entries_map(before)[n] == entries_map(entries@)[n] by {
                            let j = choose|j: int|
                                0 <= j < entries@.len() && (#[trigger] entries@[j]).0@ == n;
                            assert(before[j].0@ == n);
                        }
                        assert(entries@[i as int].0@ == name@);
                    }
                }
            },
            None => {
                entries.push((name, value));
                proof {
                    assert(entries@.drop_last() == before);
                }
            },
        }
        self.entries = entries;
    }

    /// Removes every name.
    pub fn clear(&mut self)
        ensures
            final(self)@ == Map::<Seq<char>, V::V>::empty(),
    {
        *self = NameMap::new();
    }
}

impl Clone for NameMap<String> {
    fn clone(&self) -> (r: Self)
        ensures
            r@ == self@,
    {
        proof {
            use_type_invariant(self);
        }
        let mut entries: Vec<(String, String)> = Vec::new();
        let mut i: usize = 0;
        while i < self.entries.len()
            invariant
                i <= self.entries@.len(),
                entries@ == self.entries@.take(i as int),
            decreases self.entries@.len() - i,
        {
            entries.push((self.entries[i].0.clone(), self.entries[i].1.clone()));
            i += 1;
        }
        proof {
            assert(entries@ == self.entries@);
        }
        NameMap { entries }
    }
}

impl NameMap<TestStatus> {
    /// Puts `to` wherever `from` stands.
    pub fn replace(&mut self, from: TestStatus, to: TestStatus)
        ensures
            final(self)@ == old(self)@.map_values(
                |status: TestStatus| if status == from { to } else { status },
            ),
    {
        proof {
            use_type_invariant(&*self);
        }
        let mut entries: Vec<(String, TestStatus)> = Vec::new();
        std::mem::swap(&mut entries, &mut self.entries);
        let ghost before = entries@;
        let ghost replaced = |status: TestStatus| if status == from { to } else { status };
        let mut i: usize = 0;
        while i < entries.len()
            invariant
                i <= entries@.len(),
                entries@.len() == before.len(),
                replaced == (|status: TestStatus| if status == from { to } else { status }),
                forall|j: int| 0 <= j < before.len() ==> (#[trigger] entries@[j]).0 == before[j].0,
                forall|j: int| 0 <= j < i ==> (#[trigger] entries@[j]).1 == replaced(before[j].1),
                forall|j: int| i <= j < before.len() ==> entries@[j] == before[j],
            decreases entries@.len() - i,
        {
            if entries[i].1 == from {
                entries[i].1 = to;
            }
            i += 1;
        }
        proof {
            lemma_entries_map_values(before, entries@, replaced);
        }
        self.entries = entries;
    }
}

/// Lists with the same names, whose values differ by a function, stand for maps that differ by
/// that function.
proof fn lemma_entries_map_values(
    before: Seq<(String, TestStatus)>,
    after: Seq<(String, TestStatus)>,
    f: spec_fn(TestStatus) -> TestStatus,
)
    requires
        before.len() == after.len(),
        forall|j: int| 0 <= j < before.len() ==> (#[trigger] after[j]).0 == before[j].0,
        forall|j: int| 0 <= j < before.len() ==> (#[trigger] after[j]).1 == f(before[j].1),
    ensures
        entries_map(after) == entries_map(before).map_values(f),
    decreases before.len(),
{
    if before.len() > 0 {
        lemma_entries_map_values(before.drop_last(), after.drop_last(), f);
        assert(after.last().0 == before.last().0 && after.last().1 == f(before.last().1));
    }
    assert(entries_map(after) =~= entries_map(before).map_values(f));
}

} // verus!
