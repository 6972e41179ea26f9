use vstd::prelude::*;

verus! {

/// The map that a list of named entries stands for; of two entries of one name the later
/// counts.
pub open spec fn map_of<V: View>(entries: Seq<(String, V)>) -> Map<Seq<char>, V::V>
    decreases entries.len(),
{
    if entries.len() == 0 {
        Map::empty()
    } else {
        map_of(entries.drop_last()).insert(entries.last().0@, entries.last().1@)
    }
}

/// Whether no two entries bear the same name.
pub open spec fn distinct_names<V>(entries: Seq<(String, V)>) -> bool {
    forall|i: int, j: int|
        0 <= i < j < entries.len() ==> (#[trigger] entries[i]).0@ != (#[trigger] entries[j]).0@
}

/// Whether some entry before `n` bears the name `name`.
pub open spec fn names_before<V>(entries: Seq<(String, V)>, n: int, name: Seq<char>) -> bool {
    exists|i: int| 0 <= i < n && i < entries.len() && (#[trigger] entries[i]).0@ == name
}

/// The names of a map are the names of its entries.
pub proof fn lemma_map_of_names<V: View>(entries: Seq<(String, V)>, name: Seq<char>)
    ensures
        map_of(entries).contains_key(name) <==> names_before(entries, entries.len() as int, name),
    decreases entries.len(),
{
    if entries.len() > 0 {
        let front = entries.drop_last();
        lemma_map_of_names(front, name);
        if names_before(front, front.len() as int, name) {
            let i = choose|i: int| 0 <= i < front.len() && (#[trigger] front[i]).0@ == name;
            assert(entries[i].0@ == name);
        }
        if names_before(entries, entries.len() as int, name) {
            let i = choose|i: int| 0 <= i < entries.len() && (#[trigger] entries[i]).0@ == name;
            if i < front.len() {
                assert(front[i].0@ == name);
            }
        }
    }
}

/// Where names are distinct, a map holds under each entry's name that entry's value.
pub proof fn lemma_map_of_entry<V: View>(entries: Seq<(String, V)>, i: int)
    requires
        distinct_names(entries),
        0 <= i < entries.len(),
    ensures
        map_of(entries).contains_key(entries[i].0@),
        map_of(entries)[entries[i].0@] == entries[i].1@,
    decreases entries.len(),
{
    let front = entries.drop_last();
    if i < entries.len() - 1 {
        assert(distinct_names(front)) by {
            assert forall|a: int, b: int| 0 <= a < b < front.len() implies (#[trigger] front[a]).0@
                != (#[trigger] front[b]).0@ by {
                assert(entries[a].0@ != entries[b].0@);
            }
        }
        lemma_map_of_entry(front, i);
        assert(front[i] == entries[i]);
        assert(entries[i].0@ != entries[entries.len() - 1].0@);
    }
}

/// Where names are distinct, putting a new value in the place of an entry of the same
/// name is an insertion into the map.
pub proof fn lemma_map_of_replace<V: View>(entries: Seq<(String, V)>, i: int, entry: (String, V))
    requires
        distinct_names(entries),
        0 <= i < entries.len(),
        entry.0@ == entries[i].0@,
    ensures
        distinct_names(entries.update(i, entry)),
        map_of(entries.update(i, entry)) == map_of(entries).insert(entry.0@, entry.1@),
    decreases entries.len(),
{
    let after = entries.update(i, entry);
    assert(distinct_names(after)) by {
        assert forall|a: int, b: int| 0 <= a < b < after.len() implies (#[trigger] after[a]).0@ != (
        #[trigger] after[b]).0@ by {
            assert(entries[a].0@ != entries[b].0@);
        }
    }
    let front = entries.drop_last();
    let last = entries.len() - 1;
    if i == last {
        assert(after.drop_last() =~= front);
        assert(map_of(after) =~= map_of(entries).insert(entry.0@, entry.1@));
    } else {
        assert(distinct_names(front)) by {
            assert forall|a: int, b: int| 0 <= a < b < front.len() implies (#[trigger] front[a]).0@
                != (#[trigger] front[b]).0@ by {
                assert(entries[a].0@ != entries[b].0@);
            }
        }
        lemma_map_of_replace(front, i, entry);
        assert(after.drop_last() =~= front.update(i, entry));
        assert(after.last() == entries.last());
        assert(entries[i].0@ != entries[last].0@);
        assert(map_of(after) =~= map_of(entries).insert(entry.0@, entry.1@));
    }
}

/// A map from names to values that keeps its entries in the order in which their names
/// first came. No name occurs twice.
#[derive(Debug, PartialEq)]
pub struct NameMap<V> {
    pub entries: Vec<(String, V)>,
}

impl<V: View> View for NameMap<V> {
    type V = Map<Seq<char>, V::V>;

    open spec fn view(&self) -> Map<Seq<char>, V::V> {
        map_of(self.entries@)
    }
}

impl<V: View> NameMap<V> {
    /// Whether the map is well formed: no name occurs twice.
    pub open spec fn wf(&self) -> bool {
        distinct_names(self.entries@)
    }

    /// The empty map.
    pub fn new() -> (m: Self)
        ensures
            m.wf(),
            m@ == Map::<Seq<char>, V::V>::empty(),
            m.entries@.len() == 0,
    {
        NameMap { entries: Vec::new() }
    }

    /// The number of names.
    pub fn len(&self) -> (n: usize)
        ensures
            n == self.entries@.len(),
    {
        self.entries.len()
    }

    /// The place of the entry named `name`, if there is one.
    pub fn position(&self, name: &String) -> (r: Option<usize>)
        requires
            self.wf(),
        ensures
            match r {
                Some(i) => i < self.entries@.len() && self.entries@[i as int].0@ == name@
                    && self@.contains_key(name@) && self@[name@] == self.entries@[i as int].1@,
                None => !self@.contains_key(name@),
            },
    {
        let mut i: usize = 0;
        while i < self.entries.len()
            invariant
                i <= self.entries@.len(),
                self.wf(),
                !names_before(self.entries@, i as int, name@),
            decreases self.entries@.len() - i,
        {
            if self.entries[i].0 == *name {
                proof {
                    lemma_map_of_entry(self.entries@, i as int);
                }
                return Some(i);
            }
            i += 1;
        }
        proof {
            lemma_map_of_names(self.entries@, name@);
        }
        None
    }

    /// The value under `name`, if there is one.
    pub fn get(&self, name: &String) -> (r: Option<&V>)
        requires
            self.wf(),
        ensures
            match r {
                Some(v) => self@.contains_key(name@) && self@[name@] == v@,
                None => !self@.contains_key(name@),
            },
    {
        match self.position(name) {
            Some(i) => Some(&self.entries[i].1),
            None => None,
        }
    }

    /// Puts `value` under `name`, in place of what was there.
    pub fn insert(&mut self, name: String, value: V)
        requires
            old(self).wf(),
        ensures
            final(self).wf(),
            final(self)@ == old(self)@.insert(name@, value@),
    {
        match self.position(&name) {
            Some(i) => {
                proof {
                    lemma_map_of_replace(self.entries@, i as int, (name, value));
                }
                self.entries.set(i, (name, value));
            },
            None => {
                proof {
                    lemma_map_of_names(self.entries@, name@);
                    let grown = self.entries@.push((name, value));
                    assert(grown.drop_last() =~= self.entries@);
                    assert forall|a: int, b: int| 0 <= a < b < grown.len() implies (
                    #[trigger] grown[a]).0@ != (#[trigger] grown[b]).0@ by {
                        if b == grown.len() - 1 {
                            assert(self.entries@[a].0@ != name@);
                        } else {
                            assert(self.entries@[a].0@ != self.entries@[b].0@);
                        }
                    }
                }
                self.entries.push((name, value));
            },
        }
    }
}

/// The list under `name`, which is empty where the map holds none.
pub open spec fn list_under(map: Map<Seq<char>, Seq<usize>>, name: Seq<char>) -> Seq<usize> {
    if map.contains_key(name) {
        map[name]
    } else {
        Seq::empty()
    }
}

/// The map with `index` added at the end of the list under `name`.
pub open spec fn spec_append(map: Map<Seq<char>, Seq<usize>>, name: Seq<char>, index: usize) -> Map<
    Seq<char>,
    Seq<usize>,
> {
    map.insert(name, list_under(map, name).push(index))
}

impl NameMap<Vec<usize>> {
    /// Adds `index` at the end of the list under `name`, which is started where the map
    /// holds none.
    pub fn append(&mut self, name: &String, index: usize)
        requires
            old(self).wf(),
        ensures
            final(self).wf(),
            final(self)@ == spec_append(old(self)@, name@, index),
    {
        match self.position(name) {
            Some(i) => {
                let ghost before = self.entries@;
                self.entries[i].1.push(index);
                proof {
                    let entry = self.entries@[i as int];
                    assert(entry.1@ == before[i as int].1@.push(index));
                    assert(entry.0 == before[i as int].0);
                    assert(self.entries@ =~= before.update(i as int, entry));
                    lemma_map_of_replace(before, i as int, entry);
                }
            },
            None => {
                let mut list: Vec<usize> = Vec::new();
                list.push(index);
                self.insert(name.clone(), list);
            },
        }
    }
}

} // verus!
