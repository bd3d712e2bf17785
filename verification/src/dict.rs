//! Values found by name.

use crate::text::{str_eq, views};
use vstd::prelude::*;

verus! {

/// The values that a sequence of entries holds, by name; a later entry replaces an earlier one.
pub open spec fn as_map<T>(entries: Seq<(String, T)>) -> Map<Seq<char>, T>
    decreases entries.len(),
{
    if entries.len() == 0 {
        Map::empty()
    } else {
        as_map(entries.drop_last()).insert(entries.last().0@, entries.last().1)
    }
}

/// A name that no entry has is not in the map.
proof fn lemma_as_map_absent<T>(entries: Seq<(String, T)>, name: Seq<char>)
    requires
        forall|j: int| 0 <= j < entries.len() ==> #[trigger] entries[j].0@ != name,
    ensures
        !as_map(entries).dom().contains(name),
    decreases entries.len(),
{
    if entries.len() > 0 {
        let rest = entries.drop_last();
        assert forall|j: int| 0 <= j < rest.len() implies #[trigger] rest[j].0@ != name by {
            assert(entries[j].0@ != name);
        }
        lemma_as_map_absent(rest, name);
        assert(entries[entries.len() - 1].0@ != name);
    }
}

/// The value of the last entry with a name is found under that name.
proof fn lemma_as_map_last<T>(entries: Seq<(String, T)>, i: int)
    requires
        0 <= i < entries.len(),
        forall|j: int| i < j < entries.len() ==> #[trigger] entries[j].0@ != entries[i].0@,
    ensures
        as_map(entries).dom().contains(entries[i].0@),
        as_map(entries)[entries[i].0@] == entries[i].1,
    decreases entries.len(),
{
    let rest = entries.drop_last();
    if i < rest.len() {
        assert forall|j: int| i < j < rest.len() implies #[trigger] rest[j].0@ != rest[i].0@ by {
            assert(entries[j].0@ != entries[i].0@);
        }
        lemma_as_map_last(rest, i);
        assert(entries[entries.len() - 1].0@ != entries[i].0@);
    }
}

/// Replacing the last entry with a name replaces what is found under that name.
proof fn lemma_as_map_update<T>(entries: Seq<(String, T)>, i: int, entry: (String, T))
    requires
        0 <= i < entries.len(),
        entry.0@ == entries[i].0@,
        forall|j: int| i < j < entries.len() ==> #[trigger] entries[j].0@ != entries[i].0@,
    ensures
        as_map(entries.update(i, entry)) == as_map(entries).insert(entry.0@, entry.1),
    decreases entries.len(),
{
    let new = entries.update(i, entry);
    let rest = entries.drop_last();
    if i < rest.len() {
        assert forall|j: int| i < j < rest.len() implies #[trigger] rest[j].0@ != rest[i].0@ by {
            assert(entries[j].0@ != entries[i].0@);
        }
        lemma_as_map_update(rest, i, entry);
        assert(new.drop_last() =~= rest.update(i, entry));
        assert(entries[entries.len() - 1].0@ != entries[i].0@);
    } else {
        assert(new.drop_last() =~= rest);
    }
    assert(as_map(new) =~= as_map(entries).insert(entry.0@, entry.1));
}

/// Whether an entry has a name.
pub open spec fn has_name<T>(entries: Seq<(String, T)>, name: Seq<char>) -> bool {
    exists|i: int| 0 <= i < entries.len() && (#[trigger] entries[i]).0@ == name
}

/// Whether a sequence lists the entries of a map, each once.
pub open spec fn lists<T>(entries: Seq<(String, T)>, map: Map<Seq<char>, T>) -> bool {
    &&& forall|i: int|
        0 <= i < entries.len() ==> map.dom().contains((#[trigger] entries[i]).0@)
            && map[entries[i].0@] == entries[i].1
    &&& forall|i: int, j: int|
        #![trigger entries[i], entries[j]]
        0 <= i < j < entries.len() ==> entries[i].0@ != entries[j].0@
    &&& forall|name: Seq<char>| #[trigger]
        map.dom().contains(name) ==> has_name(entries, name)
}

/// Whether an entry has a name.
fn name_in<T>(entries: &Vec<(String, T)>, name: &str) -> (r: bool)
    ensures
        r == has_name(entries@, name@),
{
    let mut i: usize = 0;
    while i < entries.len()
        invariant
            i <= entries@.len(),
            forall|j: int| 0 <= j < i ==> (#[trigger] entries@[j]).0@ != name@,
        decreases entries@.len() - i,
    {
        if str_eq(entries[i].0.as_str(), name) {
            return true;
        }
        i = i + 1;
    }
    false
}

/// Whether a text is among others.
fn contains_str(texts: &Vec<String>, text: &str) -> (r: bool)
    ensures
        r == views(texts@).contains(text@),
{
    let mut i: usize = 0;
    while i < texts.len()
        invariant
            i <= texts@.len(),
            forall|j: int| 0 <= j < i ==> (#[trigger] views(texts@)[j]) != text@,
        decreases texts@.len() - i,
    {
        assert(views(texts@)[i as int] == texts@[i as int]@);
        if str_eq(texts[i].as_str(), text) {
            return true;
        }
        i = i + 1;
    }
    false
}

/// Values found by name, one under each.
#[derive(Debug)]
pub struct Dict<T> {
    entries: Vec<(String, T)>,
}

impl<T> View for Dict<T> {
    type V = Map<Seq<char>, T>;

    closed spec fn view(&self) -> Map<Seq<char>, T> {
        as_map(self.entries@)
    }
}

impl<T> Dict<T> {
    /// Nothing under any name.
    pub fn new() -> (r: Self)
        ensures
            r@ == Map::<Seq<char>, T>::empty(),
    {
        Dict { entries: Vec::new() }
    }

    /// The position of the last entry with this name.
    fn position(&self, name: &str) -> (r: Option<usize>)
        ensures
            match r {
                Some(i) => {
                    &&& i < self.entries@.len()
                    &&& self.entries@[i as int].0@ == name@
                    &&& forall|j: int|
                        i < j < self.entries@.len() ==> #[trigger] self.entries@[j].0@ != name@
                },
                None => forall|j: int|
                    0 <= j < self.entries@.len() ==> #[trigger] self.entries@[j].0@ != name@,
            },
    {
        let mut i: usize = self.entries.len();
        while i > 0
            invariant
                i <= self.entries@.len(),
                forall|j: int|
                    i <= j < self.entries@.len() ==> #[trigger] self.entries@[j].0@ != name@,
            decreases i,
        {
            i = i - 1;
            if str_eq(self.entries[i].0.as_str(), name) {
                return Some(i);
            }
        }
        None
    }

    /// The value under a name.
    pub fn get(&self, name: &str) -> (r: Option<&T>)
        ensures
            match r {
                Some(value) => self@.dom().contains(name@) && *value == self@[name@],
                None => !self@.dom().contains(name@),
            },
    {
        match self.position(name) {
            Some(i) => {
                proof {
                    lemma_as_map_last(self.entries@, i as int);
                }
                Some(&self.entries[i].1)
            },
            None => {
                proof {
                    lemma_as_map_absent(self.entries@, name@);
                }
                None
            },
        }
    }

    /// Whether there is a value under a name.
    pub fn contains(&self, name: &str) -> (r: bool)
        ensures
            r == self@.dom().contains(name@),
    {
        self.get(name).is_some()
    }

    /// Puts a value under a name, in place of one that was there.
    pub fn insert(&mut self, name: &str, value: T)
        ensures
            final(self)@ == old(self)@.insert(name@, value),
    {
        let entry = (name.to_owned(), value);
        match self.position(name) {
            Some(i) => {
                proof {
                    lemma_as_map_update(self.entries@, i as int, entry);
                }
                self.entries[i] = entry;
            },
            None => {
                proof {
                    assert(self.entries@.push(entry).drop_last() =~= self.entries@);
                }
                self.entries.push(entry);
            },
        }
    }

    /// The value under a name, to be changed.
    pub fn get_mut(&mut self, name: &str) -> (r: Option<&mut T>)
        ensures
            match r {
                Some(value) => {
                    &&& old(self)@.dom().contains(name@)
                    &&& *value == old(self)@[name@]
                    &&& final(self)@ == old(self)@.insert(name@, *final(value))
                },
                None => !old(self)@.dom().contains(name@) && final(self)@ == old(self)@,
            },
    {
        match self.position(name) {
            Some(i) => {
                let ghost before = self.entries@;
                proof {
                    lemma_as_map_last(before, i as int);
                }
                let value = &mut self.entries[i].1;
                proof {
                    lemma_as_map_update(before, i as int, (before[i as int].0, *final(value)));
                }
                Some(value)
            },
            None => {
                proof {
                    lemma_as_map_absent(self.entries@, name@);
                }
                None
            },
        }
    }

    /// The names under which there are values, each once and in no particular order.
    pub fn names(&self) -> (r: Vec<String>)
        ensures
            views(r@).no_duplicates(),
            forall|name: Seq<char>| #[trigger]
                self@.dom().contains(name) <==> views(r@).contains(name),
            forall|i: int| 0 <= i < r@.len() ==> self@.dom().contains((#[trigger] r@[i])@),
    {
        let mut r: Vec<String> = Vec::new();
        let mut i: usize = 0;
        proof {
            assert(self.entries@.take(0) =~= Seq::<(String, T)>::empty());
        }
        while i < self.entries.len()
            invariant
                i <= self.entries@.len(),
                views(r@).no_duplicates(),
                forall|name: Seq<char>| #[trigger]
                    as_map(self.entries@.take(i as int)).dom().contains(name) <==> views(
                        r@,
                    ).contains(name),
            decreases self.entries@.len() - i,
        {
            let name = self.entries[i].0.as_str();
            let ghost had = views(r@);
            proof {
                assert(self.entries@.take(i + 1).drop_last() =~= self.entries@.take(i as int));
                assert(self.entries@.take(i + 1).last() == self.entries@[i as int]);
                assert forall|other: Seq<char>| #[trigger]
                    as_map(self.entries@.take(i + 1)).dom().contains(other) <==> had.contains(other)
                        || other == name@ by {
                    assert(as_map(self.entries@.take(i as int)).dom().contains(other)
                        <==> had.contains(other));
                }
            }
            if !contains_str(&r, name) {
                r.push(name.to_owned());
                proof {
                    assert(views(r@) =~= had.push(name@));
                    assert forall|other: Seq<char>| #[trigger]
                        had.push(name@).contains(other) <==> had.contains(other) || other
                            == name@ by {
                        if had.contains(other) {
                            let j = choose|j: int| 0 <= j < had.len() && had[j] == other;
                            assert(had.push(name@)[j] == other);
                        }
                        if other == name@ {
                            assert(had.push(name@)[had.len() as int] == other);
                        }
                    }
                }
            }
            i = i + 1;
        }
        proof {
            assert(self.entries@.take(self.entries@.len() as int) =~= self.entries@);
            assert forall|j: int| 0 <= j < r@.len() implies self@.dom().contains(
                (#[trigger] r@[j])@,
            ) by {
                assert(views(r@)[j] == r@[j]@);
            }
        }
        r
    }

    /// Names and values, each name once and in no particular order.
    pub fn into_entries(self) -> (r: Vec<(String, T)>)
        ensures
            lists(r@, self@),
    {
        let ghost all = self@;
        let mut entries = self.entries;
        let mut r: Vec<(String, T)> = Vec::new();
        while entries.len() > 0
            invariant
                forall|name: Seq<char>| #[trigger]
                    all.dom().contains(name) <==> has_name(r@, name) || as_map(
                        entries@,
                    ).dom().contains(name),
                forall|name: Seq<char>|
                    #![trigger all[name]]
                    !has_name(r@, name) && all.dom().contains(name) ==> as_map(entries@)[name]
                        == all[name],
                forall|i: int|
                    0 <= i < r@.len() ==> all.dom().contains((#[trigger] r@[i]).0@)
                        && all[r@[i].0@] == r@[i].1,
                forall|i: int, j: int|
                    #![trigger r@[i], r@[j]]
                    0 <= i < j < r@.len() ==> r@[i].0@ != r@[j].0@,
            decreases entries@.len(),
        {
            let ghost before = entries@;
            let ghost had = r@;
            if let Some(entry) = entries.pop() {
                proof {
                    assert(entries@ =~= before.drop_last());
                    assert(entry == before.last());
                }
                if !name_in(&r, entry.0.as_str()) {
                    r.push(entry);
                    proof {
                        let name = entry.0@;
                        assert(all.dom().contains(name));
                        assert(all[name] == entry.1);
                        assert forall|other: Seq<char>| #[trigger]
                            has_name(r@, other) <==> has_name(had, other) || other == name by {
                            if has_name(had, other) {
                                let i = choose|i: int|
                                    0 <= i < had.len() && (#[trigger] had[i]).0@ == other;
                                assert(r@[i].0@ == other);
                            }
                            if other == name {
                                assert(r@[had.len() as int].0@ == other);
                            }
                        }
                        assert forall|i: int, j: int|
                            #![trigger r@[i], r@[j]]
                            0 <= i < j < r@.len() implies r@[i].0@ != r@[j].0@ by {
                            if j == had.len() {
                                assert(had[i] == r@[i]);
                                if had[i].0@ == name {
                                    assert(has_name(had, name));
                                }
                            }
                        }
                    }
                }
            }
        }
        r
    }

    /// The entries, in the order in which their names first came.
    pub fn entries(&self) -> (r: &Vec<(String, T)>)
        ensures
            as_map(r@) == self@,
    {
        &self.entries
    }
}

impl<T> Default for Dict<T> {
    fn default() -> (r: Self)
        ensures
            r@ == Map::<Seq<char>, T>::empty(),
    {
        Dict::new()
    }
}

} // verus!
