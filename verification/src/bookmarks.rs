//! Tag names and the places they stand for.

use crate::text::str_equal;
use vstd::prelude::*;
use vstd::string::*;

verus! {

/// A tag name with the index of the step it marks.
#[derive(Debug)]
pub struct Bookmark {
    pub name: String,
    pub index: usize,
}

/// The map that a list of bookmarks stands for. Where a name occurs more
/// than once, its last entry counts.
pub open spec fn as_map(entries: Seq<Bookmark>) -> Map<Seq<char>, nat>
    decreases entries.len(),
{
    if entries.len() == 0 {
        Map::empty()
    } else {
        as_map(entries.drop_last()).insert(entries.last().name@, entries.last().index as nat)
    }
}

/// The names of a list of bookmarks, in order.
pub open spec fn names_of(entries: Seq<Bookmark>) -> Seq<Seq<char>> {
    Seq::new(entries.len(), |i: int| entries[i].name@)
}

/// The tags of a compiled session: from each name to the index of a step.
#[derive(Debug)]
pub struct Bookmarks {
    entries: Vec<Bookmark>,
}

impl View for Bookmarks {
    type V = Map<Seq<char>, nat>;

    closed spec fn view(&self) -> Map<Seq<char>, nat> {
        as_map(self.entries@)
    }
}

/// No entry of `entries[from..]` has the name `name`.
spec fn absent_from(entries: Seq<Bookmark>, from: int, name: Seq<char>) -> bool {
    forall|j: int| from <= j < entries.len() ==> (#[trigger] entries[j]).name@ != name
}

/// Entries that do not carry a name leave its place in the map alone.
proof fn lemma_skip_others(entries: Seq<Bookmark>, from: int, name: Seq<char>)
    requires
        0 <= from <= entries.len(),
        absent_from(entries, from, name),
    ensures
        as_map(entries).dom().contains(name) == as_map(entries.take(from)).dom().contains(name),
        as_map(entries).dom().contains(name) ==> as_map(entries)[name] == as_map(
            entries.take(from),
        )[name],
    decreases entries.len() - from,
{
    if from == entries.len() {
        assert(entries.take(from) =~= entries);
    } else {
        let shorter = entries.drop_last();
        assert(entries.last() == entries[entries.len() - 1]);
        assert forall|j: int| from <= j < shorter.len() implies (#[trigger] shorter[j]).name@
            != name by {
            assert(shorter[j] == entries[j]);
        }
        lemma_skip_others(shorter, from, name);
        assert(shorter.take(from) =~= entries.take(from));
    }
}

/// The names of the map are the names of the entries.
proof fn lemma_names_of(entries: Seq<Bookmark>, name: Seq<char>)
    ensures
        as_map(entries).dom().contains(name) <==> names_of(entries).contains(name),
    decreases entries.len(),
{
    if entries.len() > 0 {
        let shorter = entries.drop_last();
        lemma_names_of(shorter, name);
        if as_map(entries).dom().contains(name) {
            if entries.last().name@ == name {
                assert(names_of(entries)[entries.len() - 1] == name);
            } else {
                let i = choose|i: int| 0 <= i < shorter.len() && names_of(shorter)[i] == name;
                assert(names_of(entries)[i] == name);
            }
        }
        if names_of(entries).contains(name) {
            let i = choose|i: int| 0 <= i < entries.len() && names_of(entries)[i] == name;
            if i < shorter.len() {
                assert(names_of(shorter)[i] == name);
            }
        }
    }
}

/// Replacing the one entry of a name sets what the name stands for.
proof fn lemma_replace(entries: Seq<Bookmark>, i: int, entry: Bookmark)
    requires
        0 <= i < entries.len(),
        entries[i].name@ == entry.name@,
        names_of(entries).no_duplicates(),
    ensures
        as_map(entries.update(i, entry)) == as_map(entries).insert(
            entry.name@,
            entry.index as nat,
        ),
    decreases entries.len(),
{
    let changed = entries.update(i, entry);
    let shorter = entries.drop_last();
    if i == entries.len() - 1 {
        assert(changed.drop_last() =~= shorter);
        assert(as_map(changed) =~= as_map(entries).insert(entry.name@, entry.index as nat));
    } else {
        assert(names_of(entries)[i] == entry.name@);
        assert(names_of(entries)[entries.len() - 1] == entries.last().name@);
        assert(entries.last().name@ != entry.name@);
        assert forall|a: int, b: int|
            0 <= a < shorter.len() && 0 <= b < shorter.len() && a != b implies names_of(
            shorter,
        )[a] != names_of(shorter)[b] by {
            assert(names_of(entries)[a] == names_of(shorter)[a]);
            assert(names_of(entries)[b] == names_of(shorter)[b]);
        }
        lemma_replace(shorter, i, entry);
        assert(changed.drop_last() =~= shorter.update(i, entry));
        assert(changed.last() == entries.last());
        assert(as_map(changed) =~= as_map(entries).insert(entry.name@, entry.index as nat));
    }
}

impl Bookmarks {
    /// No name occurs twice among the entries.
    #[verifier::type_invariant]
    spec fn distinct(&self) -> bool {
        names_of(self.entries@).no_duplicates()
    }

    /// The names in the order in which they were first set.
    pub closed spec fn order(&self) -> Seq<Seq<char>> {
        names_of(self.entries@)
    }

    /// No tags.
    pub fn new() -> (tags: Bookmarks)
        ensures
            tags@ == Map::<Seq<char>, nat>::empty(),
            tags.order() == Seq::<Seq<char>>::empty(),
    {
        let tags = Bookmarks { entries: Vec::new() };
        assert(tags.order() =~= Seq::<Seq<char>>::empty());
        tags
    }

    /// The place of the entry with the name `name`, if there is one.
    fn position(&self, name: &str) -> (place: Option<usize>)
        ensures
            match place {
                Some(i) => i < self.entries@.len() && self.entries@[i as int].name@ == name@,
                None => absent_from(self.entries@, 0, name@),
            },
    {
        let mut i: usize = self.entries.len();
        while i > 0
            invariant
                i <= self.entries.len(),
                absent_from(self.entries@, i as int, name@),
            decreases i,
        {
            i -= 1;
            if str_equal(self.entries[i].name.as_str(), name) {
                return Some(i);
            }
        }
        None
    }

    /// Makes `name` stand for `index`, whatever it stood for before. A
    /// name that is new comes last in the order of the names.
    pub fn insert(&mut self, name: String, index: usize)
        ensures
            final(self)@ == old(self)@.insert(name@, index as nat),
            final(self).order() == if old(self)@.dom().contains(name@) {
                old(self).order()
            } else {
                old(self).order().push(name@)
            },
    {
        proof {
            use_type_invariant(&*self);
        }
        let place: Option<usize> = self.position(name.as_str());
        let ghost before = self.entries@;
        proof {
            lemma_names_of(before, name@);
            if place is None {
                assert forall|i: int| 0 <= i < before.len() implies names_of(before)[i]
                    != name@ by {
                    assert(before[i].name@ != name@);
                }
            } else {
                assert(names_of(before)[place->0 as int] == name@);
            }
        }
        let entry = Bookmark { name, index };
        match place {
            Some(i) => {
                proof {
                    lemma_replace(before, i as int, entry);
                    assert(names_of(before.update(i as int, entry)) =~= names_of(before));
                }
                let mut entries: Vec<Bookmark> = Vec::new();
                std::mem::swap(&mut entries, &mut self.entries);
                entries.set(i, entry);
                self.entries = entries;
            },
            None => {
                proof {
                    let after = before.push(entry);
                    assert(after.drop_last() =~= before);
                    assert(names_of(after) =~= names_of(before).push(entry.name@));
                    assert forall|a: int, b: int|
                        0 <= a < after.len() && 0 <= b < after.len() && a != b implies names_of(
                        after,
                    )[a] != names_of(after)[b] by {
                        if a < before.len() {
                            assert(names_of(before)[a] == names_of(after)[a]);
                            assert(before[a].name@ != entry.name@);
                        }
                        if b < before.len() {
                            assert(names_of(before)[b] == names_of(after)[b]);
                            assert(before[b].name@ != entry.name@);
                        }
                    }
                }
                let mut entries: Vec<Bookmark> = Vec::new();
                std::mem::swap(&mut entries, &mut self.entries);
                entries.push(entry);
                self.entries = entries;
            },
        }
    }

    /// The index that `name` stands for, if it is a tag.
    pub fn get(&self, name: &str) -> (index: Option<usize>)
        ensures
            index is Some <==> self@.dom().contains(name@),
            index matches Some(i) ==> self@[name@] == i as nat,
    {
        proof {
            use_type_invariant(self);
        }
        match self.position(name) {
            Some(i) => {
                proof {
                    let entry = self.entries@[i as int];
                    lemma_replace(self.entries@, i as int, entry);
                    assert(self.entries@.update(i as int, entry) =~= self.entries@);
                }
                Some(self.entries[i].index)
            },
            None => {
                proof {
                    lemma_skip_others(self.entries@, 0, name@);
                    assert(self.entries@.take(0) =~= Seq::<Bookmark>::empty());
                }
                None
            },
        }
    }

    /// The names of the tags, each once, in the order in which they were
    /// first set.
    pub fn names(&self) -> (names: Vec<String>)
        ensures
            names.deep_view() == self.order(),
            names.deep_view().no_duplicates(),
            forall|name: Seq<char>|
                names.deep_view().contains(name) <==> self@.dom().contains(name),
    {
        proof {
            use_type_invariant(self);
        }
        let mut names: Vec<String> = Vec::new();
        let mut i: usize = 0;
        while i < self.entries.len()
            invariant
                i <= self.entries.len(),
                names.deep_view() == names_of(self.entries@).take(i as int),
            decreases self.entries.len() - i,
        {
            let ghost before = names.deep_view();
            let name: String = self.entries[i].name.clone();
            names.push(name);
            assert(names.deep_view() =~= before.push(name@));
            assert(names.deep_view() =~= names_of(self.entries@).take(i + 1));
            i += 1;
        }
        proof {
            assert(names_of(self.entries@).take(i as int) =~= names_of(self.entries@));
            assert forall|name: Seq<char>|
                names.deep_view().contains(name) <==> self@.dom().contains(name) by {
                lemma_names_of(self.entries@, name);
            }
        }
        names
    }
}

} // verus!
