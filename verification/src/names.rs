use crate::error::texts;
use vstd::prelude::*;

verus! {

/// One entry of a name-keyed collection.
#[derive(Clone, Debug, PartialEq, Eq)]
pub struct Named<T> {
    pub name: String,
    pub item: T,
}

/// A collection keyed by name that keeps its entries in the order in which
/// they were added. A lookup finds the first entry of a name; `insert`
/// never adds a name twice, so a collection grown by `insert` alone holds
/// each name once (`wf`).
#[derive(Clone, Debug, PartialEq, Eq)]
pub struct NameMap<T> {
    pub entries: Vec<Named<T>>,
}

/// The index of the first occurrence of `name` in `names` at or after
/// `from`.
pub open spec fn first_index(names: Seq<Seq<char>>, name: Seq<char>, from: int) -> Option<int>
    decreases names.len() - from,
{
    if from < 0 || from >= names.len() {
        None
    } else if names[from] == name {
        Some(from)
    } else {
        first_index(names, name, from + 1)
    }
}

/// `first_index` finds an occurrence, the first one, whenever there is one.
pub proof fn lemma_first_index(names: Seq<Seq<char>>, name: Seq<char>, from: int)
    requires
        0 <= from,
    ensures
        match first_index(names, name, from) {
            Some(i) => from <= i < names.len() && names[i] == name && forall|k: int|
                from <= k < i ==> names[k] != name,
            None => forall|k: int| from <= k < names.len() ==> names[k] != name,
        },
    decreases names.len() - from,
{
    if from < names.len() && names[from] != name {
        lemma_first_index(names, name, from + 1);
    }
}

impl<T> NameMap<T> {
    /// The names, in order.
    pub open spec fn names(&self) -> Seq<Seq<char>> {
        Seq::new(self.entries@.len(), |i: int| self.entries@[i].name@)
    }

    /// The items, in order.
    pub open spec fn items(&self) -> Seq<T> {
        Seq::new(self.entries@.len(), |i: int| self.entries@[i].item)
    }

    /// Where the entry called `name` stands, if there is one.
    pub open spec fn position(&self, name: Seq<char>) -> Option<int> {
        first_index(self.names(), name, 0)
    }

    /// Whether an entry is called `name`.
    pub open spec fn contains(&self, name: Seq<char>) -> bool {
        self.position(name).is_some()
    }

    /// The item called `name`; meaningful where `contains(name)`.
    pub open spec fn item_of(&self, name: Seq<char>) -> T {
        self.entries@[self.position(name).unwrap()].item
    }

    /// No name occurs twice.
    pub open spec fn wf(&self) -> bool {
        forall|i: int, j: int|
            0 <= i < j < self.entries@.len() ==> self.entries@[i].name@ != self.entries@[j].name@
    }

    /// A position is in range and names the entry it was asked for.
    pub proof fn lemma_position(&self, name: Seq<char>)
        ensures
            match self.position(name) {
                Some(i) => 0 <= i < self.entries@.len() && self.entries@[i].name@ == name
                    && forall|k: int| 0 <= k < i ==> self.entries@[k].name@ != name,
                None => forall|k: int| 0 <= k < self.entries@.len() ==> self.entries@[k].name@ != name,
            },
    {
        lemma_first_index(self.names(), name, 0);
        match self.position(name) {
            Some(i) => {
                assert(self.names()[i] == self.entries@[i].name@);
                assert forall|k: int| 0 <= k < i implies self.entries@[k].name@ != name by {
                    assert(self.names()[k] == self.entries@[k].name@);
                }
            },
            None => {
                assert forall|k: int| 0 <= k < self.entries@.len() implies self.entries@[k].name@
                    != name by {
                    assert(self.names()[k] == self.entries@[k].name@);
                }
            },
        }
    }

    /// The empty collection.
    pub fn new() -> (map: NameMap<T>)
        ensures
            map.entries@.len() == 0,
            map.wf(),
    {
        NameMap { entries: Vec::new() }
    }

    /// The number of entries.
    pub fn len(&self) -> (n: usize)
        ensures
            n == self.entries@.len(),
    {
        self.entries.len()
    }

    /// The index of the entry called `name`.
    pub fn find(&self, name: &String) -> (found: Option<usize>)
        ensures
            match found {
                Some(i) => self.position(name@) == Some(i as int) && i < self.entries@.len(),
                None => self.position(name@).is_none(),
            },
    {
        let mut i: usize = 0;
        while i < self.entries.len()
            invariant
                i <= self.entries.len(),
                forall|k: int| 0 <= k < i ==> self.entries@[k].name@ != name@,
            decreases self.entries.len() - i,
        {
            if self.entries[i].name == *name {
                proof {
                    self.lemma_position(name@);
                }
                return Some(i);
            }
            i += 1;
        }
        proof {
            self.lemma_position(name@);
        }
        None
    }

    /// The item called `name`.
    pub fn get(&self, name: &String) -> (found: Option<&T>)
        ensures
            match found {
                Some(item) => self.contains(name@) && *item == self.item_of(name@),
                None => !self.contains(name@),
            },
    {
        match self.find(name) {
            Some(i) => Some(&self.entries[i].item),
            None => None,
        }
    }

    /// The item at position `i`, to change in place; every name and every
    /// other item stays.
    pub fn item_mut(&mut self, i: usize) -> (item: &mut T)
        requires
            i < old(self).entries@.len(),
        ensures
            *item == old(self).entries@[i as int].item,
            final(self).entries@.len() == old(self).entries@.len(),
            final(self).names() == old(self).names(),
            final(self).entries@[i as int].item == *final(item),
            forall|k: int|
                0 <= k < old(self).entries@.len() && k != i ==> final(self).entries@[k] == old(
                    self,
                ).entries@[k],
    {
        let ghost before = self.names();
        let item = &mut self.entries[i].item;
        proof {
            assert(after_borrow(self).names() =~= before);
        }
        item
    }

    /// Puts `item` under `name`: over the item that was there, which is
    /// handed back, or else as a new last entry.
    pub fn insert(&mut self, name: String, item: T) -> (previous: Option<T>)
        ensures
            match old(self).position(name@) {
                Some(i) => previous == Some(old(self).entries@[i].item)
                    && final(self).entries@.len() == old(self).entries@.len()
                    && final(self).names() == old(self).names()
                    && final(self).items() == old(self).items().update(i, item),
                None => previous.is_none()
                    && final(self).names() == old(self).names().push(name@)
                    && final(self).items() == old(self).items().push(item),
            },
            old(self).wf() ==> final(self).wf(),
            final(self).contains(name@),
            final(self).item_of(name@) == item,
    {
        let ghost before = *self;
        match self.find(&name) {
            Some(i) => {
                let mut entry = Named { name, item };
                std::mem::swap(&mut self.entries[i], &mut entry);
                proof {
                    before.lemma_position(name@);
                    self.lemma_position(name@);
                    assert(self.names() =~= before.names());
                    assert(self.items() =~= before.items().update(i as int, item));
                    assert(self.position(name@) == Some(i as int));
                    assert forall|a: int, b: int|
                        before.wf() && 0 <= a < b < self.entries@.len() implies self.entries@[a].name@
                        != self.entries@[b].name@ by {
                        assert(self.names()[a] == before.names()[a]);
                        assert(self.names()[b] == before.names()[b]);
                    }
                }
                Some(entry.item)
            },
            None => {
                self.entries.push(Named { name, item });
                proof {
                    before.lemma_position(name@);
                    self.lemma_position(name@);
                    assert(self.names() =~= before.names().push(name@));
                    assert(self.items() =~= before.items().push(item));
                    let last = before.entries@.len() as int;
                    assert(self.entries@[last].name@ == name@);
                    assert forall|k: int| 0 <= k < last implies self.entries@[k].name@ != name@ by {
                        assert(self.entries@[k] == before.entries@[k]);
                    }
                    assert(self.position(name@) == Some(last));
                    assert forall|a: int, b: int|
                        before.wf() && 0 <= a < b < self.entries@.len() implies self.entries@[a].name@
                        != self.entries@[b].name@ by {
                        assert(self.entries@[a] == before.entries@[a]);
                        if b < last {
                            assert(self.entries@[b] == before.entries@[b]);
                        }
                    }
                }
                None
            },
        }
    }

    /// The names, in order, as a directory listing.
    pub fn list(&self) -> (names: Vec<String>)
        ensures
            texts(names@) == self.names(),
    {
        let mut names: Vec<String> = Vec::new();
        let mut i: usize = 0;
        while i < self.entries.len()
            invariant
                i <= self.entries.len(),
                names@.len() == i,
                forall|k: int| 0 <= k < i ==> names@[k]@ == self.entries@[k].name@,
            decreases self.entries.len() - i,
        {
            names.push(self.entries[i].name.clone());
            i += 1;
        }
        assert(texts(names@) =~= self.names());
        names
    }
}

} // verus!
