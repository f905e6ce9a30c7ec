//! Names bound to values, the latest binding of a name hiding earlier ones.

use vstd::prelude::*;

verus! {

pub struct Entry<V> {
    pub name: String,
    pub value: V,
}

/// What `name` is bound to in `entries`: the value of the last entry
/// under that name.
pub open spec fn find_in<V>(entries: Seq<Entry<V>>, name: Seq<char>) -> Option<V>
    decreases entries.len(),
{
    if entries.len() == 0 {
        None
    } else if entries.last().name@ == name {
        Some(entries.last().value)
    } else {
        find_in(entries.drop_last(), name)
    }
}

pub struct Table<V> {
    entries: Vec<Entry<V>>,
}

impl<V> Table<V> {
    /// The bindings in the order they were made.
    pub closed spec fn entries(&self) -> Seq<Entry<V>> {
        self.entries@
    }

    pub open spec fn find(&self, name: Seq<char>) -> Option<V> {
        find_in(self.entries(), name)
    }

    pub fn new() -> (r: Table<V>)
        ensures
            r.entries() == Seq::<Entry<V>>::empty(),
    {
        Table { entries: Vec::new() }
    }

    /// Binds `name` to `value`, in place of what it was bound to.
    pub fn insert(&mut self, name: String, value: V)
        ensures
            final(self).entries() == old(self).entries().push(Entry { name, value }),
    {
        self.entries.push(Entry { name, value });
    }

    pub fn get(&self, name: &String) -> (r: Option<&V>)
        ensures
            match r {
                Some(v) => self.find(name@) == Some(*v),
                None => self.find(name@).is_none(),
            },
    {
        let mut i: usize = self.entries.len();
        assert(self.entries@.subrange(0, i as int) =~= self.entries@);
        while i > 0
            invariant
                i <= self.entries@.len(),
                find_in(self.entries@, name@) == find_in(self.entries@.subrange(0, i as int), name@),
            decreases i,
        {
            let ghost prefix = self.entries@.subrange(0, i as int);
            assert(prefix.drop_last() =~= self.entries@.subrange(0, i - 1));
            i = i - 1;
            if self.entries[i].name == *name {
                return Some(&self.entries[i].value);
            }
        }
        None
    }

    pub fn contains_key(&self, name: &String) -> (r: bool)
        ensures
            r == self.find(name@).is_some(),
    {
        self.get(name).is_some()
    }
}

/// After a binding is made, its name finds the new value and every other
/// name finds what it found before.
pub proof fn lemma_find_after_push<V>(entries: Seq<Entry<V>>, e: Entry<V>, name: Seq<char>)
    ensures
        find_in(entries.push(e), name) == if e.name@ == name {
            Some(e.value)
        } else {
            find_in(entries, name)
        },
{
    assert(entries.push(e).drop_last() =~= entries);
}

/// What `name` is bound to in a chain of tables, the last table being the
/// innermost and searched first.
pub open spec fn chain_find<V>(tables: Seq<Table<V>>, name: Seq<char>) -> Option<V>
    decreases tables.len(),
{
    if tables.len() == 0 {
        None
    } else {
        match tables.last().find(name) {
            Some(v) => Some(v),
            None => chain_find(tables.drop_last(), name),
        }
    }
}

pub fn chain_get<'a, V>(tables: &'a Vec<Table<V>>, name: &String) -> (r: Option<&'a V>)
    ensures
        match r {
            Some(v) => chain_find(tables@, name@) == Some(*v),
            None => chain_find(tables@, name@).is_none(),
        },
{
    let mut i: usize = tables.len();
    assert(tables@.subrange(0, i as int) =~= tables@);
    while i > 0
        invariant
            i <= tables@.len(),
            chain_find(tables@, name@) == chain_find(tables@.subrange(0, i as int), name@),
        decreases i,
    {
        let ghost prefix = tables@.subrange(0, i as int);
        assert(prefix.drop_last() =~= tables@.subrange(0, i - 1));
        i = i - 1;
        match tables[i].get(name) {
            Some(v) => {
                return Some(v);
            },
            None => {},
        }
    }
    None
}

} // verus!
