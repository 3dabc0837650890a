//! The table of function addresses: for each function name, the address at
//! which the function begins.

use crate::text::same_text;
use vstd::prelude::*;

verus! {

/// Function names and the addresses they stand for. A name that is entered
/// again takes the new address.
#[derive(Debug, Clone, PartialEq, Eq)]
pub struct FunctionTable {
    entries: Vec<(String, u64)>,
}

/// The mapping that a list of entries makes: later entries override earlier
/// ones of the same name.
pub open spec fn table_of(entries: Seq<(Seq<char>, u64)>) -> Map<Seq<char>, u64>
    decreases entries.len(),
{
    if entries.len() == 0 {
        Map::empty()
    } else {
        table_of(entries.drop_last()).insert(entries.last().0, entries.last().1)
    }
}

/// The address that a table has for a name, if it has one.
pub open spec fn address_of(table: Map<Seq<char>, u64>, name: Seq<char>) -> Option<u64> {
    if table.contains_key(name) {
        Some(table[name])
    } else {
        None
    }
}

impl View for FunctionTable {
    type V = Map<Seq<char>, u64>;

    closed spec fn view(&self) -> Map<Seq<char>, u64> {
        table_of(self.entries.deep_view())
    }
}

impl FunctionTable {
    /// A table without entries.
    pub fn new() -> (table: FunctionTable)
        ensures
            table@ == Map::<Seq<char>, u64>::empty(),
    {
        let table = FunctionTable { entries: Vec::new() };
        assert(table.entries.deep_view() =~= Seq::<(Seq<char>, u64)>::empty());
        table
    }

    /// Enters a function under its name, in place of any earlier entry of
    /// that name.
    pub fn insert(&mut self, name: String, address: u64)
        ensures
            final(self)@ == old(self)@.insert(name@, address),
    {
        let ghost before = self.entries.deep_view();
        let ghost entry = (name@, address);
        self.entries.push((name, address));
        assert(self.entries.deep_view() =~= before.push(entry));
        assert(self.entries.deep_view().drop_last() =~= before);
    }

    /// The address entered under a name.
    pub fn get(&self, name: &str) -> (address: Option<u64>)
        ensures
            address == address_of(self@, name@),
    {
        let mut found: Option<u64> = None;
        let mut i: usize = 0;
        let ghost entries = self.entries.deep_view();
        assert(entries.take(0) =~= Seq::<(Seq<char>, u64)>::empty());
        while i < self.entries.len()
            invariant
                i <= self.entries@.len(),
                entries == self.entries.deep_view(),
                found == address_of(table_of(entries.take(i as int)), name@),
            decreases self.entries@.len() - i,
        {
            assert(entries.take(i + 1).drop_last() =~= entries.take(i as int));
            assert(entries.take(i + 1).last() == entries[i as int]);
            if same_text(self.entries[i].0.as_str(), name) {
                found = Some(self.entries[i].1);
            }
            i += 1;
        }
        assert(entries.take(i as int) =~= entries);
        found
    }
}

} // verus!
