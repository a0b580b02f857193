//! The symbol table: the names that labels and aliases bind, each with its
//! 32-bit value.

use vstd::prelude::*;
use vstd::hash_map::StringHashMap;

verus! {

/// A mapping from symbol names to values. Names are case-sensitive; a name
/// that is bound again takes the new value.
pub struct SymbolTable {
    map: StringHashMap<u32>,
}

impl View for SymbolTable {
    type V = Map<Seq<char>, u32>;

    closed spec fn view(&self) -> Map<Seq<char>, u32> {
        self.map@
    }
}

impl SymbolTable {
    /// The table that binds no name.
    pub fn new() -> (table: Self)
        ensures
            table@ == Map::<Seq<char>, u32>::empty(),
    {
        SymbolTable { map: StringHashMap::new() }
    }

    /// Binds `name` to `value`; an earlier binding of `name` is lost.
    pub fn insert(&mut self, name: String, value: u32)
        ensures
            final(self)@ == old(self)@.insert(name@, value),
    {
        self.map.insert(name, value);
    }

    /// The value that `name` is bound to, if it is bound.
    pub fn get(&self, name: &str) -> (value: Option<u32>)
        ensures
            value == (if self@.contains_key(name@) {
                Some(self@[name@])
            } else {
                None
            }),
    {
        match self.map.get(name) {
            Some(v) => Some(*v),
            None => None,
        }
    }

    /// The number of names that the table binds.
    pub fn len(&self) -> (n: usize)
        ensures
            n == self@.len(),
    {
        self.map.len()
    }
}

/// After a name is bound, looking it up gives the value of the last
/// binding, whatever it was bound to before; every other name keeps its
/// binding.
pub proof fn lemma_rebinding_overwrites(
    table: Map<Seq<char>, u32>,
    name: Seq<char>,
    first: u32,
    second: u32,
    other: Seq<char>,
)
    requires
        other != name,
    ensures
        table.insert(name, first).insert(name, second) == table.insert(name, second),
        table.insert(name, first).insert(name, second)[name] == second,
        table.insert(name, first).insert(name, second).contains_key(other) == table.contains_key(
            other,
        ),
        table.contains_key(other) ==> table.insert(name, first).insert(name, second)[other]
            == table[other],
{
    assert(table.insert(name, first).insert(name, second) =~= table.insert(name, second));
}

} // verus!
