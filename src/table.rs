use vstd::prelude::*;
use std::collections::HashMap;

verus! {

broadcast use vstd::std_specs::hash::group_hash_axioms;

/// The value stored for `a`, where an address never observed reads as 0.
pub open spec fn stored_value(m: Map<u16, u16>, a: u16) -> u16 {
    if m.contains_key(a) {
        m[a]
    } else {
        0
    }
}

/// The last value observed at each register address.
#[derive(Debug)]
pub struct LastValueTable {
    values: HashMap<u16, u16>,
}

impl View for LastValueTable {
    type V = Map<u16, u16>;

    closed spec fn view(&self) -> Map<u16, u16> {
        self.values@
    }
}

impl LastValueTable {
    /// A table with no observation yet.
    pub fn new() -> (t: LastValueTable)
        ensures
            t@ == Map::<u16, u16>::empty(),
    {
        LastValueTable { values: HashMap::new() }
    }

    /// The value last observed at `address`, 0 where there is none.
    pub fn get(&self, address: u16) -> (v: u16)
        ensures
            v == stored_value(self@, address),
    {
        match self.values.get(&address) {
            Some(v) => *v,
            None => 0,
        }
    }

    /// Whether `address` has been observed.
    pub fn contains(&self, address: u16) -> (b: bool)
        ensures
            b == self@.contains_key(address),
    {
        self.values.contains_key(&address)
    }

    /// The number of addresses observed.
    pub fn len(&self) -> (n: usize)
        ensures
            n == self@.len(),
    {
        proof {
            assert(self@.dom().finite());
        }
        self.values.len()
    }

    /// Stores `value` as the last observation at `address`.
    pub fn record(&mut self, address: u16, value: u16)
        ensures
            final(self)@ == old(self)@.insert(address, value),
    {
        self.values.insert(address, value);
    }
}

} // verus!
