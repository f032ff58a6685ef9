use std::collections::HashMap;
use vstd::prelude::*;

use crate::types::{released, DepositLedger};

verus! {

broadcast use vstd::std_specs::hash::group_hash_axioms;

/// An in-memory deposit ledger: each account has a free and a reserved
/// balance, and reserving moves funds from the first to the second.
pub struct MemoryLedger {
    free: HashMap<u64, u64>,
    held: HashMap<u64, u64>,
}

/// The balance `m` records for `who`, zero where it records none.
pub open spec fn balance_in(m: Map<u64, u64>, who: u64) -> nat {
    if m.contains_key(who) {
        m[who] as nat
    } else {
        0
    }
}

/// Reads the balance of `who` from `m`.
fn read_balance(m: &HashMap<u64, u64>, who: u64) -> (r: u64)
    ensures
        r == balance_in(m@, who),
{
    match m.get(&who) {
        Some(v) => *v,
        None => 0,
    }
}

impl MemoryLedger {
    /// The free balance of `who`.
    pub closed spec fn free_of(&self, who: u64) -> nat {
        balance_in(self.free@, who)
    }

    /// The reserved balance of `who`.
    pub closed spec fn held_of(&self, who: u64) -> nat {
        balance_in(self.held@, who)
    }

    /// A ledger where every balance is zero.
    pub fn new() -> (r: Self)
        ensures
            forall|a: u64| #[trigger] r.free_of(a) == 0 && r.held_of(a) == 0,
    {
        MemoryLedger { free: HashMap::new(), held: HashMap::new() }
    }

    /// Credits `amount` to the free balance of `who`; refused, with nothing
    /// changed, where the balance would overflow.
    pub fn deposit_creating(&mut self, who: u64, amount: u64) -> (r: bool)
        ensures
            r == (old(self).free_of(who) + amount <= u64::MAX),
            forall|a: u64| #[trigger]
                final(self).free_of(a) == old(self).free_of(a) + if r && a == who {
                    amount as nat
                } else {
                    0nat
                },
            forall|a: u64| #[trigger] final(self).held_of(a) == old(self).held_of(a),
    {
        let free = read_balance(&self.free, who);
        if free > u64::MAX - amount {
            return false;
        }
        self.free.insert(who, free + amount);
        true
    }

    /// The free balance of `who`.
    pub fn free_balance(&self, who: u64) -> (r: u64)
        ensures
            r == self.free_of(who),
    {
        read_balance(&self.free, who)
    }

    /// The reserved balance of `who`.
    pub fn reserved_balance(&self, who: u64) -> (r: u64)
        ensures
            r == self.held_of(who),
    {
        read_balance(&self.held, who)
    }
}

impl DepositLedger for MemoryLedger {
    open spec fn reserved(&self, who: u64) -> nat {
        self.held_of(who)
    }

    /// Moves `amount` from the free to the reserved balance of `who`; refused
    /// where the free balance is short or the reserved one would overflow.
    fn reserve(&mut self, who: u64, amount: u64) -> (r: bool) {
        let free = read_balance(&self.free, who);
        let held = read_balance(&self.held, who);
        if free < amount || held > u64::MAX - amount {
            return false;
        }
        self.free.insert(who, free - amount);
        self.held.insert(who, held + amount);
        assert forall|a: u64| #[trigger] self.held_of(a) == old(self).held_of(a) + if a == who {
            amount as nat
        } else {
            0nat
        } by {}
        true
    }

    /// Moves up to `amount` back from the reserved to the free balance of
    /// `who`. A free balance that would overflow stays at its maximum.
    fn unreserve(&mut self, who: u64, amount: u64) {
        let held = read_balance(&self.held, who);
        let moved = if held < amount {
            held
        } else {
            amount
        };
        let free = read_balance(&self.free, who);
        self.held.insert(who, held - moved);
        self.free.insert(who, free.saturating_add(moved));
        assert forall|a: u64| #[trigger] self.held_of(a) == if a == who {
            released(old(self).held_of(a), amount as nat)
        } else {
            old(self).held_of(a)
        } by {}
    }
}

} // verus!
