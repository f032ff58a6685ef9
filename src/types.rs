use vstd::prelude::*;

verus! {

/// The largest id the counter can reach; once it gets there no more kitties
/// can be created.
pub const KITTY_INDEX_MAX: u32 = 0xffff_ffff;

/// A collectible: its 16-byte genome. Immutable once created.
#[derive(Clone, Copy, Debug, PartialEq, Eq)]
pub struct Kitty(pub [u8; 16]);

/// Why an operation was refused. A refused operation changes nothing.
#[derive(Clone, Copy, Debug, PartialEq, Eq, Structural)]
pub enum KittyError {
    /// The id counter is at its maximum.
    CounterExhausted,
    /// The referenced kitty does not exist.
    InvalidId,
    /// Breeding was asked with the same kitty as both parents.
    RequireDifferentParent,
    /// The caller does not own the referenced kitty.
    NotOwner,
    /// A transfer names the caller as the recipient.
    IdenticalAccount,
    /// The deposit could not be reserved.
    InsufficientFunds,
}

/// Notifications emitted by successful operations.
#[derive(Clone, Copy, Debug, PartialEq, Eq, Structural)]
pub enum KittyEvent {
    /// `Created(owner, id)`
    Created(u64, u32),
    /// `Transferred(from, to, id)`
    Transferred(u64, u64, u32),
    /// `Breed(owner, parent1, parent2, child)`
    Breed(u64, u32, u32, u32),
}

/// The context in which one call runs: the chain's random seed and the index
/// of the call within its block, which together seed a new genome.
#[derive(Clone, Copy, Debug)]
pub struct CallContext {
    pub random_seed: [u8; 32],
    pub extrinsic_index: Option<u32>,
}

/// What remains reserved of `held` after a best-effort release of `amount`:
/// never below zero.
pub open spec fn released(held: nat, amount: nat) -> nat {
    if held >= amount {
        (held - amount) as nat
    } else {
        0
    }
}

/// The ledger that holds deposits, supplied by the embedding runtime.
/// Reserving is all-or-nothing and says whether it happened; unreserving is
/// best-effort and releases at most what is reserved.
pub trait DepositLedger: Sized {
    /// The amount currently reserved from `who`.
    spec fn reserved(&self, who: u64) -> nat;

    fn reserve(&mut self, who: u64, amount: u64) -> (r: bool)
        ensures
            forall|a: u64| #[trigger]
                final(self).reserved(a) == old(self).reserved(a) + if r && a == who {
                    amount as nat
                } else {
                    0nat
                },
            !r ==> *final(self) == *old(self),
    ;

    fn unreserve(&mut self, who: u64, amount: u64)
        ensures
            forall|a: u64| #[trigger]
                final(self).reserved(a) == if a == who {
                    released(old(self).reserved(a), amount as nat)
                } else {
                    old(self).reserved(a)
                },
    ;
}

} // verus!
