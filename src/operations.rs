use vstd::prelude::*;

use crate::genome::{blake2_128_of, combine_genomes, combined, random_value, seed_payload};
use crate::registry::Module;
use crate::types::{
    released, CallContext, DepositLedger, Kitty, KittyError, KittyEvent, KITTY_INDEX_MAX,
};

verus! {

/// The genome drawn for `who` in call context `ctx`.
pub open spec fn drawn_genome(ctx: CallContext, who: u64) -> Seq<u8> {
    blake2_128_of(seed_payload(ctx.random_seed@, who, ctx.extrinsic_index))
}

impl Module {
    /// `next` took id `id` from the counter of `self`.
    pub open spec fn issued(&self, next: &Self, id: u32) -> bool {
        &&& id == self.count()
        &&& next.count() == self.count() + 1
    }

    /// What `create` by `who` returns, given whether the deposit was reserved.
    pub open spec fn create_outcome(&self, reserved: bool) -> Result<u32, KittyError> {
        if !reserved {
            Err(KittyError::InsufficientFunds)
        } else if self.count() == KITTY_INDEX_MAX {
            Err(KittyError::CounterExhausted)
        } else {
            Ok(self.count() as u32)
        }
    }

    /// The checks a transfer passes before the recipient's deposit is asked for.
    pub open spec fn transfer_check(&self, who: u64, to: u64, id: u32) -> Result<(), KittyError> {
        if id >= self.count() {
            Err(KittyError::InvalidId)
        } else if self.owner_at(id as int) != who {
            Err(KittyError::NotOwner)
        } else if to == who {
            Err(KittyError::IdenticalAccount)
        } else {
            Ok(())
        }
    }

    /// What `transfer` returns, given whether the recipient's deposit was
    /// reserved.
    pub open spec fn transfer_outcome(&self, who: u64, to: u64, id: u32, reserved: bool) -> Result<
        (),
        KittyError,
    > {
        if self.transfer_check(who, to, id) is Err {
            self.transfer_check(who, to, id)
        } else if !reserved {
            Err(KittyError::InsufficientFunds)
        } else {
            Ok(())
        }
    }

    /// The checks breeding passes before the deposit is asked for. Only the
    /// first parent has to belong to the caller.
    pub open spec fn breed_check(&self, who: u64, p1: u32, p2: u32) -> Result<(), KittyError> {
        if p1 == p2 {
            Err(KittyError::RequireDifferentParent)
        } else if p1 >= self.count() || p2 >= self.count() {
            Err(KittyError::InvalidId)
        } else if self.owner_at(p1 as int) != who {
            Err(KittyError::NotOwner)
        } else {
            Ok(())
        }
    }

    /// What `breed` returns, given whether the deposit was reserved.
    pub open spec fn breed_outcome(&self, who: u64, p1: u32, p2: u32, reserved: bool) -> Result<
        u32,
        KittyError,
    > {
        if self.breed_check(who, p1, p2) is Err {
            Err(self.breed_check(who, p1, p2)->Err_0)
        } else if !reserved {
            Err(KittyError::InsufficientFunds)
        } else if self.count() == KITTY_INDEX_MAX {
            Err(KittyError::CounterExhausted)
        } else {
            Ok(self.count() as u32)
        }
    }

    /// `self` is `prev` with one more kitty, the next id, owned by `who`, with
    /// genome `genome`, bred from `p1` and `p2`.
    pub open spec fn bred(&self, prev: &Self, who: u64, genome: Seq<u8>, p1: u32, p2: u32) -> bool {
        let n = prev.count() as int;
        &&& self.deposit() == prev.deposit()
        &&& self.count() == n + 1
        &&& self.genome_at(n) == genome
        &&& self.owner_at(n) == who
        &&& self.parents_at(n) == seq![p1, p2]
        &&& self.children_at(n) == Seq::<u32>::empty()
        &&& forall|i: int| 0 <= i < n ==> #[trigger] self.genome_at(i) == prev.genome_at(i)
        &&& forall|i: int| 0 <= i < n ==> #[trigger] self.owner_at(i) == prev.owner_at(i)
        &&& forall|i: int| 0 <= i < n ==> #[trigger] self.parents_at(i) == prev.parents_at(i)
        &&& forall|i: int|
            0 <= i < n ==> #[trigger] self.children_at(i) == if i == p1 || i == p2 {
                prev.children_at(i).push(n as u32)
            } else {
                prev.children_at(i)
            }
        &&& forall|a: u64|
            #[trigger] self.owned_by(a) == if a == who {
                prev.owned_by(a).push(n as u32)
            } else {
                prev.owned_by(a)
            }
    }

    /// Creation once the ledger has answered: with the deposit reserved and
    /// an id left, stores a kitty with genome `dna` under the next id, owned
    /// by `who`, and emits `Created`. Otherwise changes nothing.
    pub fn apply_create(&mut self, who: u64, reserved: bool, dna: [u8; 16]) -> (r: Result<
        u32,
        KittyError,
    >)
        requires
            old(self).wf(),
        ensures
            final(self).wf(),
            r == old(self).create_outcome(reserved),
            match r {
                Ok(id) => {
                    &&& old(self).issued(final(self), id)
                    &&& final(self).extends(old(self), who, dna@)
                    &&& final(self).event_log() == old(self).event_log().push(
                        KittyEvent::Created(who, id),
                    )
                },
                Err(_) => *final(self) == *old(self),
            },
    {
        if !reserved {
            return Err(KittyError::InsufficientFunds);
        }
        let id = match self.next_kitty_id() {
            Ok(id) => id,
            Err(e) => {
                return Err(e);
            },
        };
        let ghost prev = *self;
        let id = self.insert_kitty(who, Kitty(dna));
        let ghost mid = *self;
        self.deposit_event(KittyEvent::Created(who, id));
        assert(self.extends(&prev, who, dna@)) by {
            assert forall|a: u64| #[trigger] self.owned_by(a) == mid.owned_by(a) by {}
        }
        Ok(id)
    }

    /// Creates a kitty for `who`: reserves the deposit, takes the next id,
    /// draws the genome from `ctx` and stores the kitty. On a refusal the
    /// registry is unchanged and any deposit reserved here is released.
    pub fn create<L: DepositLedger>(&mut self, ledger: &mut L, who: u64, ctx: &CallContext) -> (r:
        Result<u32, KittyError>)
        requires
            old(self).wf(),
        ensures
            final(self).wf(),
            r == old(self).create_outcome(true) || r == old(self).create_outcome(false),
            match r {
                Ok(id) => {
                    &&& old(self).issued(final(self), id)
                    &&& final(self).extends(old(self), who, drawn_genome(*ctx, who))
                    &&& final(self).event_log() == old(self).event_log().push(
                        KittyEvent::Created(who, id),
                    )
                },
                Err(_) => *final(self) == *old(self),
            },
            old(self).count() <= final(self).count(),
            r is Ok ==> forall|a: u64| #[trigger]
                final(ledger).reserved(a) == old(ledger).reserved(a) + if a == who {
                    old(self).deposit() as nat
                } else {
                    0nat
                },
            r is Err ==> forall|a: u64| #[trigger]
                final(ledger).reserved(a) == old(ledger).reserved(a),
            r == Err::<u32, KittyError>(KittyError::InsufficientFunds) ==> *final(ledger) == *old(
                ledger,
            ),
    {
        let amount = self.reserve_amount();
        let reserved = ledger.reserve(who, amount);
        let dna = random_value(&ctx.random_seed, who, ctx.extrinsic_index);
        let r = self.apply_create(who, reserved, dna);
        if reserved && r.is_err() {
            ledger.unreserve(who, amount);
        }
        r
    }

    /// The checks a transfer passes before any deposit moves.
    pub fn check_transfer(&self, who: u64, to: u64, id: u32) -> (r: Result<(), KittyError>)
        requires
            self.wf(),
        ensures
            r == self.transfer_check(who, to, id),
    {
        match self.kitty_owner(id) {
            None => Err(KittyError::InvalidId),
            Some(owner) => {
                if owner != who {
                    Err(KittyError::NotOwner)
                } else if to == who {
                    Err(KittyError::IdenticalAccount)
                } else {
                    Ok(())
                }
            },
        }
    }

    /// A transfer once the ledger has answered for the recipient's deposit:
    /// when the checks pass and it was reserved, kitty `id` goes from `who` to
    /// `to` and `Transferred` is emitted. Otherwise nothing changes.
    pub fn apply_transfer(&mut self, who: u64, to: u64, id: u32, reserved: bool) -> (r: Result<
        (),
        KittyError,
    >)
        requires
            old(self).wf(),
        ensures
            final(self).wf(),
            r == old(self).transfer_outcome(who, to, id, reserved),
            match r {
                Ok(_) => {
                    &&& final(self).moved(old(self), id, who, to)
                    &&& final(self).event_log() == old(self).event_log().push(
                        KittyEvent::Transferred(who, to, id),
                    )
                },
                Err(_) => *final(self) == *old(self),
            },
    {
        match self.check_transfer(who, to, id) {
            Err(e) => {
                return Err(e);
            },
            Ok(_) => {},
        }
        if !reserved {
            return Err(KittyError::InsufficientFunds);
        }
        let ghost prev = *self;
        self.transfer_ownership(id, who, to);
        let ghost mid = *self;
        self.deposit_event(KittyEvent::Transferred(who, to, id));
        assert(self.moved(&prev, id, who, to)) by {
            assert forall|a: u64| #[trigger] self.owned_by(a) == mid.owned_by(a) by {}
            assert(self.owned_by(who) == mid.owned_by(who));
        }
        Ok(())
    }

    /// Transfers kitty `id` from `who` to `to`. After the checks, reserves the
    /// deposit from `to`, and only then releases `who`'s. When the reservation
    /// fails nothing changes.
    pub fn transfer<L: DepositLedger>(&mut self, ledger: &mut L, who: u64, to: u64, id: u32) -> (r:
        Result<(), KittyError>)
        requires
            old(self).wf(),
        ensures
            final(self).wf(),
            r == old(self).transfer_outcome(who, to, id, true) || r == old(
                self,
            ).transfer_outcome(who, to, id, false),
            match r {
                Ok(_) => {
                    &&& final(self).moved(old(self), id, who, to)
                    &&& final(self).event_log() == old(self).event_log().push(
                        KittyEvent::Transferred(who, to, id),
                    )
                },
                Err(_) => *final(self) == *old(self),
            },
            old(self).count() <= final(self).count(),
            r is Ok ==> forall|a: u64| #[trigger]
                final(ledger).reserved(a) == if a == to {
                    old(ledger).reserved(a) + old(self).deposit() as nat
                } else if a == who {
                    released(old(ledger).reserved(a), old(self).deposit() as nat)
                } else {
                    old(ledger).reserved(a)
                },
            r is Err ==> *final(ledger) == *old(ledger),
    {
        match self.check_transfer(who, to, id) {
            Err(e) => {
                return Err(e);
            },
            Ok(_) => {},
        }
        let amount = self.reserve_amount();
        let reserved = ledger.reserve(to, amount);
        let r = self.apply_transfer(who, to, id, reserved);
        if r.is_ok() {
            ledger.unreserve(who, amount);
        }
        r
    }

    /// The checks breeding passes before any deposit moves.
    pub fn check_breed(&self, who: u64, p1: u32, p2: u32) -> (r: Result<(), KittyError>)
        requires
            self.wf(),
        ensures
            r == self.breed_check(who, p1, p2),
    {
        if p1 == p2 {
            return Err(KittyError::RequireDifferentParent);
        }
        if p1 >= self.kitties_count() || p2 >= self.kitties_count() {
            return Err(KittyError::InvalidId);
        }
        if self.owner_of_existing(p1) != who {
            Err(KittyError::NotOwner)
        } else {
            Ok(())
        }
    }

    /// Breeding once the ledger has answered: when the checks pass, the
    /// deposit was reserved and an id is left, stores under the next id a
    /// kitty owned by `who` whose genome mixes the parents' with `selector`,
    /// records its lineage and emits `Breed`. Otherwise nothing changes.
    pub fn apply_breed(&mut self, who: u64, p1: u32, p2: u32, reserved: bool, selector: [u8; 16]) -> (r:
        Result<u32, KittyError>)
        requires
            old(self).wf(),
        ensures
            final(self).wf(),
            r == old(self).breed_outcome(who, p1, p2, reserved),
            match r {
                Ok(id) => {
                    &&& old(self).issued(final(self), id)
                    &&& final(self).bred(
                        old(self),
                        who,
                        combined(
                            old(self).genome_at(p1 as int),
                            old(self).genome_at(p2 as int),
                            selector@,
                        ),
                        p1,
                        p2,
                    )
                    &&& final(self).event_log() == old(self).event_log().push(
                        KittyEvent::Breed(who, p1, p2, id),
                    )
                },
                Err(_) => *final(self) == *old(self),
            },
    {
        match self.check_breed(who, p1, p2) {
            Err(e) => {
                return Err(e);
            },
            Ok(_) => {},
        }
        if !reserved {
            return Err(KittyError::InsufficientFunds);
        }
        match self.next_kitty_id() {
            Ok(_) => {},
            Err(e) => {
                return Err(e);
            },
        }
        let k1 = self.kitty_at(p1);
        let k2 = self.kitty_at(p2);
        let dna = combine_genomes(&k1.0, &k2.0, &selector);
        let ghost prev = *self;
        let id = self.insert_kitty(who, Kitty(dna));
        let ghost mid1 = *self;
        self.record_breeding(id, p1, p2);
        let ghost mid2 = *self;
        self.deposit_event(KittyEvent::Breed(who, p1, p2, id));
        proof {
            let g = combined(prev.genome_at(p1 as int), prev.genome_at(p2 as int), selector@);
            assert(dna@ == g);
            assert forall|a: u64| #[trigger] self.owned_by(a) == if a == who {
                prev.owned_by(a).push(id)
            } else {
                prev.owned_by(a)
            } by {
                assert(self.owned_by(a) == mid2.owned_by(a));
                assert(mid2.owned_by(a) == mid1.owned_by(a));
            }
            assert forall|i: int| 0 <= i < prev.count() implies #[trigger] self.children_at(i)
                == if i == p1 || i == p2 {
                prev.children_at(i).push(id)
            } else {
                prev.children_at(i)
            } by {
                assert(self.children_at(i) == mid2.children_at(i));
                assert(mid2.children_at(i) == if i == p1 || i == p2 {
                    mid1.children_at(i).push(id)
                } else {
                    mid1.children_at(i)
                });
                assert(mid1.children_at(i) == prev.children_at(i));
            }
            assert forall|i: int| 0 <= i < prev.count() implies #[trigger] self.parents_at(i)
                == prev.parents_at(i) by {
                assert(self.parents_at(i) == mid2.parents_at(i));
                assert(mid2.parents_at(i) == mid1.parents_at(i));
            }
            assert forall|i: int| 0 <= i < prev.count() implies #[trigger] self.genome_at(i)
                == prev.genome_at(i) by {
                assert(self.genome_at(i) == mid2.genome_at(i));
                assert(mid2.genome_at(i) == mid1.genome_at(i));
            }
            assert forall|i: int| 0 <= i < prev.count() implies #[trigger] self.owner_at(i)
                == prev.owner_at(i) by {
                assert(self.owner_at(i) == mid2.owner_at(i));
                assert(mid2.owner_at(i) == mid1.owner_at(i));
            }
            assert(self.genome_at(id as int) == mid2.genome_at(id as int));
            assert(self.owner_at(id as int) == mid2.owner_at(id as int));
            assert(self.parents_at(id as int) == mid2.parents_at(id as int));
            assert(self.children_at(id as int) == mid2.children_at(id as int));
            assert(mid2.children_at(id as int) == mid1.children_at(id as int));
        }
        Ok(id)
    }

    /// Breeds a new kitty for `who` from `p1` and `p2`. After the checks,
    /// reserves the deposit, draws the selector mask from `ctx`, and stores
    /// the child. On a refusal the registry is unchanged and any deposit
    /// reserved here is released.
    pub fn breed<L: DepositLedger>(
        &mut self,
        ledger: &mut L,
        who: u64,
        p1: u32,
        p2: u32,
        ctx: &CallContext,
    ) -> (r: Result<u32, KittyError>)
        requires
            old(self).wf(),
        ensures
            final(self).wf(),
            r == old(self).breed_outcome(who, p1, p2, true) || r == old(self).breed_outcome(
                who,
                p1,
                p2,
                false,
            ),
            match r {
                Ok(id) => {
                    &&& old(self).issued(final(self), id)
                    &&& final(self).bred(
                        old(self),
                        who,
                        combined(
                            old(self).genome_at(p1 as int),
                            old(self).genome_at(p2 as int),
                            drawn_genome(*ctx, who),
                        ),
                        p1,
                        p2,
                    )
                    &&& final(self).event_log() == old(self).event_log().push(
                        KittyEvent::Breed(who, p1, p2, id),
                    )
                },
                Err(_) => *final(self) == *old(self),
            },
            old(self).count() <= final(self).count(),
            r is Ok ==> forall|a: u64| #[trigger]
                final(ledger).reserved(a) == old(ledger).reserved(a) + if a == who {
                    old(self).deposit() as nat
                } else {
                    0nat
                },
            r is Err ==> forall|a: u64| #[trigger]
                final(ledger).reserved(a) == old(ledger).reserved(a),
            (r == Err::<u32, KittyError>(KittyError::InsufficientFunds) || old(self).breed_check(who, p1, p2) is Err) ==> *final(ledger) == *old(
                ledger,
            ),
    {
        match self.check_breed(who, p1, p2) {
            Err(e) => {
                return Err(e);
            },
            Ok(_) => {},
        }
        let amount = self.reserve_amount();
        let reserved = ledger.reserve(who, amount);
        let selector = random_value(&ctx.random_seed, who, ctx.extrinsic_index);
        let r = self.apply_breed(who, p1, p2, reserved, selector);
        if reserved && r.is_err() {
            ledger.unreserve(who, amount);
        }
        r
    }
}

} // verus!
