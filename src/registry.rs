use std::collections::HashMap;
use vstd::prelude::*;

use crate::types::{KittyError, KittyEvent, Kitty, KITTY_INDEX_MAX};

verus! {

broadcast use vstd::std_specs::hash::group_hash_axioms;

/// The registry: kitty records, who owns each, each owner's index of ids,
/// lineage, the id counter and the deposit that each kitty holds.
///
/// Ids are handed out densely from zero and never removed, so the records
/// keyed by id are vectors indexed by id.
pub struct Module {
    deposit: u64,
    count: u32,
    kitties: Vec<Kitty>,
    owners: Vec<u64>,
    owned: HashMap<u64, Vec<u32>>,
    parents: Vec<Vec<u32>>,
    children: Vec<Vec<u32>>,
    events: Vec<KittyEvent>,
}

impl Module {
    /// The deposit reserved for each kitty an account holds.
    pub closed spec fn deposit(&self) -> u64 {
        self.deposit
    }

    /// The id counter: how many kitties were ever created.
    pub closed spec fn count(&self) -> nat {
        self.count as nat
    }

    /// The genome of kitty `id`.
    pub closed spec fn genome_at(&self, id: int) -> Seq<u8> {
        self.kitties@[id].0@
    }

    /// The owner of kitty `id`.
    pub closed spec fn owner_at(&self, id: int) -> u64 {
        self.owners@[id]
    }

    /// The ids in `who`'s index, empty where none was ever recorded.
    pub closed spec fn owned_by(&self, who: u64) -> Seq<u32> {
        if self.owned@.contains_key(who) {
            self.owned@[who]@
        } else {
            Seq::empty()
        }
    }

    /// The parents of kitty `id`: empty for a kitty that was not bred.
    pub closed spec fn parents_at(&self, id: int) -> Seq<u32> {
        self.parents@[id]@
    }

    /// The children of kitty `id`.
    pub closed spec fn children_at(&self, id: int) -> Seq<u32> {
        self.children@[id]@
    }

    /// The notifications emitted so far, oldest first.
    pub closed spec fn event_log(&self) -> Seq<KittyEvent> {
        self.events@
    }

    /// Every per-id table has one entry per id below the counter.
    pub closed spec fn aligned(&self) -> bool {
        &&& self.kitties@.len() == self.count
        &&& self.owners@.len() == self.count
        &&& self.parents@.len() == self.count
        &&& self.children@.len() == self.count
    }

    /// The registry's invariant.
    pub open spec fn wf(&self) -> bool {
        &&& self.aligned()
        &&& self.count() <= KITTY_INDEX_MAX
        // the owner index lists exactly the kitties of each owner, once each
        &&& forall|a: u64, j: int|
            0 <= j < self.owned_by(a).len() ==> {
                &&& (#[trigger] self.owned_by(a)[j] as nat) < self.count()
                &&& self.owner_at(self.owned_by(a)[j] as int) == a
            }
        &&& forall|i: int|
            0 <= i < self.count() ==> #[trigger] self.owned_by(self.owner_at(i)).contains(
                i as u32,
            )
        &&& forall|a: u64| #[trigger] self.owned_by(a).no_duplicates()
        // a bred kitty has two different parents, both older than itself
        &&& forall|i: int|
            0 <= i < self.count() ==> {
                ||| #[trigger] self.parents_at(i).len() == 0
                ||| {
                    &&& self.parents_at(i).len() == 2
                    &&& self.parents_at(i)[0] < i
                    &&& self.parents_at(i)[1] < i
                    &&& self.parents_at(i)[0] != self.parents_at(i)[1]
                }
            }
        // the child lists are exactly the inverse of the parent lists
        &&& forall|p: int|
            0 <= p < self.count() ==> (#[trigger] self.children_at(p)).no_duplicates()
        &&& forall|p: int, j: int|
            0 <= p < self.count() && 0 <= j < self.children_at(p).len() ==> {
                &&& (#[trigger] self.children_at(p)[j] as nat) < self.count()
                &&& self.parents_at(self.children_at(p)[j] as int).contains(p as u32)
            }
        &&& forall|c: int, k: int|
            0 <= c < self.count() && 0 <= k < self.parents_at(c).len()
                ==> self.children_at(#[trigger] self.parents_at(c)[k] as int).contains(c as u32)
    }

    /// Everything but the event log is the same in `self` and `other`.
    pub open spec fn same_records(&self, other: &Self) -> bool {
        &&& self.deposit() == other.deposit()
        &&& self.count() == other.count()
        &&& forall|i: int| 0 <= i < self.count() ==> #[trigger] self.genome_at(i) == other.genome_at(i)
        &&& forall|i: int| 0 <= i < self.count() ==> #[trigger] self.owner_at(i) == other.owner_at(i)
        &&& forall|i: int|
            0 <= i < self.count() ==> #[trigger] self.parents_at(i) == other.parents_at(i)
        &&& forall|i: int|
            0 <= i < self.count() ==> #[trigger] self.children_at(i) == other.children_at(i)
        &&& forall|a: u64| #[trigger] self.owned_by(a) == other.owned_by(a)
    }

    /// `self` is `prev` with one more kitty, the next id, owned by `who`, with
    /// genome `genome` and no lineage yet.
    pub open spec fn extends(&self, prev: &Self, who: u64, genome: Seq<u8>) -> bool {
        let n = prev.count() as int;
        &&& self.deposit() == prev.deposit()
        &&& self.count() == n + 1
        &&& self.genome_at(n) == genome
        &&& self.owner_at(n) == who
        &&& self.parents_at(n) == Seq::<u32>::empty()
        &&& self.children_at(n) == Seq::<u32>::empty()
        &&& forall|i: int| 0 <= i < n ==> #[trigger] self.genome_at(i) == prev.genome_at(i)
        &&& forall|i: int| 0 <= i < n ==> #[trigger] self.owner_at(i) == prev.owner_at(i)
        &&& forall|i: int| 0 <= i < n ==> #[trigger] self.parents_at(i) == prev.parents_at(i)
        &&& forall|i: int| 0 <= i < n ==> #[trigger] self.children_at(i) == prev.children_at(i)
        &&& forall|a: u64|
            #[trigger] self.owned_by(a) == if a == who {
                prev.owned_by(a).push(n as u32)
            } else {
                prev.owned_by(a)
            }
    }

    /// `self` is `prev` with kitty `id` moved from `from`'s index to the end of
    /// `to`'s, and its owner set to `to`.
    pub open spec fn moved(&self, prev: &Self, id: u32, from: u64, to: u64) -> bool {
        &&& self.deposit() == prev.deposit()
        &&& self.count() == prev.count()
        &&& self.owner_at(id as int) == to
        &&& forall|i: int| 0 <= i < self.count() ==> #[trigger] self.genome_at(i) == prev.genome_at(i)
        &&& forall|i: int|
            0 <= i < self.count() && i != id ==> #[trigger] self.owner_at(i) == prev.owner_at(i)
        &&& forall|i: int|
            0 <= i < self.count() ==> #[trigger] self.parents_at(i) == prev.parents_at(i)
        &&& forall|i: int|
            0 <= i < self.count() ==> #[trigger] self.children_at(i) == prev.children_at(i)
        &&& exists|k: int|
            0 <= k < prev.owned_by(from).len() && prev.owned_by(from)[k] == id
                && self.owned_by(from) == prev.owned_by(from).remove(k)
        &&& self.owned_by(to) == prev.owned_by(to).push(id)
        &&& forall|a: u64| a != from && a != to ==> #[trigger] self.owned_by(a) == prev.owned_by(a)
    }

    /// `self` is `prev` with kitty `child` recorded as bred from `p1` and `p2`.
    pub open spec fn lineage_added(&self, prev: &Self, child: u32, p1: u32, p2: u32) -> bool {
        &&& self.deposit() == prev.deposit()
        &&& self.count() == prev.count()
        &&& self.parents_at(child as int) == seq![p1, p2]
        &&& forall|i: int| 0 <= i < self.count() ==> #[trigger] self.genome_at(i) == prev.genome_at(i)
        &&& forall|i: int| 0 <= i < self.count() ==> #[trigger] self.owner_at(i) == prev.owner_at(i)
        &&& forall|i: int|
            0 <= i < self.count() && i != child ==> #[trigger] self.parents_at(i)
                == prev.parents_at(i)
        &&& forall|i: int|
            0 <= i < self.count() ==> #[trigger] self.children_at(i) == if i == p1 || i == p2 {
                prev.children_at(i).push(child)
            } else {
                prev.children_at(i)
            }
        &&& forall|a: u64| #[trigger] self.owned_by(a) == prev.owned_by(a)
    }

    /// An empty registry whose kitties each hold `deposit`.
    pub fn new(deposit: u64) -> (r: Self)
        ensures
            r.wf(),
            r.deposit() == deposit,
            r.count() == 0,
            r.event_log() == Seq::<KittyEvent>::empty(),
            forall|a: u64| #[trigger] r.owned_by(a) == Seq::<u32>::empty(),
    {
        Module {
            deposit,
            count: 0,
            kitties: Vec::new(),
            owners: Vec::new(),
            owned: HashMap::new(),
            parents: Vec::new(),
            children: Vec::new(),
            events: Vec::new(),
        }
    }

    /// The deposit reserved for each kitty an account holds.
    pub fn reserve_amount(&self) -> (r: u64)
        ensures
            r == self.deposit(),
    {
        self.deposit
    }

    /// How many kitties were ever created; also the next id to hand out.
    pub fn kitties_count(&self) -> (r: u32)
        ensures
            r == self.count(),
    {
        self.count
    }

    /// The kitty with id `id`, if it exists.
    pub fn kitties(&self, id: u32) -> (r: Option<Kitty>)
        requires
            self.wf(),
        ensures
            match r {
                Some(k) => id < self.count() && k.0@ == self.genome_at(id as int),
                None => id >= self.count(),
            },
    {
        if id < self.count {
            Some(self.kitties[id as usize])
        } else {
            None
        }
    }

    /// The record of kitty `id`, which exists.
    pub(crate) fn kitty_at(&self, id: u32) -> (r: Kitty)
        requires
            self.wf(),
            id < self.count(),
        ensures
            r.0@ == self.genome_at(id as int),
    {
        self.kitties[id as usize]
    }

    /// The owner of kitty `id`, which exists.
    pub(crate) fn owner_of_existing(&self, id: u32) -> (r: u64)
        requires
            self.wf(),
            id < self.count(),
        ensures
            r == self.owner_at(id as int),
    {
        self.owners[id as usize]
    }

    /// The owner of kitty `id`, if it exists.
    pub fn kitty_owner(&self, id: u32) -> (r: Option<u64>)
        requires
            self.wf(),
        ensures
            r == if id < self.count() {
                Some(self.owner_at(id as int))
            } else {
                None::<u64>
            },
    {
        if id < self.count {
            Some(self.owners[id as usize])
        } else {
            None
        }
    }

    /// The ids that `who` owns, in the order they were acquired.
    pub fn owned_kitties(&self, who: u64) -> (r: Vec<u32>)
        ensures
            r@ == self.owned_by(who),
    {
        match self.owned.get(&who) {
            Some(v) => copy_ids(v),
            None => Vec::new(),
        }
    }

    /// The parents of kitty `id`: empty for a kitty that was not bred, or one
    /// that does not exist.
    pub fn kitty_parents(&self, id: u32) -> (r: Vec<u32>)
        requires
            self.wf(),
        ensures
            r@ == if id < self.count() {
                self.parents_at(id as int)
            } else {
                Seq::<u32>::empty()
            },
    {
        if id < self.count {
            copy_ids(&self.parents[id as usize])
        } else {
            Vec::new()
        }
    }

    /// The children of kitty `id`: empty where none was bred from it, or it
    /// does not exist.
    pub fn kitty_children(&self, id: u32) -> (r: Vec<u32>)
        requires
            self.wf(),
        ensures
            r@ == if id < self.count() {
                self.children_at(id as int)
            } else {
                Seq::<u32>::empty()
            },
    {
        if id < self.count {
            copy_ids(&self.children[id as usize])
        } else {
            Vec::new()
        }
    }

    /// The notifications emitted so far, oldest first.
    pub fn events(&self) -> (r: Vec<KittyEvent>)
        ensures
            r@ == self.event_log(),
    {
        let mut r: Vec<KittyEvent> = Vec::new();
        let mut i: usize = 0;
        while i < self.events.len()
            invariant
                i <= self.events@.len(),
                r@ == self.events@.subrange(0, i as int),
            decreases self.events@.len() - i,
        {
            r.push(self.events[i]);
            i = i + 1;
            assert(r@ =~= self.events@.subrange(0, i as int));
        }
        assert(r@ =~= self.events@);
        r
    }

    /// The latest notification, if any.
    pub fn last_event(&self) -> (r: Option<KittyEvent>)
        ensures
            r == if self.event_log().len() == 0 {
                None::<KittyEvent>
            } else {
                Some(self.event_log().last())
            },
    {
        if self.events.len() == 0 {
            None
        } else {
            Some(self.events[self.events.len() - 1])
        }
    }

    /// The id the next kitty gets, or `CounterExhausted` when the counter is
    /// at its maximum. Takes nothing: the counter moves only when a kitty is
    /// inserted.
    pub fn next_kitty_id(&self) -> (r: Result<u32, KittyError>)
        ensures
            r == if self.count() == KITTY_INDEX_MAX {
                Err::<u32, KittyError>(KittyError::CounterExhausted)
            } else {
                Ok::<u32, KittyError>(self.count() as u32)
            },
    {
        if self.count == KITTY_INDEX_MAX {
            Err(KittyError::CounterExhausted)
        } else {
            Ok(self.count)
        }
    }

    /// Stores `kitty` under the next id, owned by `who`, and moves the counter
    /// past it. Returns the id.
    pub(crate) fn insert_kitty(&mut self, who: u64, kitty: Kitty) -> (id: u32)
        requires
            old(self).wf(),
            old(self).count() < KITTY_INDEX_MAX,
        ensures
            final(self).wf(),
            id == old(self).count(),
            final(self).extends(old(self), who, kitty.0@),
            final(self).event_log() == old(self).event_log(),
    {
        let id = self.count;
        self.kitties.push(kitty);
        self.owners.push(who);
        self.parents.push(Vec::new());
        self.children.push(Vec::new());
        self.count = id + 1;
        let ghost before = self.owned@;
        let mut ids = match self.owned.remove(&who) {
            Some(v) => v,
            None => Vec::new(),
        };
        proof {
            assert(ids@ == old(self).owned_by(who));
            assert(!ids@.contains(id)) by {
                if ids@.contains(id) {
                    let j = choose|j: int| 0 <= j < ids@.len() && ids@[j] == id;
                    assert(0 <= j < old(self).owned_by(who).len());
                }
            }
        }
        ids.push(id);
        self.owned.insert(who, ids);
        proof {
            assert forall|i: int| 0 <= i < id implies #[trigger] self.parents_at(i)
                == old(self).parents_at(i) by {}
            assert(self.owned@ == before.insert(who, self.owned@[who]));
            assert forall|a: u64|
                #[trigger] self.owned_by(a) == if a == who {
                    old(self).owned_by(a).push(id)
                } else {
                    old(self).owned_by(a)
                } by {
                if a != who {
                    assert(self.owned@.contains_key(a) == old(self).owned@.contains_key(a));
                }
            }
            assert forall|a: u64| #[trigger] self.owned_by(a).no_duplicates() by {
                if a == who {
                    assert(old(self).owned_by(a).no_duplicates());
                }
            }
            assert forall|i: int|
                0 <= i < self.count() implies #[trigger] self.owned_by(
                self.owner_at(i),
            ).contains(i as u32) by {
                if i < id {
                    assert(old(self).owned_by(old(self).owner_at(i)).contains(i as u32));
                    let a = self.owner_at(i);
                    if a == who {
                        let j = choose|j: int|
                            0 <= j < old(self).owned_by(a).len() && old(self).owned_by(a)[j]
                                == i as u32;
                        assert(self.owned_by(a)[j] == i as u32);
                    }
                } else {
                    assert(self.owned_by(who)[self.owned_by(who).len() - 1] == id);
                }
            }
            assert forall|a: u64, j: int| 0 <= j < self.owned_by(a).len() implies {
                &&& (#[trigger] self.owned_by(a)[j] as nat) < self.count()
                &&& self.owner_at(self.owned_by(a)[j] as int) == a
            } by {
                if a == who && j == self.owned_by(a).len() - 1 {
                } else {
                    assert(self.owned_by(a)[j] == old(self).owned_by(a)[j]);
                }
            }
            assert forall|p: int, j: int|
                0 <= p < self.count() && 0 <= j < self.children_at(p).len() implies {
                &&& (#[trigger] self.children_at(p)[j] as nat) < self.count()
                &&& self.parents_at(self.children_at(p)[j] as int).contains(p as u32)
            } by {
                assert(p < id);
                assert(old(self).children_at(p) == self.children_at(p));
            }
        }
        id
    }

    /// Moves kitty `id` from `from` to `to`: its owner becomes `to`, it leaves
    /// `from`'s index and is appended to `to`'s.
    pub(crate) fn transfer_ownership(&mut self, id: u32, from: u64, to: u64)
        requires
            old(self).wf(),
            id < old(self).count(),
            old(self).owner_at(id as int) == from,
            from != to,
        ensures
            final(self).wf(),
            final(self).moved(old(self), id, from, to),
            final(self).event_log() == old(self).event_log(),
    {
        assert(self.owned_by(self.owner_at(id as int)).contains(id as int as u32));
        let mut src = match self.owned.remove(&from) {
            Some(v) => v,
            None => Vec::new(),
        };
        let mut k: usize = 0;
        while k < src.len() && src[k] != id
            invariant
                src@ == old(self).owned_by(from),
                src@.contains(id),
                k <= src@.len(),
                forall|j: int| 0 <= j < k ==> src@[j] != id,
            decreases src@.len() - k,
        {
            k = k + 1;
        }
        assert(k < src.len()) by {
            if k >= src.len() {
                let j = choose|j: int| 0 <= j < src@.len() && src@[j] == id;
            }
        }
        src.remove(k);
        self.owned.insert(from, src);
        let mut dst = match self.owned.remove(&to) {
            Some(v) => v,
            None => Vec::new(),
        };
        dst.push(id);
        self.owned.insert(to, dst);
        self.owners.set(id as usize, to);
        proof {
            assert forall|i: int| 0 <= i < self.count() implies #[trigger] self.parents_at(i)
                == old(self).parents_at(i) by {}
            assert forall|i: int| 0 <= i < self.count() implies #[trigger] self.children_at(i)
                == old(self).children_at(i) by {}
            let pf = old(self).owned_by(from);
            let pt = old(self).owned_by(to);
            assert(self.owned_by(from) == pf.remove(k as int));
            assert(self.owned_by(to) == pt.push(id));
            assert forall|a: u64| a != from && a != to implies #[trigger] self.owned_by(a)
                == old(self).owned_by(a) by {
                assert(self.owned@.contains_key(a) == old(self).owned@.contains_key(a));
            }
            assert(!pt.contains(id)) by {
                if pt.contains(id) {
                    let j = choose|j: int| 0 <= j < pt.len() && pt[j] == id;
                    assert(old(self).owner_at(pt[j] as int) == to);
                }
            }
            assert forall|a: u64| #[trigger] self.owned_by(a).no_duplicates() by {
                if a == from {
                    assert(pf.no_duplicates());
                    assert forall|x: int, y: int|
                        0 <= x < self.owned_by(a).len() && 0 <= y < self.owned_by(a).len() && x
                            != y implies self.owned_by(a)[x] != self.owned_by(a)[y] by {
                        let x0 = if x < k { x } else { x + 1 };
                        let y0 = if y < k { y } else { y + 1 };
                        assert(self.owned_by(a)[x] == pf[x0]);
                        assert(self.owned_by(a)[y] == pf[y0]);
                    }
                } else if a == to {
                    assert(pt.no_duplicates());
                } else {
                    assert(old(self).owned_by(a).no_duplicates());
                }
            }
            assert forall|a: u64, j: int| 0 <= j < self.owned_by(a).len() implies {
                &&& (#[trigger] self.owned_by(a)[j] as nat) < self.count()
                &&& self.owner_at(self.owned_by(a)[j] as int) == a
            } by {
                if a == from {
                    let j0 = if j < k { j } else { j + 1 };
                    assert(self.owned_by(a)[j] == pf[j0]);
                    assert(pf[j0] != id) by {
                        assert(pf.no_duplicates());
                        assert(pf[k as int] == id);
                    }
                } else if a == to {
                    if j < pt.len() {
                        assert(self.owned_by(a)[j] == pt[j]);
                    }
                } else {
                    assert(self.owned_by(a)[j] == old(self).owned_by(a)[j]);
                    assert(old(self).owner_at(old(self).owned_by(a)[j] as int) == a);
                }
            }
            assert forall|i: int|
                0 <= i < self.count() implies #[trigger] self.owned_by(
                self.owner_at(i),
            ).contains(i as u32) by {
                if i == id {
                    assert(self.owned_by(to)[pt.len() as int] == id);
                } else {
                    let a = old(self).owner_at(i);
                    assert(old(self).owned_by(a).contains(i as u32));
                    let j = choose|j: int|
                        0 <= j < old(self).owned_by(a).len() && old(self).owned_by(a)[j]
                            == i as u32;
                    if a == from {
                        assert(j != k);
                        let j1 = if j < k { j } else { j - 1 };
                        assert(self.owned_by(a)[j1] == i as u32);
                    } else if a == to {
                        assert(self.owned_by(a)[j] == i as u32);
                    } else {
                        assert(self.owned_by(a)[j] == i as u32);
                    }
                }
            }
            assert(exists|k0: int|
                0 <= k0 < pf.len() && pf[k0] == id && self.owned_by(from) == pf.remove(k0)) by {
                assert(pf[k as int] == id);
            }
        }
    }

    /// Records that kitty `child`, the newest, was bred from `p1` and `p2`.
    pub(crate) fn record_breeding(&mut self, child: u32, p1: u32, p2: u32)
        requires
            old(self).wf(),
            child + 1 == old(self).count(),
            old(self).parents_at(child as int) == Seq::<u32>::empty(),
            p1 < child,
            p2 < child,
            p1 != p2,
        ensures
            final(self).wf(),
            final(self).lineage_added(old(self), child, p1, p2),
            final(self).event_log() == old(self).event_log(),
    {
        assert forall|p: int| 0 <= p < self.count() implies !self.children_at(p).contains(
            child,
        ) by {
            if self.children_at(p).contains(child) {
                let j = choose|j: int|
                    0 <= j < self.children_at(p).len() && self.children_at(p)[j] == child;
                assert(self.parents_at(child as int).contains(p as u32));
            }
        }
        self.parents.set(child as usize, vec![p1, p2]);
        self.children[p1 as usize].push(child);
        self.children[p2 as usize].push(child);
        proof {
            assert forall|a: u64| #[trigger] self.owned_by(a) == old(self).owned_by(a) by {}
            assert forall|i: int| 0 <= i < self.count() implies #[trigger] self.owner_at(i)
                == old(self).owner_at(i) by {}
            assert forall|i: int| 0 <= i < child implies #[trigger] self.parents_at(i)
                == old(self).parents_at(i) by {}
            assert(self.parents_at(child as int) =~= seq![p1, p2]);
            assert forall|i: int|
                0 <= i < self.count() implies #[trigger] self.children_at(i) == if i == p1 || i
                == p2 {
                old(self).children_at(i).push(child)
            } else {
                old(self).children_at(i)
            } by {}
            assert forall|p: int| 0 <= p < self.count() implies (
            #[trigger] self.children_at(p)).no_duplicates() by {
                assert(old(self).children_at(p).no_duplicates());
            }
            assert forall|p: int, j: int|
                0 <= p < self.count() && 0 <= j < self.children_at(p).len() implies {
                &&& (#[trigger] self.children_at(p)[j] as nat) < self.count()
                &&& self.parents_at(self.children_at(p)[j] as int).contains(p as u32)
            } by {
                if j < old(self).children_at(p).len() {
                    assert(self.children_at(p)[j] == old(self).children_at(p)[j]);
                    assert(old(self).parents_at(old(self).children_at(p)[j] as int).contains(
                        p as u32,
                    ));
                    let c = self.children_at(p)[j] as int;
                    if c == child {
                        assert(old(self).parents_at(c).len() == 0);
                    }
                } else {
                    assert(self.children_at(p)[j] == child);
                    assert(p == p1 || p == p2);
                    if p == p1 {
                        assert(self.parents_at(child as int)[0] == p1);
                    } else {
                        assert(self.parents_at(child as int)[1] == p2);
                    }
                }
            }
            assert forall|c: int, k: int|
                0 <= c < self.count() && 0 <= k < self.parents_at(c).len()
                    implies self.children_at(#[trigger] self.parents_at(c)[k] as int).contains(c as u32) by {
                if c == child {
                    let p = self.parents_at(c)[k] as int;
                    assert(self.children_at(p)[self.children_at(p).len() - 1] == child);
                } else {
                    let p = old(self).parents_at(c)[k] as int;
                    assert(old(self).children_at(p).contains(c as u32));
                    let j = choose|j: int|
                        0 <= j < old(self).children_at(p).len() && old(self).children_at(p)[j]
                            == c as u32;
                    assert(self.children_at(p)[j] == c as u32);
                }
            }
        }
    }

    /// Appends `e` to the event log.
    pub(crate) fn deposit_event(&mut self, e: KittyEvent)
        requires
            old(self).wf(),
        ensures
            final(self).wf(),
            final(self).same_records(old(self)),
            final(self).event_log() == old(self).event_log().push(e),
    {
        self.events.push(e);
        assert forall|a: u64| #[trigger] self.owned_by(a) == old(self).owned_by(a) by {}
        assert forall|i: int| 0 <= i < self.count() implies #[trigger] self.owner_at(i)
            == old(self).owner_at(i) by {}
        assert forall|i: int| 0 <= i < self.count() implies #[trigger] self.parents_at(i)
            == old(self).parents_at(i) by {}
        assert forall|i: int| 0 <= i < self.count() implies #[trigger] self.children_at(i)
            == old(self).children_at(i) by {}
    }
}

/// A copy of a list of ids.
fn copy_ids(v: &Vec<u32>) -> (r: Vec<u32>)
    ensures
        r@ == v@,
{
    let mut r: Vec<u32> = Vec::new();
    let mut i: usize = 0;
    while i < v.len()
        invariant
            i <= v@.len(),
            r@ == v@.subrange(0, i as int),
        decreases v@.len() - i,
    {
        r.push(v[i]);
        i = i + 1;
        assert(r@ =~= v@.subrange(0, i as int));
    }
    assert(r@ =~= v@);
    r
}

} // verus!
