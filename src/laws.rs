use vstd::prelude::*;

use crate::registry::Module;
use crate::types::KittyError;

verus! {

/// Ids handed out by two successful creations or breedings, the second run
/// after the first (with any operations between them), are strictly
/// increasing, and an id handed out is never that of an existing kitty.
pub proof fn lemma_ids_strictly_increase(
    before1: &Module,
    after1: &Module,
    before2: &Module,
    after2: &Module,
    id1: u32,
    id2: u32,
)
    requires
        before1.issued(after1, id1),
        after1.count() <= before2.count(),
        before2.issued(after2, id2),
    ensures
        id1 < id2,
        before2.count() <= id2,
{
}

/// In a well-formed registry each owner's index holds, once each, exactly
/// the ids whose owner is that account.
pub proof fn lemma_owner_index_sync(m: &Module, who: u64)
    requires
        m.wf(),
    ensures
        m.owned_by(who).no_duplicates(),
        m.owned_by(who).to_set() == Set::new(
            |id: u32| (id as nat) < m.count() && m.owner_at(id as int) == who,
        ),
{
    let s = Set::new(|id: u32| (id as nat) < m.count() && m.owner_at(id as int) == who);
    assert forall|id: u32| #[trigger] m.owned_by(who).to_set().contains(id) <==> s.contains(id) by {
        if m.owned_by(who).contains(id) {
            let j = choose|j: int| 0 <= j < m.owned_by(who).len() && m.owned_by(who)[j] == id;
            assert(m.owner_at(m.owned_by(who)[j] as int) == who);
        }
        if s.contains(id) {
            assert(m.owned_by(m.owner_at(id as int)).contains(id as int as u32));
        }
    }
    assert(m.owned_by(who).to_set() =~= s);
}

/// Breeding a kitty with itself is refused with `RequireDifferentParent`,
/// whatever the ledger answers, and so allocates no id.
pub proof fn lemma_same_parent_refused(m: &Module, who: u64, parent: u32, reserved: bool)
    ensures
        m.breed_outcome(who, parent, parent, reserved) == Err::<u32, KittyError>(
            KittyError::RequireDifferentParent,
        ),
{
}

} // verus!
