use crate::registry::{swap_remove_seq, Registry, RegistryView};
use crate::types::{AccountId, Error, Property};
use vstd::prelude::*;

verus! {

/// Index consistency: in every well-formed registry (and `new`, `mint` and
/// `transfer` keep it well-formed), each stored record has exactly one owner,
/// and that owner's array holds the record at the position its reverse index
/// records.
pub proof fn law_index_consistency(reg: &Registry)
    requires
        reg.wf(),
    ensures
        forall|r: u64| #[trigger]
            reg@.records.contains_key(r) ==> {
                &&& reg@.owners.contains_key(r)
                &&& reg@.owned_index.contains_key(r)
                &&& reg@.owned_of(reg@.owners[r])[reg@.owned_index[r] as int] == r
            },
        forall|r: u64| !reg@.records.contains_key(r) ==> !#[trigger] reg@.owners.contains_key(r),
{
    assert forall|r: u64| #[trigger] reg@.records.contains_key(r) implies reg@.owners.contains_key(r)
        && reg@.owned_index.contains_key(r) && reg@.owned_of(reg@.owners[r])[reg@.owned_index[r] as int]
        == r by {
        assert(reg@.owners.dom().contains(r));
    }
    assert forall|r: u64| !reg@.records.contains_key(r) implies !#[trigger] reg@.owners.contains_key(r) by {
        if reg@.owners.contains_key(r) {
            assert(reg@.owners.dom().contains(r));
        }
    }
}

/// Position `p` of `o`'s array is taken: some record owned by `o` has that
/// position in the reverse index.
pub open spec fn occupied(v: RegistryView, o: AccountId, p: int) -> bool {
    exists|r: u64| #[trigger] v.owners.contains_key(r) && v.owners[r] == o && v.owned_index[r] == p
}

/// Density: the positions that the reverse index gives to the records of `o`
/// are exactly `0 .. count(o)`, with no gaps.
pub proof fn law_density(reg: &Registry, o: AccountId)
    requires
        reg.wf(),
    ensures
        forall|p: int| #[trigger] occupied(reg@, o, p) <==> 0 <= p < reg@.owned_of(o).len(),
{
    let v = reg@;
    assert forall|p: int| #[trigger] occupied(v, o, p) <==> 0 <= p < v.owned_of(o).len() by {
        if 0 <= p < v.owned_of(o).len() {
            let r = v.owned_of(o)[p];
            assert(v.owners.contains_key(r) && v.owners[r] == o && v.owned_index[r] == p);
        }
        if occupied(v, o, p) {
            let r = choose|r: u64| #[trigger]
                v.owners.contains_key(r) && v.owners[r] == o && v.owned_index[r] == p;
            assert(v.owned_index[r] < v.owned_of(v.owners[r]).len());
        }
    }
}

/// Mint uniqueness: once `id` is minted, minting it again, by anyone, fails
/// with `AlreadyExists`, and the first payload and owner stay in place.
pub proof fn law_mint_unique(
    v: RegistryView,
    first: AccountId,
    second: AccountId,
    id: u64,
    payload: Property,
)
    requires
        v.consistent(),
        v.mint_result(first, id) is Ok,
    ensures
        v.minted(first, id, payload).mint_result(second, id) == Err::<(), Error>(Error::AlreadyExists),
        v.minted(first, id, payload).records[id] == payload,
        v.minted(first, id, payload).owners[id] == first,
{
}

/// Transfer authorization: a transfer of an existing record by anyone but its
/// owner fails with `Unauthorized` (and a failed transfer changes nothing).
pub proof fn law_transfer_needs_owner(v: RegistryView, caller: AccountId, to: AccountId, id: u64)
    requires
        v.owners.contains_key(id),
        v.owners[id] != caller,
    ensures
        v.transfer_result(caller, to, id) == Err::<(), Error>(Error::Unauthorized),
{
}

/// A transfer leaves the Record Store and the Global Enumeration as they were,
/// makes `to` the owner of `id` at the last position of its array, and
/// compacts the sender's array by moving its last element into the freed slot.
pub proof fn law_transfer_effect(v: RegistryView, caller: AccountId, to: AccountId, id: u64)
    requires
        v.consistent(),
        v.transfer_result(caller, to, id) is Ok,
    ensures
        v.transferred(caller, to, id).records == v.records,
        v.transferred(caller, to, id).all == v.all,
        v.transferred(caller, to, id).all_index == v.all_index,
        v.transferred(caller, to, id).owners[id] == to,
        v.transferred(caller, to, id).owned_of(to).last() == id,
        v.transferred(caller, to, id).owned_index[id] == v.transferred(caller, to, id).owned_of(
            to,
        ).len() - 1,
        caller != to ==> v.transferred(caller, to, id).owned_of(caller) == swap_remove_seq(
            v.owned_of(caller),
            v.owned_index[id] as int,
        ),
        caller != to ==> v.transferred(caller, to, id).owned_of(caller).len() + 1 == v.owned_of(
            caller,
        ).len(),
{
}

} // verus!
