use crate::sink::Config;
use crate::types::{AccountId, Error, Event, Property};
use std::collections::HashMap;
use vstd::prelude::*;

verus! {

broadcast use vstd::std_specs::hash::group_hash_axioms;

/// `s` with position `i` filled by its last element, and that last slot dropped.
pub open spec fn swap_remove_seq(s: Seq<u64>, i: int) -> Seq<u64> {
    s.update(i, s.last()).drop_last()
}

/// The dense array of `o` in `m`; empty when `o` has none.
pub open spec fn seq_of(m: Map<AccountId, Seq<u64>>, o: AccountId) -> Seq<u64> {
    if m.contains_key(o) {
        m[o]
    } else {
        Seq::empty()
    }
}

/// The abstract state of a registry: the four indices.
pub ghost struct RegistryView {
    /// Record Store: id to payload.
    pub records: Map<u64, Property>,
    /// Owner Index: id to current owner.
    pub owners: Map<u64, AccountId>,
    /// Global Enumeration: ids in mint order.
    pub all: Seq<u64>,
    /// Reverse map of the Global Enumeration.
    pub all_index: Map<u64, u64>,
    /// Owned Enumeration: each owner's dense array.
    pub owned: Map<AccountId, Seq<u64>>,
    /// Reverse map of the Owned Enumeration: id to its position in its owner's array.
    pub owned_index: Map<u64, u64>,
}

impl RegistryView {
    /// The dense array of `o`: its `count` is the length.
    pub open spec fn owned_of(self, o: AccountId) -> Seq<u64> {
        seq_of(self.owned, o)
    }

    /// Every stored record has one owner, one global position and one place in
    /// its owner's array, and every array slot points back through the indices.
    pub open spec fn consistent(self) -> bool {
        &&& self.owners.dom() == self.records.dom()
        &&& self.all_index.dom() == self.records.dom()
        &&& self.owned_index.dom() == self.records.dom()
        &&& self.all.len() <= u64::MAX
        &&& forall|p: int|
            0 <= p < self.all.len() ==> self.records.contains_key(#[trigger] self.all[p])
                && self.all_index[self.all[p]] == p
        &&& forall|r: u64| #[trigger]
            self.records.contains_key(r) ==> self.all_index[r] < self.all.len() && self.all[self.all_index[r] as int] == r
        &&& forall|o: AccountId| #[trigger] self.owned_of(o).len() <= u64::MAX
        &&& forall|o: AccountId, p: int|
            0 <= p < self.owned_of(o).len() ==> self.owners.contains_key(
                #[trigger] self.owned_of(o)[p],
            ) && self.owners[self.owned_of(o)[p]] == o && self.owned_index[self.owned_of(o)[p]] == p
        &&& forall|r: u64| #[trigger]
            self.owners.contains_key(r) ==> self.owned_index[r] < self.owned_of(self.owners[r]).len()
                && self.owned_of(self.owners[r])[self.owned_index[r] as int] == r
    }

    /// Appends `id` to the dense array of `o`.
    pub open spec fn owned_appended(self, o: AccountId, id: u64) -> RegistryView {
        RegistryView {
            owned: self.owned.insert(o, self.owned_of(o).push(id)),
            owned_index: self.owned_index.insert(id, self.owned_of(o).len() as u64),
            ..self
        }
    }

    /// Removes `id` from the dense array of `o`, moving the last element into its slot.
    pub open spec fn owned_removed(self, o: AccountId, id: u64) -> RegistryView {
        let pos = self.owned_index[id];
        let moved = self.owned_of(o).last();
        RegistryView {
            owned: self.owned.insert(o, swap_remove_seq(self.owned_of(o), pos as int)),
            owned_index: self.owned_index.insert(moved, pos).remove(id),
            ..self
        }
    }
}

impl RegistryView {
    /// Global Enumeration append: `id` takes the next global position.
    pub open spec fn global_appended(self, id: u64) -> RegistryView {
        RegistryView {
            all: self.all.push(id),
            all_index: self.all_index.insert(id, self.all.len() as u64),
            ..self
        }
    }

    /// The state after `owner` mints `id` with `payload`.
    pub open spec fn minted(self, owner: AccountId, id: u64, payload: Property) -> RegistryView {
        RegistryView {
            records: self.records.insert(id, payload),
            owners: self.owners.insert(id, owner),
            ..self
        }.global_appended(id).owned_appended(owner, id)
    }

    /// The state after `id` passes from `from` to `to`.
    pub open spec fn transferred(self, from: AccountId, to: AccountId, id: u64) -> RegistryView {
        let removed = self.owned_removed(from, id);
        RegistryView { owners: removed.owners.insert(id, to), ..removed }.owned_appended(to, id)
    }

    /// What `mint` returns on this state.
    pub open spec fn mint_result(self, caller: AccountId, id: u64) -> Result<(), Error> {
        if self.records.contains_key(id) {
            Err(Error::AlreadyExists)
        } else if self.owned_of(caller).len() >= u64::MAX || self.all.len() >= u64::MAX {
            Err(Error::Overflow)
        } else {
            Ok(())
        }
    }

    /// What `transfer` returns on this state.
    pub open spec fn transfer_result(self, caller: AccountId, to: AccountId, id: u64) -> Result<
        (),
        Error,
    > {
        if !self.owners.contains_key(id) {
            Err(Error::NotFound)
        } else if self.owners[id] != caller {
            Err(Error::Unauthorized)
        } else if self.owned_of(to).len() >= u64::MAX {
            Err(Error::Overflow)
        } else if self.owned_of(caller).len() == 0 {
            Err(Error::Underflow)
        } else {
            Ok(())
        }
    }
}

/// A successful mint keeps the indices consistent.
pub proof fn lemma_mint_consistent(v: RegistryView, caller: AccountId, id: u64, payload: Property)
    requires
        v.consistent(),
        v.mint_result(caller, id) is Ok,
    ensures
        v.minted(caller, id, payload).consistent(),
{
    let w = v.minted(caller, id, payload);
    assert(w.owners.dom() =~= w.records.dom());
    assert(w.all_index.dom() =~= w.records.dom());
    assert(w.owned_index.dom() =~= w.records.dom());
    assert forall|o: AccountId| #[trigger] w.owned_of(o).len() <= u64::MAX by {
        if o == caller {
        } else {
            assert(w.owned_of(o) == v.owned_of(o));
        }
    }
    assert forall|p: int| 0 <= p < w.all.len() implies w.records.contains_key(#[trigger] w.all[p])
        && w.all_index[w.all[p]] == p by {
        if p < v.all.len() {
            assert(v.records.contains_key(v.all[p]));
        }
    }
    assert forall|o: AccountId, p: int| 0 <= p < w.owned_of(o).len() implies w.owners.contains_key(
        #[trigger] w.owned_of(o)[p],
    ) && w.owners[w.owned_of(o)[p]] == o && w.owned_index[w.owned_of(o)[p]] == p by {
        if o == caller {
            if p < v.owned_of(o).len() {
                assert(w.owned_of(o)[p] == v.owned_of(o)[p]);
                assert(v.owners.contains_key(v.owned_of(o)[p]));
            }
        } else {
            assert(w.owned_of(o) == v.owned_of(o));
            assert(v.owners.contains_key(v.owned_of(o)[p]));
        }
    }
    assert forall|r: u64| #[trigger] w.owners.contains_key(r) implies w.owned_index[r]
        < w.owned_of(w.owners[r]).len() && w.owned_of(w.owners[r])[w.owned_index[r] as int] == r by {
        if r != id {
            assert(v.owners.contains_key(r));
            let o = v.owners[r];
            if o != caller {
                assert(w.owned_of(o) == v.owned_of(o));
            }
        }
    }
}

/// A successful transfer keeps the indices consistent.
pub proof fn lemma_transfer_consistent(v: RegistryView, caller: AccountId, to: AccountId, id: u64)
    requires
        v.consistent(),
        v.transfer_result(caller, to, id) is Ok,
    ensures
        v.transferred(caller, to, id).consistent(),
{
    let w = v.transferred(caller, to, id);
    let s = v.owned_of(caller);
    let pos = v.owned_index[id] as int;
    let n = s.len() as int;
    let moved = s[n - 1];
    let s2 = swap_remove_seq(s, pos);
    let mid = v.owned_removed(caller, id);
    let t = mid.owned_of(to);
    assert(v.owners.contains_key(moved));
    assert(v.owned_index[moved] == n - 1);
    assert(s[pos] == id);
    assert(pos != n - 1 ==> moved != id);
    assert(mid.owned_of(caller) == s2);
    assert(to != caller ==> t == v.owned_of(to));
    assert(to == caller ==> t == s2);
    assert(w.owned_of(to) == t.push(id));
    assert(to != caller ==> w.owned_of(caller) == s2);
    assert(w.owners.dom() =~= w.records.dom());
    assert(w.all_index.dom() =~= w.records.dom());
    assert(w.owned_index.dom() =~= w.records.dom());
    assert forall|o: AccountId| #[trigger] w.owned_of(o).len() <= u64::MAX by {
        if o != caller && o != to {
            assert(w.owned_of(o) == v.owned_of(o));
        }
    }
    assert forall|o: AccountId, p: int| 0 <= p < w.owned_of(o).len() implies w.owners.contains_key(
        #[trigger] w.owned_of(o)[p],
    ) && w.owners[w.owned_of(o)[p]] == o && w.owned_index[w.owned_of(o)[p]] == p by {
        if o != caller && o != to {
            assert(w.owned_of(o) == v.owned_of(o));
            let x = v.owned_of(o)[p];
            assert(v.owners.contains_key(x));
        } else if o == to && p == t.len() {
        } else {
            // a slot of the sender's array after the removal
            let x = if o == to && to != caller {
                v.owned_of(to)[p]
            } else {
                s2[p]
            };
            assert(w.owned_of(o)[p] == x);
            if o == to && to != caller {
                assert(v.owners.contains_key(x));
            } else if p == pos {
                assert(x == moved);
            } else {
                assert(x == s[p]);
                assert(v.owners.contains_key(x));
            }
        }
    }
    assert forall|r: u64| #[trigger] w.owners.contains_key(r) implies w.owned_index[r]
        < w.owned_of(w.owners[r]).len() && w.owned_of(w.owners[r])[w.owned_index[r] as int] == r by {
        if r != id {
            assert(v.owners.contains_key(r));
            let o = v.owners[r];
            let q = v.owned_index[r] as int;
            if r == moved {
                assert(w.owned_index[r] == pos);
            } else if o == caller {
                assert(q != pos);
                assert(q != n - 1);
                assert(s2[q] == r);
            } else if o != to {
                assert(w.owned_of(o) == v.owned_of(o));
            }
        }
    }
}

/// A registry of property records with a global and a per-owner enumeration.
pub struct Registry {
    records: HashMap<u64, Property>,
    owners: HashMap<u64, AccountId>,
    all: Vec<u64>,
    all_index: HashMap<u64, u64>,
    owned: HashMap<AccountId, Vec<u64>>,
    owned_index: HashMap<u64, u64>,
}

impl View for Registry {
    type V = RegistryView;

    closed spec fn view(&self) -> RegistryView {
        RegistryView {
            records: self.records@,
            owners: self.owners@,
            all: self.all@,
            all_index: self.all_index@,
            owned: self.owned@.map_values(|v: Vec<u64>| v@),
            owned_index: self.owned_index@,
        }
    }
}

impl Registry {
    /// The registry's invariant.
    pub open spec fn wf(&self) -> bool {
        self@.consistent()
    }

    /// Takes the dense array of `o` out of the owned map, leaving `o` absent.
    fn take_owned(&mut self, o: AccountId) -> (r: Vec<u64>)
        ensures
            r@ == old(self)@.owned_of(o),
            final(self)@ == (RegistryView { owned: old(self)@.owned.remove(o), ..old(self)@ }),
    {
        let r = match self.owned.remove(&o) {
            Some(v) => v,
            None => Vec::new(),
        };
        assert(self@.owned =~= old(self)@.owned.remove(o));
        r
    }

    /// Puts `v` back as the dense array of `o`.
    fn put_owned(&mut self, o: AccountId, v: Vec<u64>)
        ensures
            final(self)@ == (RegistryView { owned: old(self)@.owned.insert(o, v@), ..old(self)@ }),
    {
        self.owned.insert(o, v);
        assert(self@.owned =~= old(self)@.owned.insert(o, v@));
    }

    /// Length of the dense array of `o`.
    fn owned_len(&self, o: AccountId) -> (r: usize)
        ensures
            r == self@.owned_of(o).len(),
    {
        match self.owned.get(&o) {
            Some(v) => v.len(),
            None => 0,
        }
    }

    /// Global Enumeration append: `id` takes the next global position.
    fn global_append(&mut self, id: u64) -> (pos: u64)
        requires
            old(self)@.all.len() < u64::MAX,
        ensures
            pos == old(self)@.all.len(),
            final(self)@ == old(self)@.global_appended(id),
    {
        let pos = self.all.len() as u64;
        self.all.push(id);
        self.all_index.insert(id, pos);
        pos
    }

    /// Owned Enumeration append: `id` takes the next position of `o`.
    fn owned_append(&mut self, o: AccountId, id: u64) -> (pos: u64)
        requires
            old(self)@.owned_of(o).len() < u64::MAX,
        ensures
            pos == old(self)@.owned_of(o).len(),
            final(self)@ == old(self)@.owned_appended(o, id),
    {
        let mut v = self.take_owned(o);
        let pos = v.len() as u64;
        v.push(id);
        self.put_owned(o, v);
        self.owned_index.insert(id, pos);
        assert(self@.owned =~= old(self)@.owned_appended(o, id).owned);
        pos
    }

    /// Owned Enumeration removal by swap with the last element.
    fn owned_remove(&mut self, o: AccountId, id: u64)
        requires
            old(self)@.owned_index.contains_key(id),
            old(self)@.owned_index[id] < old(self)@.owned_of(o).len(),
            old(self)@.owned_of(o)[old(self)@.owned_index[id] as int] == id,
        ensures
            final(self)@ == old(self)@.owned_removed(o, id),
    {
        let pos = match self.owned_index.get(&id) {
            Some(p) => *p,
            None => 0,
        };
        let mut v = self.take_owned(o);
        let last = v.len() - 1;
        let removed = pos as usize;
        let moved = v[last];
        if removed != last {
            v.set(removed, moved);
            self.owned_index.insert(moved, pos);
        }
        v.pop();
        assert(v@ =~= swap_remove_seq(old(self)@.owned_of(o), pos as int));
        self.put_owned(o, v);
        self.owned_index.remove(&id);
        assert(self@.owned =~= old(self)@.owned_removed(o, id).owned);
        assert(self@.owned_index =~= old(self)@.owned_removed(o, id).owned_index);
    }
}

impl Registry {
    /// An empty registry: every count is zero.
    pub fn new() -> (r: Registry)
        ensures
            r.wf(),
            r@.records == Map::<u64, Property>::empty(),
            r@.owners == Map::<u64, AccountId>::empty(),
            r@.all == Seq::<u64>::empty(),
            r@.all_index == Map::<u64, u64>::empty(),
            r@.owned == Map::<AccountId, Seq<u64>>::empty(),
            r@.owned_index == Map::<u64, u64>::empty(),
    {
        let r = Registry {
            records: HashMap::new(),
            owners: HashMap::new(),
            all: Vec::new(),
            all_index: HashMap::new(),
            owned: HashMap::new(),
            owned_index: HashMap::new(),
        };
        assert(r@.owned =~= Map::<AccountId, Seq<u64>>::empty());
        r
    }

    /// Creates record `id` with `payload`, owned by `caller`, and emits `Created(caller, id)`.
    /// Every check comes before the first write: on failure nothing changes.
    pub fn mint<S: Config>(&mut self, sink: &mut S, caller: AccountId, id: u64, payload: Property) -> (r:
        Result<(), Error>)
        requires
            old(self).wf(),
        ensures
            final(self).wf(),
            r == old(self)@.mint_result(caller, id),
            r is Ok ==> final(self)@ == old(self)@.minted(caller, id, payload)
                && final(sink).events() == old(sink).events().push(Event::Created(caller, id)),
            r is Err ==> final(self)@ == old(self)@ && *final(sink) == *old(sink),
    {
        if self.records.contains_key(&id) {
            return Err(Error::AlreadyExists);
        }
        let owned_count = self.owned_len(caller);
        if owned_count as u64 >= u64::MAX {
            return Err(Error::Overflow);
        }
        let total = self.all.len();
        if total as u64 >= u64::MAX {
            return Err(Error::Overflow);
        }
        proof {
            lemma_mint_consistent(self@, caller, id, payload);
        }
        self.records.insert(id, payload);
        self.owners.insert(id, caller);
        self.global_append(id);
        self.owned_append(caller, id);
        sink.deposit_event(Event::Created(caller, id));
        Ok(())
    }

    /// Moves record `id` from `caller`, its owner, to `to`, and emits
    /// `Transferred(caller, to, id)`. `caller`'s array is compacted by
    /// swap-remove; `id` is appended to `to`'s. On failure nothing changes.
    pub fn transfer<S: Config>(&mut self, sink: &mut S, caller: AccountId, to: AccountId, id: u64) -> (r:
        Result<(), Error>)
        requires
            old(self).wf(),
        ensures
            final(self).wf(),
            r == old(self)@.transfer_result(caller, to, id),
            r != Err::<(), Error>(Error::Underflow),
            r is Ok ==> final(self)@ == old(self)@.transferred(caller, to, id)
                && final(sink).events() == old(sink).events().push(
                Event::Transferred(caller, to, id),
            ),
            r is Err ==> final(self)@ == old(self)@ && *final(sink) == *old(sink),
    {
        let owner = match self.owners.get(&id) {
            Some(o) => *o,
            None => {
                return Err(Error::NotFound);
            },
        };
        if owner != caller {
            return Err(Error::Unauthorized);
        }
        let to_count = self.owned_len(to);
        if to_count as u64 >= u64::MAX {
            return Err(Error::Overflow);
        }
        let from_count = self.owned_len(caller);
        if from_count == 0 {
            return Err(Error::Underflow);
        }
        proof {
            lemma_transfer_consistent(self@, caller, to, id);
        }
        self.owned_remove(caller, id);
        self.owners.insert(id, to);
        self.owned_append(to, id);
        sink.deposit_event(Event::Transferred(caller, to, id));
        Ok(())
    }

    /// The payload of record `id`.
    pub fn get_record(&self, id: u64) -> (r: Option<&Property>)
        ensures
            r == (if self@.records.contains_key(id) { Some(&self@.records[id]) } else { None }),
    {
        self.records.get(&id)
    }

    /// The current owner of record `id`.
    pub fn get_owner(&self, id: u64) -> (r: Option<AccountId>)
        ensures
            r == (if self@.owners.contains_key(id) { Some(self@.owners[id]) } else { None }),
    {
        match self.owners.get(&id) {
            Some(o) => Some(*o),
            None => None,
        }
    }

    /// How many records `owner` holds.
    pub fn owned_count(&self, owner: AccountId) -> (r: u64)
        requires
            self.wf(),
        ensures
            r == self@.owned_of(owner).len(),
    {
        self.owned_len(owner) as u64
    }

    /// How many records were ever minted.
    pub fn total_count(&self) -> (r: u64)
        requires
            self.wf(),
        ensures
            r == self@.all.len(),
    {
        self.all.len() as u64
    }

    /// The record minted at global position `p`.
    pub fn record_at_global_position(&self, p: u64) -> (r: Option<u64>)
        ensures
            r == (if p < self@.all.len() { Some(self@.all[p as int]) } else { None }),
    {
        if (p as u128) < (self.all.len() as u128) {
            Some(self.all[p as usize])
        } else {
            None
        }
    }

    /// The record at position `p` of `owner`'s array.
    pub fn record_at_owned_position(&self, owner: AccountId, p: u64) -> (r: Option<u64>)
        ensures
            r == (if p < self@.owned_of(owner).len() {
                Some(self@.owned_of(owner)[p as int])
            } else {
                None
            }),
    {
        match self.owned.get(&owner) {
            Some(v) => {
                if (p as u128) < (v.len() as u128) {
                    Some(v[p as usize])
                } else {
                    None
                }
            },
            None => None,
        }
    }
}

} // verus!
