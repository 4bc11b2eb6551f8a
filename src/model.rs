use vstd::prelude::*;
use crate::types::{AccountId, Balance, Event, Kitty, KittyError, KittyId};

verus! {

/// How many entries of `s` equal `o`.
pub open spec fn count_of(s: Seq<AccountId>, o: AccountId) -> nat
    decreases s.len(),
{
    if s.len() == 0 {
        0
    } else {
        count_of(s.drop_last(), o) + if s.last() == o { 1nat } else { 0nat }
    }
}

/// Appending one owner adds one to that owner's count only.
pub proof fn lemma_count_of_push(s: Seq<AccountId>, x: AccountId, o: AccountId)
    ensures
        count_of(s.push(x), o) == count_of(s, o) + if x == o { 1nat } else { 0nat },
{
    assert(s.push(x).drop_last() =~= s);
}

/// No owner is counted more often than there are entries.
pub proof fn lemma_count_of_le_len(s: Seq<AccountId>, o: AccountId)
    ensures
        count_of(s, o) <= s.len(),
    decreases s.len(),
{
    if s.len() > 0 {
        lemma_count_of_le_len(s.drop_last(), o);
    }
}

/// The record a new kitty starts with: its dna is its identifier, price and
/// generation are zero.
pub open spec fn new_kitty(id: KittyId) -> Kitty {
    Kitty { id: id, dna: id, price: 0, gen: 0 }
}

/// The abstract state of the registry.
pub struct RegistryModel {
    /// Identifiers by global index, in creation order.
    pub ids: Seq<KittyId>,
    /// The record of each kitty, by global index.
    pub kitties: Seq<Kitty>,
    /// The owner of each kitty, by global index.
    pub owners: Seq<AccountId>,
    /// The position of each kitty in its owner's enumeration, by global index.
    pub local_index: Seq<u64>,
    /// For each owner, the global indices of the kitties it owns, by local index.
    pub owned: Map<AccountId, Seq<u64>>,
    /// The nonce mixed into the next derived identifier.
    pub nonce: u64,
}

impl RegistryModel {
    /// The registry with no kitties and the given nonce.
    pub open spec fn empty(nonce: u64) -> RegistryModel {
        RegistryModel {
            ids: Seq::empty(),
            kitties: Seq::empty(),
            owners: Seq::empty(),
            local_index: Seq::empty(),
            owned: Map::empty(),
            nonce: nonce,
        }
    }

    pub open spec fn total(self) -> nat {
        self.ids.len()
    }

    /// The global indices of the kitties `o` owns, by local index.
    pub open spec fn owned_of(self, o: AccountId) -> Seq<u64> {
        if self.owned.contains_key(o) {
            self.owned[o]
        } else {
            Seq::empty()
        }
    }

    pub open spec fn count_owned(self, o: AccountId) -> nat {
        self.owned_of(o).len()
    }

    pub open spec fn has_id(self, id: KittyId) -> bool {
        exists|g: int| 0 <= g < self.ids.len() && self.ids[g] == id
    }

    /// The global index of `id`; meaningful where `has_id(id)`.
    pub open spec fn index_of(self, id: KittyId) -> int {
        choose|g: int| 0 <= g < self.ids.len() && self.ids[g] == id
    }

    /// The invariants every reachable state keeps: identifiers are unique, the
    /// global and per-owner enumerations are dense and inverse to their
    /// reverse maps, and each owner's count is the number of kitties it owns.
    pub open spec fn inv(self) -> bool {
        &&& self.kitties.len() == self.ids.len()
        &&& self.owners.len() == self.ids.len()
        &&& self.local_index.len() == self.ids.len()
        &&& self.ids.len() <= u64::MAX
        &&& forall|g1: int, g2: int|
            0 <= g1 < self.ids.len() && 0 <= g2 < self.ids.len() && g1 != g2
                ==> #[trigger] self.ids[g1] != #[trigger] self.ids[g2]
        &&& forall|g: int|
            0 <= g < self.ids.len() ==> {
                let o = #[trigger] self.owners[g];
                &&& self.local_index[g] < self.count_owned(o)
                &&& self.owned_of(o)[self.local_index[g] as int] == g
            }
        &&& forall|o: AccountId, j: int|
            0 <= j < self.count_owned(o) ==> {
                let g = #[trigger] self.owned_of(o)[j];
                &&& g < self.ids.len()
                &&& self.owners[g as int] == o
                &&& self.local_index[g as int] == j
            }
        &&& forall|o: AccountId| #[trigger] self.count_owned(o) == count_of(self.owners, o)
    }

    /// Why inserting `id` for `to` is rejected, if it is.
    pub open spec fn mint_error(self, to: AccountId, id: KittyId) -> Option<KittyError> {
        if self.has_id(id) {
            Some(KittyError::DuplicateId)
        } else if self.total() >= u64::MAX {
            Some(KittyError::Overflow)
        } else if self.count_owned(to) >= u64::MAX {
            Some(KittyError::Overflow)
        } else {
            None
        }
    }

    /// The state after inserting `kitty` under `id` for owner `to`.
    pub open spec fn minted(self, to: AccountId, id: KittyId, kitty: Kitty) -> RegistryModel {
        RegistryModel {
            ids: self.ids.push(id),
            kitties: self.kitties.push(kitty),
            owners: self.owners.push(to),
            local_index: self.local_index.push(self.count_owned(to) as u64),
            owned: self.owned.insert(to, self.owned_of(to).push(self.total() as u64)),
            nonce: self.nonce,
        }
    }

    /// Why creating a kitty with identifier `id` for `caller` is rejected, if it is.
    pub open spec fn create_error(self, caller: AccountId, id: KittyId) -> Option<KittyError> {
        match self.mint_error(caller, id) {
            Some(e) => Some(e),
            None => if self.nonce == u64::MAX {
                Some(KittyError::Overflow)
            } else {
                None
            },
        }
    }

    /// The state after creating a kitty with identifier `id` for `caller`.
    pub open spec fn created(self, caller: AccountId, id: KittyId) -> RegistryModel {
        let m = self.minted(caller, id, new_kitty(id));
        RegistryModel { nonce: (self.nonce + 1) as u64, ..m }
    }

    /// Why `caller` may not set the price of `id`, if it may not.
    pub open spec fn set_price_error(self, caller: AccountId, id: KittyId) -> Option<KittyError> {
        if !self.has_id(id) {
            Some(KittyError::NotFound)
        } else if self.owners[self.index_of(id)] != caller {
            Some(KittyError::Unauthorized)
        } else {
            None
        }
    }

    /// The state after the price of `id` is set to `price`.
    pub open spec fn priced(self, id: KittyId, price: Balance) -> RegistryModel {
        let g = self.index_of(id);
        RegistryModel {
            kitties: self.kitties.update(g, Kitty { price: price, ..self.kitties[g] }),
            ..self
        }
    }

    /// The whole transition of a create call: next state and result.
    pub open spec fn create_step(self, caller: AccountId, id: KittyId) -> (RegistryModel, Result<Event, KittyError>) {
        match self.create_error(caller, id) {
            Some(e) => (self, Err(e)),
            None => (self.created(caller, id), Ok(Event::KittyCreated(caller, id))),
        }
    }

    /// The whole transition of a set-price call: next state and result.
    pub open spec fn set_price_step(self, caller: AccountId, id: KittyId, price: Balance) -> (RegistryModel, Result<Event, KittyError>) {
        match self.set_price_error(caller, id) {
            Some(e) => (self, Err(e)),
            None => (self.priced(id, price), Ok(Event::PriceSet(caller, id, price))),
        }
    }
}

/// Inserting a kitty that passed its checks keeps the invariants.
pub proof fn lemma_minted_inv(m: RegistryModel, to: AccountId, id: KittyId, kitty: Kitty)
    requires
        m.inv(),
        m.mint_error(to, id) is None,
    ensures
        m.minted(to, id, kitty).inv(),
{
    let m2 = m.minted(to, id, kitty);
    let n = m.total() as int;
    assert forall|g1: int, g2: int|
        0 <= g1 < m2.ids.len() && 0 <= g2 < m2.ids.len() && g1 != g2
            implies #[trigger] m2.ids[g1] != #[trigger] m2.ids[g2] by {
        if g1 == n {
            assert(m.ids[g2] == m2.ids[g2]);
        } else if g2 == n {
            assert(m.ids[g1] == m2.ids[g1]);
        }
    }
    assert forall|g: int| 0 <= g < m2.ids.len() implies {
        let o = #[trigger] m2.owners[g];
        &&& m2.local_index[g] < m2.count_owned(o)
        &&& m2.owned_of(o)[m2.local_index[g] as int] == g
    } by {
        if g < n {
            let o = m.owners[g];
            assert(m.owned_of(o)[m.local_index[g] as int] == g);
        }
    }
    assert forall|o: AccountId, j: int| 0 <= j < m2.count_owned(o) implies {
        let g = #[trigger] m2.owned_of(o)[j];
        &&& g < m2.ids.len()
        &&& m2.owners[g as int] == o
        &&& m2.local_index[g as int] == j
    } by {
        if o != to || j < m.count_owned(o) {
            assert(m2.owned_of(o)[j] == m.owned_of(o)[j]);
            let g = m.owned_of(o)[j];
            assert(g < n);
        }
    }
    assert forall|o: AccountId| #[trigger] m2.count_owned(o) == count_of(m2.owners, o) by {
        lemma_count_of_push(m.owners, to, o);
        assert(m.count_owned(o) == count_of(m.owners, o));
    }
}

/// The invariants speak of the identifiers, owners and indices only: a state
/// that agrees with a valid one on those is valid too.
pub proof fn lemma_inv_same_indices(m: RegistryModel, m2: RegistryModel)
    requires
        m.inv(),
        m2.ids == m.ids,
        m2.kitties.len() == m.kitties.len(),
        m2.owners == m.owners,
        m2.local_index == m.local_index,
        m2.owned == m.owned,
    ensures
        m2.inv(),
{
    assert forall|g: int| 0 <= g < m2.ids.len() implies {
        let o = #[trigger] m2.owners[g];
        &&& m2.local_index[g] < m2.count_owned(o)
        &&& m2.owned_of(o)[m2.local_index[g] as int] == g
    } by {
        assert(m.owned_of(m.owners[g])[m.local_index[g] as int] == g);
    }
    assert forall|o: AccountId, j: int| 0 <= j < m2.count_owned(o) implies {
        let g = #[trigger] m2.owned_of(o)[j];
        &&& g < m2.ids.len()
        &&& m2.owners[g as int] == o
        &&& m2.local_index[g as int] == j
    } by {
        assert(m.owned_of(o)[j] < m.ids.len());
    }
    assert forall|o: AccountId| #[trigger] m2.count_owned(o) == count_of(m2.owners, o) by {
        assert(m.count_owned(o) == count_of(m.owners, o));
    }
}

/// Setting a price keeps the invariants.
pub proof fn lemma_priced_inv(m: RegistryModel, id: KittyId, price: Balance)
    requires
        m.inv(),
        m.has_id(id),
    ensures
        m.priced(id, price).inv(),
{
    let g = m.index_of(id);
    assert(0 <= g < m.ids.len() && m.ids[g] == id);
    lemma_inv_same_indices(m, m.priced(id, price));
}

/// Creating a kitty that passed its checks keeps the invariants.
pub proof fn lemma_created_inv(m: RegistryModel, caller: AccountId, id: KittyId)
    requires
        m.inv(),
        m.create_error(caller, id) is None,
    ensures
        m.created(caller, id).inv(),
{
    lemma_minted_inv(m, caller, id, new_kitty(id));
    lemma_inv_same_indices(m.minted(caller, id, new_kitty(id)), m.created(caller, id));
}

} // verus!
