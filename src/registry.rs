use vstd::prelude::*;
use std::collections::HashMap;
use crate::hashing::{generate_id, spec_generate_id};
use crate::model::{lemma_count_of_le_len, lemma_created_inv, lemma_minted_inv, lemma_priced_inv, RegistryModel};
use crate::types::{AccountId, Balance, Event, Kitty, KittyError, KittyId};

verus! {

broadcast use vstd::std_specs::hash::group_hash_axioms, vstd::array::group_array_axioms;

/// Whether two identifiers are equal, byte by byte.
fn same_id(a: &KittyId, b: &KittyId) -> (r: bool)
    ensures
        r == (*a == *b),
{
    let mut i: usize = 0;
    while i < 32
        invariant
            i <= 32,
            forall|k: int| 0 <= k < i ==> a[k] == b[k],
        decreases 32 - i,
    {
        if a[i] != b[i] {
            return false;
        }
        i = i + 1;
    }
    assert(*a =~= *b);
    true
}

/// The kitty registry: a table of kitty records with a global enumeration in
/// creation order and a per-owner enumeration, kept consistent by every call.
pub struct Registry {
    ids: Vec<KittyId>,
    kitties: Vec<Kitty>,
    owners: Vec<AccountId>,
    local_index: Vec<u64>,
    owned: HashMap<AccountId, Vec<u64>>,
    nonce: u64,
}

impl View for Registry {
    type V = RegistryModel;

    closed spec fn view(&self) -> RegistryModel {
        RegistryModel {
            ids: self.ids@,
            kitties: self.kitties@,
            owners: self.owners@,
            local_index: self.local_index@,
            owned: self.owned@.map_values(|v: Vec<u64>| v@),
            nonce: self.nonce,
        }
    }
}

impl Registry {
    pub open spec fn wf(&self) -> bool {
        self@.inv()
    }

    /// An empty registry with the nonce at zero.
    pub fn new() -> (r: Registry)
        ensures
            r.wf(),
            r@ == RegistryModel::empty(0),
    {
        Registry::with_nonce(0)
    }

    /// An empty registry whose nonce starts at `nonce`.
    pub fn with_nonce(nonce: u64) -> (r: Registry)
        ensures
            r.wf(),
            r@ == RegistryModel::empty(nonce),
    {
        let r = Registry {
            ids: Vec::new(),
            kitties: Vec::new(),
            owners: Vec::new(),
            local_index: Vec::new(),
            owned: HashMap::new(),
            nonce: nonce,
        };
        assert(r@.owned =~= Map::empty());
        assert(r@ == RegistryModel::empty(nonce));
        r
    }

    /// The global index of `id`, if it is in the table.
    fn find(&self, id: &KittyId) -> (r: Option<usize>)
        requires
            self.wf(),
        ensures
            match r {
                Some(g) => g < self@.total() && self@.ids[g as int] == *id && self@.index_of(*id) == g,
                None => !self@.has_id(*id),
            },
    {
        let mut g: usize = 0;
        while g < self.ids.len()
            invariant
                self.wf(),
                g <= self.ids@.len(),
                forall|k: int| 0 <= k < g ==> self.ids@[k] != *id,
            decreases self.ids@.len() - g,
        {
            if same_id(&self.ids[g], id) {
                let ghost c = self@.index_of(*id);
                assert(self@.ids[c] == *id);
                return Some(g);
            }
            g = g + 1;
        }
        None
    }

    /// Validates an insertion of `id` for `to` without writing anything; on
    /// success returns the kitty count and `to`'s count, which become the
    /// new kitty's global and local index.
    fn check_mint(&self, to: AccountId, id: &KittyId) -> (r: Result<(u64, u64), KittyError>)
        requires
            self.wf(),
        ensures
            match r {
                Ok((total, owned)) => self@.mint_error(to, *id) is None
                    && total == self@.total() && owned == self@.count_owned(to),
                Err(e) => self@.mint_error(to, *id) == Some(e),
            },
    {
        if self.find(id).is_some() {
            return Err(KittyError::DuplicateId);
        }
        let total = self.ids.len() as u64;
        if total.checked_add(1).is_none() {
            return Err(KittyError::Overflow);
        }
        proof {
            lemma_count_of_le_len(self@.owners, to);
        }
        let owned: u64 = match self.owned.get(&to) {
            Some(list) => list.len() as u64,
            None => 0,
        };
        if owned.checked_add(1).is_none() {
            return Err(KittyError::Overflow);
        }
        Ok((total, owned))
    }

    /// Writes a kitty whose insertion `check_mint` accepted.
    fn insert_checked(&mut self, to: AccountId, id: KittyId, kitty: Kitty, total: u64, owned: u64)
        requires
            old(self).wf(),
            old(self)@.mint_error(to, id) is None,
            total == old(self)@.total(),
            owned == old(self)@.count_owned(to),
        ensures
            final(self).wf(),
            final(self)@ == old(self)@.minted(to, id, kitty),
    {
        proof {
            lemma_minted_inv(self@, to, id, kitty);
        }
        let ghost before = self@;
        self.ids.push(id);
        self.kitties.push(kitty);
        self.owners.push(to);
        self.local_index.push(owned);
        let mut list = match self.owned.remove(&to) {
            Some(list) => list,
            None => Vec::new(),
        };
        list.push(total);
        self.owned.insert(to, list);
        assert(self@.owned =~= before.minted(to, id, kitty).owned);
    }

    /// Inserts `new_kitty` under `kitty_id` for owner `to`: records it in the
    /// table, gives it the next global index and the next index among `to`'s
    /// kitties. Rejects an identifier already in use, and a count that would
    /// overflow; a rejected call writes nothing.
    pub fn mint(&mut self, to: AccountId, kitty_id: KittyId, new_kitty: Kitty) -> (r: Result<Event, KittyError>)
        requires
            old(self).wf(),
        ensures
            final(self).wf(),
            match old(self)@.mint_error(to, kitty_id) {
                Some(e) => r == Err::<Event, KittyError>(e) && final(self)@ == old(self)@,
                None => r == Ok::<Event, KittyError>(Event::KittyCreated(to, kitty_id))
                    && final(self)@ == old(self)@.minted(to, kitty_id, new_kitty),
            },
    {
        match self.check_mint(to, &kitty_id) {
            Err(e) => Err(e),
            Ok((total, owned)) => {
                self.insert_checked(to, kitty_id, new_kitty, total, owned);
                Ok(Event::KittyCreated(to, kitty_id))
            },
        }
    }

    /// Creates a kitty with identifier `id` for `caller`: its dna is `id`,
    /// its price and generation zero; then advances the nonce. All checks
    /// (identifier unused, no count and no nonce overflow) come before any
    /// write.
    pub fn create_kitty_with_id(&mut self, caller: AccountId, id: KittyId) -> (r: Result<Event, KittyError>)
        requires
            old(self).wf(),
        ensures
            final(self).wf(),
            (final(self)@, r) == old(self)@.create_step(caller, id),
    {
        match self.check_mint(caller, &id) {
            Err(e) => Err(e),
            Ok((total, owned)) => {
                if self.nonce == u64::MAX {
                    return Err(KittyError::Overflow);
                }
                proof {
                    lemma_created_inv(self@, caller, id);
                }
                let kitty = Kitty { id: id, dna: id, price: 0, gen: 0 };
                self.insert_checked(caller, id, kitty, total, owned);
                self.nonce = self.nonce + 1;
                Ok(Event::KittyCreated(caller, id))
            },
        }
    }

    /// Creates a kitty for `caller` whose identifier is derived from `seed`,
    /// `caller` and the current nonce.
    pub fn create_kitty(&mut self, caller: AccountId, seed: &KittyId) -> (r: Result<Event, KittyError>)
        requires
            old(self).wf(),
        ensures
            final(self).wf(),
            exists|id: KittyId|
                #[trigger] id@ == spec_generate_id(seed@, caller, old(self)@.nonce)
                    && (final(self)@, r) == old(self)@.create_step(caller, id),
    {
        let id = generate_id(seed, caller, self.nonce);
        self.create_kitty_with_id(caller, id)
    }

    /// Sets the price of kitty `kitty_id` to `new_price`. Only its owner may
    /// do so; an unknown identifier is `NotFound`, another caller
    /// `Unauthorized`, and a rejected call writes nothing.
    pub fn set_price(&mut self, caller: AccountId, kitty_id: KittyId, new_price: Balance) -> (r: Result<Event, KittyError>)
        requires
            old(self).wf(),
        ensures
            final(self).wf(),
            (final(self)@, r) == old(self)@.set_price_step(caller, kitty_id, new_price),
    {
        let g = match self.find(&kitty_id) {
            Some(g) => g,
            None => return Err(KittyError::NotFound),
        };
        let owner = self.owners[g];
        if caller != owner {
            return Err(KittyError::Unauthorized);
        }
        proof {
            lemma_priced_inv(self@, kitty_id, new_price);
        }
        let ghost before = self@;
        let mut kitty = self.kitties[g];
        kitty.price = new_price;
        self.kitties.set(g, kitty);
        assert(self@.kitties =~= before.priced(kitty_id, new_price).kitties);
        Ok(Event::PriceSet(owner, kitty_id, new_price))
    }

    /// Whether a kitty is recorded under `id`.
    pub fn kitty_exists(&self, id: &KittyId) -> (r: bool)
        requires
            self.wf(),
        ensures
            r == self@.has_id(*id),
    {
        self.find(id).is_some()
    }

    /// The record stored under `id`.
    pub fn kitty(&self, id: &KittyId) -> (r: Result<Kitty, KittyError>)
        requires
            self.wf(),
        ensures
            match r {
                Ok(k) => self@.has_id(*id) && k == self@.kitties[self@.index_of(*id)],
                Err(e) => !self@.has_id(*id) && e == KittyError::NotFound,
            },
    {
        match self.find(id) {
            Some(g) => Ok(self.kitties[g]),
            None => Err(KittyError::NotFound),
        }
    }

    /// The owner of the kitty under `id`.
    pub fn kitty_owner(&self, id: &KittyId) -> (r: Result<AccountId, KittyError>)
        requires
            self.wf(),
        ensures
            match r {
                Ok(o) => self@.has_id(*id) && o == self@.owners[self@.index_of(*id)],
                Err(e) => !self@.has_id(*id) && e == KittyError::NotFound,
            },
    {
        match self.find(id) {
            Some(g) => Ok(self.owners[g]),
            None => Err(KittyError::NotFound),
        }
    }

    /// The global index of the kitty under `id`.
    pub fn index_of_kitty(&self, id: &KittyId) -> (r: Option<u64>)
        requires
            self.wf(),
        ensures
            match r {
                Some(g) => self@.has_id(*id) && g == self@.index_of(*id),
                None => !self@.has_id(*id),
            },
    {
        match self.find(id) {
            Some(g) => Some(g as u64),
            None => None,
        }
    }

    /// The position of the kitty under `id` among its owner's kitties.
    pub fn kitty_at_index(&self, id: &KittyId) -> (r: Option<u64>)
        requires
            self.wf(),
        ensures
            match r {
                Some(j) => self@.has_id(*id) && j == self@.local_index[self@.index_of(*id)],
                None => !self@.has_id(*id),
            },
    {
        match self.find(id) {
            Some(g) => Some(self.local_index[g]),
            None => None,
        }
    }

    /// How many kitties there are.
    pub fn kitties_count(&self) -> (r: u64)
        requires
            self.wf(),
        ensures
            r == self@.total(),
    {
        self.ids.len() as u64
    }

    /// The identifier of the kitty at global index `index`, if there is one.
    pub fn kitty_id_at_index(&self, index: u64) -> (r: Option<KittyId>)
        requires
            self.wf(),
        ensures
            match r {
                Some(id) => index < self@.total() && id == self@.ids[index as int],
                None => index >= self@.total(),
            },
    {
        if index < self.ids.len() as u64 {
            Some(self.ids[index as usize])
        } else {
            None
        }
    }

    /// How many kitties `owner` has.
    pub fn num_kitties_owned_by(&self, owner: AccountId) -> (r: u64)
        requires
            self.wf(),
        ensures
            r == self@.count_owned(owner),
    {
        proof {
            lemma_count_of_le_len(self@.owners, owner);
        }
        match self.owned.get(&owner) {
            Some(list) => list.len() as u64,
            None => 0,
        }
    }

    /// The identifier of the kitty at position `index` among `owner`'s
    /// kitties, if there is one.
    pub fn kitty_of_owner_by_index(&self, owner: AccountId, index: u64) -> (r: Option<KittyId>)
        requires
            self.wf(),
        ensures
            match r {
                Some(id) => index < self@.count_owned(owner)
                    && id == self@.ids[self@.owned_of(owner)[index as int] as int],
                None => index >= self@.count_owned(owner),
            },
    {
        proof {
            lemma_count_of_le_len(self@.owners, owner);
        }
        match self.owned.get(&owner) {
            Some(list) => {
                assert(self@.owned_of(owner) == list@);
                assert(self@.count_owned(owner) <= self@.total());
                if index < list.len() as u64 {
                    let g = list[index as usize];
                    assert(g == self@.owned_of(owner)[index as int]);
                    let n = self.ids.len();
                    assert(g < n);
                    Some(self.ids[g as usize])
                } else {
                    None
                }
            },
            None => None,
        }
    }

    /// The nonce that the next create call mixes into its identifier.
    pub fn nonce(&self) -> (r: u64)
        ensures
            r == self@.nonce,
    {
        self.nonce
    }
}

} // verus!
