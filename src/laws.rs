use vstd::prelude::*;
use crate::model::{count_of, lemma_created_inv, RegistryModel};
use crate::types::{AccountId, Balance, Event, KittyError, KittyId};

verus! {

/// The state reached by applying create calls in order, each given by its
/// caller and the identifier it derived; `None` as soon as one is rejected.
pub open spec fn run_creates(m: RegistryModel, calls: Seq<(AccountId, KittyId)>) -> Option<RegistryModel>
    decreases calls.len(),
{
    if calls.len() == 0 {
        Some(m)
    } else {
        match run_creates(m, calls.drop_last()) {
            None => None,
            Some(m1) => {
                let (m2, r) = m1.create_step(calls.last().0, calls.last().1);
                if r is Ok {
                    Some(m2)
                } else {
                    None
                }
            },
        }
    }
}

/// The identifiers of a sequence of create calls, in order.
pub open spec fn call_ids(calls: Seq<(AccountId, KittyId)>) -> Seq<KittyId> {
    calls.map_values(|c: (AccountId, KittyId)| c.1)
}

/// The callers of a sequence of create calls, in order.
pub open spec fn call_owners(calls: Seq<(AccountId, KittyId)>) -> Seq<AccountId> {
    calls.map_values(|c: (AccountId, KittyId)| c.0)
}

/// Successful creates from an empty registry leave a valid state that holds
/// exactly the created kitties, in call order, with their callers as owners.
proof fn lemma_run_creates(nonce: u64, calls: Seq<(AccountId, KittyId)>)
    requires
        run_creates(RegistryModel::empty(nonce), calls) is Some,
    ensures
        ({
            let m = run_creates(RegistryModel::empty(nonce), calls)->Some_0;
            &&& m.inv()
            &&& m.ids == call_ids(calls)
            &&& m.owners == call_owners(calls)
        }),
    decreases calls.len(),
{
    let m0 = RegistryModel::empty(nonce);
    if calls.len() == 0 {
        assert(m0.ids =~= call_ids(calls));
        assert(m0.owners =~= call_owners(calls));
        assert forall|o: AccountId| #[trigger] m0.count_owned(o) == count_of(m0.owners, o) by {}
    } else {
        let prefix = calls.drop_last();
        lemma_run_creates(nonce, prefix);
        let m1 = run_creates(m0, prefix)->Some_0;
        let c = calls.last();
        lemma_created_inv(m1, c.0, c.1);
        let m2 = m1.created(c.0, c.1);
        assert(m2.ids =~= call_ids(calls));
        assert(m2.owners =~= call_owners(calls));
    }
}

/// Every sequence of successful create calls yields pairwise distinct
/// identifiers.
pub proof fn lemma_created_ids_distinct(nonce: u64, calls: Seq<(AccountId, KittyId)>)
    requires
        run_creates(RegistryModel::empty(nonce), calls) is Some,
    ensures
        forall|i: int, j: int|
            0 <= i < calls.len() && 0 <= j < calls.len() && i != j
                ==> #[trigger] calls[i].1 != #[trigger] calls[j].1,
{
    lemma_run_creates(nonce, calls);
    let m = run_creates(RegistryModel::empty(nonce), calls)->Some_0;
    assert forall|i: int, j: int|
        0 <= i < calls.len() && 0 <= j < calls.len() && i != j
            implies #[trigger] calls[i].1 != #[trigger] calls[j].1 by {
        assert(m.ids[i] == calls[i].1 && m.ids[j] == calls[j].1);
    }
}

/// After N successful creates the registry counts N kitties, and the global
/// indices 0..N give exactly the created identifiers, in creation order.
pub proof fn lemma_global_enumeration(nonce: u64, calls: Seq<(AccountId, KittyId)>)
    requires
        run_creates(RegistryModel::empty(nonce), calls) is Some,
    ensures
        ({
            let m = run_creates(RegistryModel::empty(nonce), calls)->Some_0;
            &&& m.total() == calls.len()
            &&& forall|i: int| 0 <= i < calls.len() ==> #[trigger] m.ids[i] == calls[i].1
        }),
{
    lemma_run_creates(nonce, calls);
}

/// After successful creates, each owner's count is the number of calls it
/// made, and its local indices 0..count give exactly the kitties it created,
/// each once.
pub proof fn lemma_owner_enumeration(nonce: u64, calls: Seq<(AccountId, KittyId)>, owner: AccountId)
    requires
        run_creates(RegistryModel::empty(nonce), calls) is Some,
    ensures
        ({
            let m = run_creates(RegistryModel::empty(nonce), calls)->Some_0;
            &&& m.count_owned(owner) == count_of(call_owners(calls), owner)
            &&& forall|j: int|
                0 <= j < m.count_owned(owner) ==> {
                    let g = #[trigger] m.owned_of(owner)[j];
                    &&& g < calls.len()
                    &&& calls[g as int].0 == owner
                    &&& m.ids[g as int] == calls[g as int].1
                }
            &&& forall|j1: int, j2: int|
                0 <= j1 < m.count_owned(owner) && 0 <= j2 < m.count_owned(owner) && j1 != j2
                    ==> #[trigger] m.owned_of(owner)[j1] != #[trigger] m.owned_of(owner)[j2]
            &&& forall|g: int|
                0 <= g < calls.len() && #[trigger] calls[g].0 == owner ==> {
                    &&& m.local_index[g] < m.count_owned(owner)
                    &&& m.owned_of(owner)[m.local_index[g] as int] == g
                }
        }),
{
    lemma_run_creates(nonce, calls);
    let m = run_creates(RegistryModel::empty(nonce), calls)->Some_0;
    assert(m.count_owned(owner) == count_of(m.owners, owner));
    assert forall|j: int| 0 <= j < m.count_owned(owner) implies {
        let g = #[trigger] m.owned_of(owner)[j];
        &&& g < calls.len()
        &&& calls[g as int].0 == owner
        &&& m.ids[g as int] == calls[g as int].1
    } by {
        let g = m.owned_of(owner)[j];
        assert(m.owners[g as int] == owner);
    }
    assert forall|j1: int, j2: int|
        0 <= j1 < m.count_owned(owner) && 0 <= j2 < m.count_owned(owner) && j1 != j2
            implies #[trigger] m.owned_of(owner)[j1] != #[trigger] m.owned_of(owner)[j2] by {
        assert(m.local_index[m.owned_of(owner)[j1] as int] == j1);
        assert(m.local_index[m.owned_of(owner)[j2] as int] == j2);
    }
    assert forall|g: int| 0 <= g < calls.len() && #[trigger] calls[g].0 == owner implies {
        &&& m.local_index[g] < m.count_owned(owner)
        &&& m.owned_of(owner)[m.local_index[g] as int] == g
    } by {
        assert(m.owners[g] == owner);
    }
}

/// The owner of a kitty may set its price: the call succeeds, the record then
/// holds the new price, and setting the same price again changes nothing.
pub proof fn lemma_set_price_by_owner(m: RegistryModel, id: KittyId, price: Balance)
    requires
        m.inv(),
        m.has_id(id),
    ensures
        ({
            let caller = m.owners[m.index_of(id)];
            let (m2, r) = m.set_price_step(caller, id, price);
            &&& r == Ok::<Event, KittyError>(Event::PriceSet(caller, id, price))
            &&& m2.has_id(id)
            &&& m2.kitties[m2.index_of(id)].price == price
            &&& m2.set_price_step(caller, id, price) == (m2, r)
        }),
{
    let g = m.index_of(id);
    assert(0 <= g < m.ids.len() && m.ids[g] == id);
    let m2 = m.priced(id, price);
    assert(m2.ids == m.ids);
    assert(m2.index_of(id) == g);
    assert(m2.priced(id, price).kitties =~= m2.kitties);
}

/// Anyone but the owner is refused with `Unauthorized`, and nothing changes,
/// the price included.
pub proof fn lemma_set_price_by_other(m: RegistryModel, caller: AccountId, id: KittyId, price: Balance)
    requires
        m.inv(),
        m.has_id(id),
        caller != m.owners[m.index_of(id)],
    ensures
        m.set_price_step(caller, id, price) == (m, Err::<Event, KittyError>(KittyError::Unauthorized)),
{
}

/// Setting the price of an unknown identifier is refused with `NotFound`,
/// and nothing changes.
pub proof fn lemma_set_price_unknown(m: RegistryModel, caller: AccountId, id: KittyId, price: Balance)
    requires
        !m.has_id(id),
    ensures
        m.set_price_step(caller, id, price) == (m, Err::<Event, KittyError>(KittyError::NotFound)),
{
}

/// With the kitty count or the caller's count at its largest value, an
/// insertion of a new identifier is refused with `Overflow`; with the nonce
/// at its largest value too, a create is refused with `Overflow` and the
/// state, its counts included, is unchanged.
pub proof fn lemma_counter_overflow(m: RegistryModel, caller: AccountId, id: KittyId)
    requires
        !m.has_id(id),
    ensures
        m.total() == u64::MAX || m.count_owned(caller) == u64::MAX
            ==> m.mint_error(caller, id) == Some(KittyError::Overflow),
        m.total() == u64::MAX || m.count_owned(caller) == u64::MAX || m.nonce == u64::MAX
            ==> m.create_step(caller, id) == (m, Err::<Event, KittyError>(KittyError::Overflow)),
{
}

} // verus!
