use vstd::prelude::*;

verus! {

/// An account that can own kitties.
pub type AccountId = u64;

/// An amount of the native currency.
pub type Balance = u64;

/// A 256-bit hash that identifies a kitty.
pub type KittyId = [u8; 32];

/// A kitty record as stored in the registry.
#[derive(Clone, Copy, Debug, PartialEq, Eq)]
pub struct Kitty {
    pub id: KittyId,
    pub dna: KittyId,
    pub price: Balance,
    pub gen: u64,
}

/// What a successful call reports.
#[derive(Clone, Copy, Debug, PartialEq, Eq)]
pub enum Event {
    /// A kitty was created for an owner.
    KittyCreated(AccountId, KittyId),
    /// An owner set the price of a kitty.
    PriceSet(AccountId, KittyId, Balance),
}

/// Why a call was rejected. A rejected call changes nothing.
#[derive(Clone, Copy, Debug, PartialEq, Eq)]
pub enum KittyError {
    /// The identifier is already in use.
    DuplicateId,
    /// A counter would pass its largest value.
    Overflow,
    /// No kitty, or no owner, is recorded under the identifier.
    NotFound,
    /// The caller does not own the kitty.
    Unauthorized,
}

impl KittyError {
    /// A human-readable description of the error.
    pub fn message(&self) -> (r: &'static str) {
        match self {
            KittyError::DuplicateId => "This new id already exists.",
            KittyError::Overflow => "Overflow error, couldn't add another kitty to storage.",
            KittyError::NotFound => "Kitty with this id doesn't exist",
            KittyError::Unauthorized => "You are not the owner of this kitty.",
        }
    }
}

} // verus!
