//! A one-counter contract: it holds a sum, set when it is created, to which
//! callers add.
use vstd::prelude::*;
use crate::address::Address;

verus! {

/// The counter contract: a sum set at creation, the account that created
/// it, and a dealer count that starts at zero.
pub trait Adder: Sized {
    /// The sum.
    spec fn sum_of(&self) -> i128;

    /// The account that created the contract.
    spec fn owner_of(&self) -> Address;

    /// The dealer count.
    spec fn dealer_count_of(&self) -> u16;

    /// Creates the contract for `caller` with the sum `initial_value` and a
    /// dealer count of zero.
    fn init(caller: Address, initial_value: i128) -> (r: Self)
        ensures
            r.sum_of() == initial_value,
            r.owner_of() == caller,
            r.dealer_count_of() == 0,
    ;

    /// Adds `value` to the sum; anyone can add, the creator too. The sum is an
    /// `i128`, so the new sum must fit in one.
    fn add(&mut self, value: i128)
        requires
            i128::MIN <= old(self).sum_of() + value <= i128::MAX,
        ensures
            final(self).sum_of() == old(self).sum_of() + value,
            final(self).owner_of() == old(self).owner_of(),
            final(self).dealer_count_of() == old(self).dealer_count_of(),
    ;

    /// The current sum.
    fn get_sum(&self) -> (r: i128)
        ensures
            r == self.sum_of(),
    ;

    /// The account that created the contract.
    fn contract_owner(&self) -> (r: Address)
        ensures
            r == self.owner_of(),
    ;

    /// The dealer count.
    fn get_dealer_count(&self) -> (r: u16)
        ensures
            r == self.dealer_count_of(),
    ;
}

/// The counter contract's storage.
pub struct AdderStorage {
    pub sum: i128,
    pub owner: Address,
    pub dealer_count: u16,
}

impl Adder for AdderStorage {
    open spec fn sum_of(&self) -> i128 {
        self.sum
    }

    open spec fn owner_of(&self) -> Address {
        self.owner
    }

    open spec fn dealer_count_of(&self) -> u16 {
        self.dealer_count
    }

    fn init(caller: Address, initial_value: i128) -> (r: AdderStorage) {
        AdderStorage { sum: initial_value, owner: caller, dealer_count: 0 }
    }

    fn add(&mut self, value: i128) {
        self.sum = self.sum + value;
        let _x = self.get_dealer_count();
    }

    fn get_sum(&self) -> (r: i128) {
        self.sum
    }

    fn contract_owner(&self) -> (r: Address) {
        self.owner
    }

    fn get_dealer_count(&self) -> (r: u16) {
        self.dealer_count
    }
}

} // verus!
