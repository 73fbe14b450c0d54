//! A note left by an account.
use vstd::prelude::*;
use crate::address::Address;

verus! {

/// A note (`note`) given by the account at `addr`.
pub struct Advice {
    pub note: u8,
    pub addr: Address,
}

} // verus!
