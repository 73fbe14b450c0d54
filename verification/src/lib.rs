//! A non-fungible token registry: tokens, their owners, miners and dealers,
//! with sales, votes and secrets, modelled as a verified state machine.
use vstd::prelude::*;

pub mod adder;
pub mod address;
pub mod advice;
pub mod bytes;
pub mod dealer;
pub mod dealers;
pub mod laws;
pub mod listing;
pub mod market;
pub mod minting;
pub mod ownership;
pub mod payments;
pub mod registry;
pub mod search;
pub mod secrets;
pub mod state;
pub mod token;
pub mod views;
pub mod words;

pub use adder::{Adder, AdderStorage};
pub use address::Address;
pub use advice::Advice;
pub use dealer::Dealer;
pub use state::{CallContext, ENonFungibleTokens, NftError, PayReason, Transfer};
pub use token::Token;

verus! {

/// Conversion factor from a markup unit to the smallest money unit.
pub const CONVERT_TO_GAS: u64 = 10000000000000000;

/// Property bit: the token is on sale.
pub const FOR_SALE: u16 = 0b0100000000000000;

/// Property bit: among the tokens of one mint, only some carry the gift.
pub const ONE_WINNER: u16 = 0b0010000000000000;

/// Property bit: the miner may burn the token.
pub const MINER_CAN_BURN: u16 = 0b0001000000000000;

/// Property bit: the token can be owned once only.
pub const UNIK: u16 = 0b0000100000000000;

/// Property bit: the owner's answer is not shown.
pub const SECRET_VOTE: u16 = 0b0000010000000000;

/// Property bit: on opening, the token goes back to its miner.
pub const RENT: u16 = 0b0000000010000000;

/// Property bit: the gift is paid only to whoever finds the secret.
pub const FIND_SECRET: u16 = 0b0000000000010000;

/// Property bit: the token is burnt when opened.
pub const SELF_DESTRUCTION: u16 = 0b0000000000001000;

/// Property bit: the token may be sold without a dealer.
pub const DIRECT_SELL: u16 = 0b0000000000000100;

/// Property bit: the owner may put the token on sale.
pub const CAN_RESELL: u16 = 0b0000000000000010;

/// Property bit: the owner may give the token away.
pub const CAN_TRANSFERT: u16 = 0b0000000000000001;

/// What a failed search returns.
pub const NOT_FIND: usize = usize::MAX;

/// Index of the zero address in the address registry.
pub const ZERO_ADDR: u64 = 1;

/// A position found by a search as the search returns it: the position
/// itself, or `NOT_FIND` for none (-1).
pub open spec fn index_or_not_find(i: int) -> usize {
    if i < 0 {
        NOT_FIND
    } else {
        i as usize
    }
}

/// `x + 1` in `usize`, wrapping to 0 at the top as the contract's release
/// build does.
pub open spec fn succ_wrapping(x: usize) -> usize {
    if x == usize::MAX {
        0
    } else {
        (x + 1) as usize
    }
}

/// `x + 1` in `usize`, wrapping to 0 at the top.
pub fn succ_wrapping_exec(x: usize) -> (r: usize)
    ensures
        r == succ_wrapping(x),
{
    if x == usize::MAX {
        0
    } else {
        x + 1
    }
}

} // verus!
