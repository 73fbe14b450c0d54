//! The contract's storage, its model, and the registries through which tokens
//! refer to addresses, strings, moneys and dealers.
use std::collections::HashMap;
use vstd::prelude::*;
use crate::address::Address;
use crate::dealer::{Dealer, DealerModel};
use crate::search::first_match;
use crate::token::{Token, TokenModel};
use crate::{index_or_not_find, succ_wrapping, NOT_FIND};

verus! {

/// What an outgoing payment is for; each reason has the comment that goes
/// with the payment.
#[derive(Clone, Copy, Debug, PartialEq, Eq, Structural)]
pub enum PayReason {
    /// The gift of a burnt token goes back to its miner.
    MinerRefund,
    /// The gift of a token goes to its owner.
    PayForGift,
    /// The miner's share of a dealer's commission.
    MinerPay,
    /// The dealer's commission.
    DealerPay,
    /// What the seller of a token receives.
    OwnerPay,
}

/// The comment bytes sent with a payment for `reason`.
pub open spec fn comment_of(reason: PayReason) -> Seq<u8> {
    match reason {
        // "Miner refund"
        PayReason::MinerRefund => seq![77u8, 105, 110, 101, 114, 32, 114, 101, 102, 117, 110, 100],
        // "pay for gift"
        PayReason::PayForGift => seq![112u8, 97, 121, 32, 102, 111, 114, 32, 103, 105, 102, 116],
        // "miner pay"
        PayReason::MinerPay => seq![109u8, 105, 110, 101, 114, 32, 112, 97, 121],
        // "dealer pay"
        PayReason::DealerPay => seq![100u8, 101, 97, 108, 101, 114, 32, 112, 97, 121],
        // "owner pay"
        PayReason::OwnerPay => seq![111u8, 119, 110, 101, 114, 32, 112, 97, 121],
    }
}

impl PayReason {
    /// The comment bytes sent with a payment for this reason.
    pub fn comment(&self) -> (r: Vec<u8>)
        ensures
            r@ == comment_of(*self),
    {
        let r = match self {
            PayReason::MinerRefund => vec![77u8, 105, 110, 101, 114, 32, 114, 101, 102, 117, 110, 100],
            PayReason::PayForGift => vec![112u8, 97, 121, 32, 102, 111, 114, 32, 103, 105, 102, 116],
            PayReason::MinerPay => vec![109u8, 105, 110, 101, 114, 32, 112, 97, 121],
            PayReason::DealerPay => vec![100u8, 101, 97, 108, 101, 114, 32, 112, 97, 121],
            PayReason::OwnerPay => vec![111u8, 119, 110, 101, 114, 32, 112, 97, 121],
        };
        assert(r@ =~= comment_of(*self));
        r
    }
}

/// A payment the contract orders: `amount` of the money named `money` to
/// the account `to`.
pub struct Transfer {
    pub money: Vec<u8>,
    pub to: Address,
    pub amount: u128,
    pub reason: PayReason,
}

/// The value of a payment order.
#[verifier::ext_equal]
pub struct TransferModel {
    pub money: Seq<u8>,
    pub to: Address,
    pub amount: u128,
    pub reason: PayReason,
}

impl View for Transfer {
    type V = TransferModel;

    open spec fn view(&self) -> TransferModel {
        TransferModel { money: self.money@, to: self.to, amount: self.amount, reason: self.reason }
    }
}

/// What the chain tells the contract about a call: who calls, the block
/// time, and the amount paid with the call. The chain's amounts are
/// unbounded; `payment` holds those that fit in a `u128`, and a call with
/// a larger payment is refused before it reaches the contract.
#[derive(Clone, Copy, Debug)]
pub struct CallContext {
    pub caller: Address,
    pub timestamp: u64,
    pub payment: u128,
}

/// Why a call failed. A failed call leaves the storage as it was.
#[derive(Clone, Copy, Debug, PartialEq, Eq, Structural)]
pub enum NftError {
    /// A storage list was read or written at a position it does not have.
    IndexOutOfRange,
    /// An amount would have gone below zero.
    NegativeAmount,
    /// A stored value did not have the length of its type (an empty
    /// approval read as an address).
    BadStoredLength,
    /// E02: the description is empty.
    E02EmptyDescription,
    /// E04: the miner's share is above 10000.
    E04MinerRatio,
    /// E05: the payment does not match the gifts.
    E05PaymentMismatch,
    /// E06: approval of a token that does not exist.
    E06TokenDoesNotExist,
    /// E07: only the owner can approve.
    E07OnlyOwnerApproves,
    /// E08: revocation for a token that does not exist.
    E08TokenDoesNotExist,
    /// E09: only the owner can revoke.
    E09OnlyOwnerRevokes,
    /// E10: only the owner may do this.
    E10OnlyOwner,
    /// E11: the token holds no secret.
    E11NoSecret,
    /// E12: the token does not exist.
    E12TokenDoesNotExist,
    /// E13: the token cannot be given.
    E13NotTransferable,
    /// E15: burning a token that does not exist.
    E15TokenDoesNotExist,
    /// E16: only the owner (or the miner, where allowed) can burn.
    E16BurnNotAllowed,
    /// E17: only the owner can change the sale state.
    E17OnlyOwnerChangesState,
    /// E18: the token cannot be put on sale.
    E18NotResellable,
    /// E21: only the owner can add a dealer.
    E21OnlyOwnerAddsDealer,
    /// E23: the token no longer exists.
    E23TokenBurnt,
    /// E23: only the owner can remove dealers.
    E23OnlyOwnerRemovesDealer,
    /// E29: the buyer already owns the token.
    E29AlreadyOwned,
    /// E30: the token is not on sale.
    E30NotForSale,
    /// E31: direct sale is not allowed.
    E31DirectSellForbidden,
    /// E33: unknown dealer.
    E33UnknownDealer,
    /// E33: the payment is below the price.
    E33PaymentTooLow,
    /// E52: a token on sale cannot be changed.
    E52OnSale,
    /// E55: the caller is not a listed dealer.
    E55DealerNotListed,
    /// E55: unknown seller.
    E55UnknownSeller,
    /// E65: invalid money.
    E65InvalidMoney,
    /// E66: the buyer lacks the required tokens.
    E66MissingRequiredTokens,
    /// E67: the buyer reached the limit for this collection.
    E67CollectionLimit,
    /// E68: the token is burnt.
    E68TokenBurnt,
    /// E88: only the miner can clone a token.
    E88OnlyMinerClones,
    /// E88: a token holding funds must be created by its miner.
    E88GiftNeedsMiner,
    /// E88: the required token does not exist.
    E88RequiredTokenMissing,
    /// E89: the markup is outside its allowed range.
    E89MarkupOutOfRange,
    /// The token to update does not exist.
    UpdateTokenDoesNotExist,
    /// Only the miner can update the token.
    OnlyMinerUpdates,
    /// The caller is not a listed dealer.
    DealerNotListed,
}

/// The contract's storage. The lists `tokens_map`, `esdt_map` and
/// `dealers_map` are read at positions 1..=len; tokens refer to addresses
/// and strings by 0-based position. `approvals` maps token ids to approved
/// accounts. `ipfs_map` maps miners' addresses to amounts, one entry per
/// address (see `NftState::wf`). `outbox` lists, in order, the payments the
/// contract has ordered.
pub struct ENonFungibleTokens {
    pub tokens_map: Vec<Token>,
    pub addresses: Vec<Address>,
    pub esdt_map: Vec<Vec<u8>>,
    pub dealers_map: Vec<Dealer>,
    pub strs: Vec<Vec<u8>>,
    pub approvals: HashMap<u64, Address>,
    pub ipfs_map: Vec<(Address, u128)>,
    pub outbox: Vec<Transfer>,
}

/// The value of the storage.
#[verifier::ext_equal]
pub struct NftState {
    pub tokens: Seq<TokenModel>,
    pub addresses: Seq<Address>,
    pub esdt: Seq<Seq<u8>>,
    pub dealers: Seq<DealerModel>,
    pub strs: Seq<Seq<u8>>,
    pub approvals: Map<u64, Address>,
    pub ipfs: Seq<(Address, u128)>,
    pub outbox: Seq<TransferModel>,
}

/// The predicate "equals the address `a`".
pub open spec fn eq_addr(a: Address) -> spec_fn(Address) -> bool {
    |x: Address| x == a
}

/// The predicate "equals the bytes `b`".
pub open spec fn eq_bytes(b: Seq<u8>) -> spec_fn(Seq<u8>) -> bool {
    |x: Seq<u8>| x == b
}

/// The predicate "is the dealer of the address at position `a`".
pub open spec fn dealer_of(a: u64) -> spec_fn(DealerModel) -> bool {
    |d: DealerModel| d.addr == a
}

/// The element at 1-based position `i` of `s`, as a storage list is read.
pub open spec fn at_one_based<A>(s: Seq<A>, i: usize) -> Option<A> {
    if 1 <= i <= s.len() {
        Some(s[i - 1])
    } else {
        None
    }
}

/// The element at 0-based position `idx` of `s`, read as the contract reads
/// its registries: at 1-based position `idx + 1` of the storage list.
pub open spec fn at_index<A>(s: Seq<A>, idx: u64) -> Option<A> {
    at_one_based(s, succ_wrapping(idx as usize))
}

impl NftState {
    /// Every dealer's lists have one entry per token, and no address has
    /// two entries in the miners' map `ipfs`.
    pub open spec fn wf(self) -> bool {
        &&& forall|i: int| 0 <= i < self.dealers.len() ==> (#[trigger] self.dealers[i]).wf()
        &&& forall|i: int, j: int|
            0 <= i < j < self.ipfs.len() ==> (#[trigger] self.ipfs[i]).0 != (#[trigger] self.ipfs[j]).0
    }

    /// Number of tokens, the placeholder of `init` included.
    pub open spec fn total_minted(self) -> u64 {
        self.tokens.len() as u64
    }

    /// The token with id `id` (ids start at 1).
    pub open spec fn token(self, id: u64) -> Option<TokenModel> {
        at_one_based(self.tokens, id as usize)
    }

    /// The state with the token of id `id` replaced by `t`.
    pub open spec fn with_token(self, id: u64, t: TokenModel) -> NftState {
        NftState { tokens: self.tokens.update(id as usize - 1, t), ..self }
    }

    /// The address at position `idx` of the address registry.
    pub open spec fn address(self, idx: u64) -> Option<Address> {
        at_index(self.addresses, idx)
    }

    /// The first position of `a` in the address registry, or `NOT_FIND`.
    pub open spec fn idx_address(self, a: Address) -> u64 {
        index_or_not_find(first_match(self.addresses, eq_addr(a))) as u64
    }

    /// Registers `a` if it is not registered yet; gives the new state and
    /// the position of `a`.
    pub open spec fn reg_address(self, a: Address) -> (NftState, u64) {
        let p = first_match(self.addresses, eq_addr(a));
        if p >= 0 {
            (self, p as u64)
        } else {
            (NftState { addresses: self.addresses.push(a), ..self }, self.addresses.len() as u64)
        }
    }

    /// The string at position `idx` of the string registry.
    pub open spec fn string(self, idx: u64) -> Option<Seq<u8>> {
        at_index(self.strs, idx)
    }

    /// The first position of `v` in the string registry, or `NOT_FIND`.
    pub open spec fn idx_str(self, v: Seq<u8>) -> usize {
        index_or_not_find(first_match(self.strs, eq_bytes(v)))
    }

    /// Registers the string `v` if it is not registered yet; gives the new
    /// state and the position of `v`.
    pub open spec fn reg_str(self, v: Seq<u8>) -> (NftState, u64) {
        let p = first_match(self.strs, eq_bytes(v));
        if p >= 0 {
            (self, p as u64)
        } else {
            (NftState { strs: self.strs.push(v), ..self }, self.strs.len() as u64)
        }
    }

    /// Registers the money `v` if it is not registered yet; gives the new
    /// state and the 1-based position of `v`, cut to 16 bits.
    pub open spec fn reg_esdt(self, v: Seq<u8>) -> (NftState, u16) {
        let p = first_match(self.esdt, eq_bytes(v));
        if p >= 0 {
            (self, succ_wrapping(p as usize) as u16)
        } else {
            (
                NftState { esdt: self.esdt.push(v), ..self },
                succ_wrapping(self.esdt.len() as usize) as u16,
            )
        }
    }

    /// The money at 1-based position `i`.
    pub open spec fn money(self, i: u16) -> Option<Seq<u8>> {
        at_one_based(self.esdt, i as usize)
    }

    /// The 1-based position of the first dealer of the address at position
    /// `addr_idx`, or `NOT_FIND` when there is none.
    pub open spec fn idx_dealer(self, addr_idx: u64) -> usize {
        let p = first_match(self.dealers, dealer_of(addr_idx));
        if p < 0 {
            NOT_FIND
        } else {
            (p + 1) as usize
        }
    }

    /// The dealer at 1-based position `i`.
    pub open spec fn dealer(self, i: usize) -> Option<DealerModel> {
        at_one_based(self.dealers, i)
    }

    /// The state with a payment order appended.
    pub open spec fn pay(self, money: Seq<u8>, to: Address, amount: u128, reason: PayReason) -> NftState {
        NftState {
            outbox: self.outbox.push(TransferModel { money, to, amount, reason }),
            ..self
        }
    }
}

impl View for ENonFungibleTokens {
    type V = NftState;

    open spec fn view(&self) -> NftState {
        NftState {
            tokens: self.tokens_map@.map_values(|t: Token| t@),
            addresses: self.addresses@,
            esdt: self.esdt_map@.map_values(|v: Vec<u8>| v@),
            dealers: self.dealers_map@.map_values(|d: Dealer| d@),
            strs: self.strs@.map_values(|v: Vec<u8>| v@),
            approvals: self.approvals@,
            ipfs: self.ipfs_map@,
            outbox: self.outbox@.map_values(|t: Transfer| t@),
        }
    }
}

} // verus!

verus! {

/// A call that leaves the storage as it was when it fails: on success the
/// storage and the result are those of `spec`; on failure the error is that
/// of `spec` and the storage is unchanged.
pub open spec fn settles<V>(
    before: NftState,
    after: NftState,
    r: Result<V, NftError>,
    spec: Result<(NftState, V), NftError>,
) -> bool {
    match spec {
        Ok((s, v)) => after == s && r == Ok::<V, NftError>(v),
        Err(e) => after == before && r == Err::<V, NftError>(e),
    }
}

/// A step inside a call: on success the storage and the result are those of
/// `spec`; on failure the error is that of `spec` (the whole call then fails
/// and its storage is restored).
pub open spec fn reaches<V>(after: NftState, r: Result<V, NftError>, spec: Result<(NftState, V), NftError>) -> bool {
    match spec {
        Ok((s, v)) => after == s && r == Ok::<V, NftError>(v),
        Err(e) => r == Err::<V, NftError>(e),
    }
}

/// The result with its value taken by its view.
pub open spec fn view_result<T: View>(r: Result<T, NftError>) -> Result<T::V, NftError> {
    match r {
        Ok(v) => Ok(v@),
        Err(e) => Err(e),
    }
}

} // verus!
