//! Selling tokens: what a buyer must hold, collection limits, and how the
//! payment is shared between the miner, the dealer and the owner.
use vstd::prelude::*;
use crate::address::Address;
use crate::dealer::DealerModel;
use crate::ownership::send_money_spec;
use crate::search::{first_match, lemma_first_match_is, lemma_first_match_none};
use crate::state::{reaches, settles, CallContext, ENonFungibleTokens, NftError, NftState, PayReason};
use crate::token::TokenModel;
use crate::words::{egld_name, is_egld};
use crate::{index_or_not_find, CONVERT_TO_GAS, DIRECT_SELL, FOR_SALE, NOT_FIND, ZERO_ADDR};

verus! {

/// The predicate "has description `d` and miner `m`".
pub open spec fn kind_of(d: u64, m: u64) -> spec_fn(TokenModel) -> bool {
    |t: TokenModel| t.description == d && t.miner == m
}

/// Some token has description `description`, miner `miner` and owner
/// `owner` (all positions in their registries).
pub open spec fn owns_kind(tokens: Seq<TokenModel>, owner: u64, description: u64, miner: u64) -> bool {
    exists|i: int|
        0 <= i < tokens.len() && (#[trigger] tokens[i]).description == description && tokens[i].miner
            == miner && tokens[i].owner == owner
}

/// Whether token `t` counts for `count_by_collection`.
pub open spec fn counted(t: TokenModel, owner: u64, creator: u64, collection: u64, now: u64) -> bool {
    &&& t.owner == owner
    &&& (collection == t.collection || collection == 0)
    &&& (creator == t.creator || creator == ZERO_ADDR)
    &&& !t.burnt_at(now)
}

/// The number of tokens of `tokens` that count, in a `u8` that wraps.
pub open spec fn count_in(tokens: Seq<TokenModel>, owner: u64, creator: u64, collection: u64, now: u64) -> u8
    decreases tokens.len(),
{
    if tokens.len() == 0 {
        0
    } else {
        let c = count_in(tokens.drop_last(), owner, creator, collection, now);
        if counted(tokens.last(), owner, creator, collection, now) {
            c.wrapping_add(1)
        } else {
            c
        }
    }
}

/// Whether the buyer at position `buyer` holds a token of the kind (the
/// description and miner) of each of the tokens `required`, starting with
/// `all_held`; a required id with no token fails.
pub open spec fn holds_required(s: NftState, buyer: u64, required: Seq<u64>, all_held: bool) -> Result<bool, NftError>
    decreases required.len(),
{
    if required.len() == 0 {
        Ok(all_held)
    } else {
        match s.token(required[0]) {
            None => Err(NftError::IndexOutOfRange),
            Some(r) => holds_required(
                s,
                buyer,
                required.drop_first(),
                all_held && owns_kind(s.tokens, buyer, r.description, r.miner),
            ),
        }
    }
}

/// Paying the dealer `d` its commission `for_dealer` on token `token_id`
/// (when `d` is not the zero dealer and the commission is not zero): the
/// miner first gets its share of the dealer's markup, taken from the
/// commission, when the token gives it one. The amounts are 64-bit and wrap.
pub open spec fn pay_dealer(s: NftState, t: TokenModel, d: DealerModel, token_id: u64, for_dealer: u64) -> Result<
    (NftState, ()),
    NftError,
> {
    if d.addr != ZERO_ADDR && for_dealer > 0 {
        let miner_paid = if t.miner_ratio > 0 {
            let markup = d.markup_of(token_id).0;
            let for_miner = 1000000000000u64.wrapping_mul(markup as u64).wrapping_mul(t.miner_ratio as u64);
            match s.address(t.miner) {
                None => Err(NftError::IndexOutOfRange),
                Some(m) => match send_money_spec(s, t.money, m, for_miner as u128, PayReason::MinerPay) {
                    Err(e) => Err(e),
                    Ok((s1, _)) => Ok((s1, for_dealer.wrapping_sub(for_miner))),
                },
            }
        } else {
            Ok((s, for_dealer))
        };
        match miner_paid {
            Err(e) => Err(e),
            Ok((s1, rest)) => match s1.address(d.addr) {
                None => Err(NftError::IndexOutOfRange),
                Some(a) => send_money_spec(s1, t.money, a, rest as u128, PayReason::DealerPay),
            },
        }
    } else {
        Ok((s, ()))
    }
}

/// What the owner of a token is paid: for a money other than the chain's
/// own, the price in markup units less the dealer's commission; for the
/// chain's money, the payment less the commission, which must reach the
/// price.
pub open spec fn owner_share(payment: u128, for_dealer: u64, price: u32, money: Seq<u8>) -> Result<u128, NftError> {
    if money != egld_name() {
        let gross = CONVERT_TO_GAS.wrapping_mul(price as u64);
        if gross < for_dealer {
            Err(NftError::NegativeAmount)
        } else {
            Ok((gross - for_dealer) as u128)
        }
    } else {
        let net = payment - for_dealer;
        if net >= price {
            Ok(net as u128)
        } else {
            Err(NftError::E33PaymentTooLow)
        }
    }
}

/// `buy`: the caller buys token `token_id`, on sale, through the dealer of
/// `dealer_addr`, paying `ctx.payment`; the dealer (and through it the
/// miner) and the owner are paid, and the token goes to the caller, off
/// sale. Gives the token's id.
pub open spec fn buy_spec(s: NftState, ctx: CallContext, token_id: u64, dealer_addr: Address) -> Result<
    (NftState, u64),
    NftError,
> {
    let idx_dealer = s.idx_dealer(s.idx_address(dealer_addr));
    if idx_dealer == NOT_FIND {
        Err(NftError::E55UnknownSeller)
    } else if !(token_id <= s.total_minted()) {
        Err(NftError::E12TokenDoesNotExist)
    } else {
        match s.token(token_id) {
            None => Err(NftError::IndexOutOfRange),
            Some(t) => {
                let (s1, buyer) = s.reg_address(ctx.caller);
                if t.owner == buyer {
                    Err(NftError::E29AlreadyOwned)
                } else if t.properties & FOR_SALE == 0 {
                    Err(NftError::E30NotForSale)
                } else {
                    match holds_required(s1, buyer, t.required, true) {
                        Err(e) => Err(e),
                        Ok(false) => Err(NftError::E66MissingRequiredTokens),
                        Ok(true) => if t.limit > 0 && !(count_in(
                            s1.tokens,
                            buyer,
                            t.creator,
                            t.collection,
                            ctx.timestamp,
                        ) < t.limit) {
                            Err(NftError::E67CollectionLimit)
                        } else {
                            match s1.dealer(idx_dealer) {
                                None => Err(NftError::IndexOutOfRange),
                                Some(d) => {
                                    let for_dealer = CONVERT_TO_GAS.wrapping_mul(d.markup_of(token_id).0 as u64);
                                    if !(t.properties & DIRECT_SELL > 0 || d.addr != ZERO_ADDR) {
                                        Err(NftError::E31DirectSellForbidden)
                                    } else if ctx.payment < for_dealer {
                                        Err(NftError::NegativeAmount)
                                    } else {
                                        match s1.money(t.money) {
                                            None => Err(NftError::IndexOutOfRange),
                                            Some(m) => match owner_share(ctx.payment, for_dealer, t.price, m) {
                                                Err(e) => Err(e),
                                                Ok(for_owner) => match pay_dealer(s1, t, d, token_id, for_dealer) {
                                                    Err(e) => Err(e),
                                                    Ok((s2, _)) => {
                                                        let paid = if for_owner > 0 {
                                                            match s2.address(t.owner) {
                                                                None => Err(NftError::IndexOutOfRange),
                                                                Some(o) => send_money_spec(
                                                                    s2,
                                                                    t.money,
                                                                    o,
                                                                    for_owner,
                                                                    PayReason::OwnerPay,
                                                                ),
                                                            }
                                                        } else {
                                                            Ok((s2, ()))
                                                        };
                                                        match paid {
                                                            Err(e) => Err(e),
                                                            Ok((s3, _)) => Ok(
                                                                (
                                                                    s3.with_token(
                                                                        token_id,
                                                                        TokenModel {
                                                                            properties: t.properties & !FOR_SALE,
                                                                            owner: buyer,
                                                                            ..t
                                                                        },
                                                                    ),
                                                                    token_id,
                                                                ),
                                                            ),
                                                        }
                                                    },
                                                },
                                            },
                                        }
                                    }
                                },
                            }
                        },
                    }
                }
            },
        }
    }
}

impl ENonFungibleTokens {
    /// Whether the owner at position `idx_owner` holds a token with
    /// description `idx_description` and miner `idx_miner_addr`.
    pub fn owner_has_required_token(&self, idx_owner: u64, idx_description: u64, idx_miner_addr: u64) -> (r: bool)
        ensures
            r == owns_kind(self@.tokens, idx_owner, idx_description, idx_miner_addr),
    {
        let n = self.tokens_map.len();
        let mut i: usize = 0;
        while i < n
            invariant
                n == self.tokens_map@.len(),
                i <= n,
                forall|j: int|
                    0 <= j < i ==> !((#[trigger] self@.tokens[j]).description == idx_description
                        && self@.tokens[j].miner == idx_miner_addr && self@.tokens[j].owner == idx_owner),
            decreases n - i,
        {
            let t = &self.tokens_map[i];
            if t.description == idx_description && t.miner == idx_miner_addr && t.owner == idx_owner {
                assert(self@.tokens[i as int] == t@);
                return true;
            }
            i = i + 1;
        }
        return false;
    }

    /// The 0-based position of the first token with description
    /// `description` and miner `miner`, or `NOT_FIND`.
    pub fn get_idx_token_by_desc_and_addr(&self, description: &Vec<u8>, miner: &Address) -> (r: u64)
        ensures
            r == index_or_not_find(
                first_match(
                    self@.tokens,
                    kind_of(self@.idx_str(description@) as u64, self@.idx_address(*miner)),
                ),
            ) as u64,
    {
        let idx_description = self.get_idx_str(description) as u64;
        let idx_miner = self.get_idx_addresses(miner);
        let ghost p = kind_of(idx_description, idx_miner);
        let n = self.tokens_map.len();
        let mut i: usize = 0;
        while i < n
            invariant
                n == self.tokens_map@.len(),
                i <= n,
                p == kind_of(idx_description, idx_miner),
                idx_description == self@.idx_str(description@) as u64,
                idx_miner == self@.idx_address(*miner),
                forall|j: int| 0 <= j < i ==> !p(#[trigger] self@.tokens[j]),
            decreases n - i,
        {
            let t = &self.tokens_map[i];
            if t.description == idx_description && t.miner == idx_miner {
                proof {
                    assert(self@.tokens[i as int] == t@);
                    lemma_first_match_is(self@.tokens, p, i as int);
                }
                return i as u64;
            }
            i = i + 1;
        }
        proof {
            lemma_first_match_none(self@.tokens, p);
        }
        return NOT_FIND as u64;
    }

    /// The number (in a `u8` that wraps) of live tokens at time `now` owned
    /// by `owner_filter`, in collection `idx_collection_filter` (0 for any),
    /// created by `creator_filter` (the zero address for any).
    pub fn count_by_collection(&self, owner_filter: u64, creator_filter: u64, idx_collection_filter: u64, now: u64) -> (r: u8)
        ensures
            r == count_in(self@.tokens, owner_filter, creator_filter, idx_collection_filter, now),
    {
        let mut rc: u8 = 0;
        let n = self.tokens_map.len();
        let mut i: usize = 0;
        while i < n
            invariant
                n == self.tokens_map@.len(),
                i <= n,
                rc == count_in(self@.tokens.subrange(0, i as int), owner_filter, creator_filter, idx_collection_filter, now),
            decreases n - i,
        {
            let token = &self.tokens_map[i];
            let ghost prefix = self@.tokens.subrange(0, i + 1);
            assert(prefix.drop_last() =~= self@.tokens.subrange(0, i as int));
            assert(prefix.last() == token@);
            if token.owner == owner_filter && (idx_collection_filter == token.collection || idx_collection_filter == 0)
                && (creator_filter == token.creator || creator_filter == ZERO_ADDR) && !token.is_burn(now) {
                rc = rc.wrapping_add(1);
            }
            i = i + 1;
        }
        assert(self@.tokens.subrange(0, n as int) =~= self@.tokens);
        return rc;
    }

    /// Whether the caller at position `buyer` holds a token of the kind of
    /// each of `required`.
    fn holds_required_tokens(&self, buyer: u64, required: &Vec<u64>) -> (r: Result<bool, NftError>)
        ensures
            r == holds_required(self@, buyer, required@, true),
    {
        let ghost goal = holds_required(self@, buyer, required@, true);
        assert(required@.skip(0) =~= required@);
        let n = required.len();
        let mut bc = true;
        let mut i: usize = 0;
        while i < n
            invariant
                n == required@.len(),
                i <= n,
                holds_required(self@, buyer, required@.skip(i as int), bc) == goal,
                goal == holds_required(self@, buyer, required@, true),
            decreases n - i,
        {
            let ghost rest = required@.skip(i as int);
            assert(rest[0] == required@[i as int]);
            assert(rest.drop_first() =~= required@.skip(i + 1));
            let loaded = self.load_token(required[i]);
            let token_required = match loaded {
                Ok(t) => t,
                Err(e) => {
                    assert(holds_required(self@, buyer, rest, bc) == Err::<bool, NftError>(NftError::IndexOutOfRange));
                    return Err(e);
                },
            };
            if !self.owner_has_required_token(buyer, token_required.description, token_required.miner) {
                bc = false;
            }
            i = i + 1;
        }
        assert(required@.skip(n as int) =~= Seq::<u64>::empty());
        Ok(bc)
    }

    /// The caller buys token `token_id`, which must be on sale, through the
    /// dealer of `dealer_addr`, paying `ctx.payment`. The dealer gets its
    /// commission (of which the miner gets a share), the owner the rest; the
    /// token goes to the caller, off sale. Returns the token's id.
    pub fn buy(&mut self, ctx: &CallContext, token_id: u64, dealer_addr: Address) -> (r: Result<u64, NftError>)
        requires
            old(self)@.wf(),
        ensures
            settles(old(self)@, final(self)@, r, buy_spec(old(self)@, *ctx, token_id, dealer_addr)),
    {
        let saved = self.snapshot();
        let r = self.buy_steps(ctx, token_id, dealer_addr);
        if r.is_err() {
            *self = saved;
        }
        r
    }

    /// The steps of `buy`, leaving partial changes on failure.
    fn buy_steps(&mut self, ctx: &CallContext, token_id: u64, dealer_addr: Address) -> (r: Result<u64, NftError>)
        requires
            old(self)@.wf(),
        ensures
            reaches(final(self)@, r, buy_spec(old(self)@, *ctx, token_id, dealer_addr)),
    {
        let payment = ctx.payment;
        let idx_dealer = self.get_idx_dealer(self.get_idx_addresses(&dealer_addr));
        if !(idx_dealer != NOT_FIND) {
            return Err(NftError::E55UnknownSeller);
        }
        if !(token_id <= self.get_total_minted()) {
            return Err(NftError::E12TokenDoesNotExist);
        }
        let mut token = self.load_token(token_id)?;
        let idx_caller = self.set_addresses(&ctx.caller);
        if !(token.owner != idx_caller) {
            return Err(NftError::E29AlreadyOwned);
        }
        if !(token.properties & FOR_SALE > 0) {
            return Err(NftError::E30NotForSale);
        }
        if token.required.len() > 0 {
            let bc = self.holds_required_tokens(idx_caller, &token.required)?;
            if !bc {
                return Err(NftError::E66MissingRequiredTokens);
            }
        } else {
            assert(holds_required(self@, idx_caller, token@.required, true) == Ok::<bool, NftError>(true));
        }
        if token.limit > 0 {
            if !(self.count_by_collection(idx_caller, token.creator, token.collection, ctx.timestamp) < token.limit) {
                return Err(NftError::E67CollectionLimit);
            }
        }
        let dealer = self.load_dealer(idx_dealer)?;
        proof {
            assert(self@.dealers[idx_dealer - 1].wf());
        }
        let (mark_up, _max_markup) = dealer.find_markup(token_id);
        let mut payment_for_dealer = CONVERT_TO_GAS.wrapping_mul(mark_up as u64);
        if !(token.properties & DIRECT_SELL > 0 || !dealer.is_zero()) {
            return Err(NftError::E31DirectSellForbidden);
        }
        if payment < payment_for_dealer as u128 {
            return Err(NftError::NegativeAmount);
        }
        let mut payment_for_owner: u128 = payment - payment_for_dealer as u128;
        let money = self.load_money(token.money)?;
        if !is_egld(money.as_slice()) {
            let gross = CONVERT_TO_GAS.wrapping_mul(token.price as u64);
            if gross < payment_for_dealer {
                return Err(NftError::NegativeAmount);
            }
            payment_for_owner = (gross - payment_for_dealer) as u128;
        } else {
            if !(payment_for_owner >= token.price as u128) {
                return Err(NftError::E33PaymentTooLow);
            }
        }
        if !dealer.is_zero() && payment_for_dealer > 0 {
            if token.miner_ratio > 0 {
                let (markup, _max) = dealer.find_markup(token_id);
                let payment_for_miner = 1000000000000u64.wrapping_mul(markup as u64).wrapping_mul(
                    token.miner_ratio as u64,
                );
                let miner_addr = self.get_addresses(token.miner)?;
                self.send_money(token.money, &miner_addr, payment_for_miner as u128, PayReason::MinerPay)?;
                payment_for_dealer = payment_for_dealer.wrapping_sub(payment_for_miner);
            }
            let dealer_account = self.get_addresses(dealer.addr)?;
            self.send_money(token.money, &dealer_account, payment_for_dealer as u128, PayReason::DealerPay)?;
        }
        if payment_for_owner > 0 {
            let owner_account = self.get_addresses(token.owner)?;
            self.send_money(token.money, &owner_account, payment_for_owner, PayReason::OwnerPay)?;
        }
        token.properties = token.properties & !FOR_SALE;
        token.owner = idx_caller;
        let stored = self.store_token(token_id, token);
        assert(stored is Ok);
        return Ok(token_id);
    }
}

} // verus!
