//! Who the contract pays, and how much: the gift of an opened or burnt
//! token, and the shares of a sale; and what a buyer must hold.
use vstd::prelude::*;
use crate::address::Address;
use crate::market::{buy_spec, count_in, holds_required, owner_share, pay_dealer};
use crate::ownership::{burn_spec, perform_burn_spec};
use crate::secrets::{answer_spec, open_spec};
use crate::state::{CallContext, NftState, PayReason, TransferModel};
use crate::token::TokenModel;
use crate::words::egld_name;
use crate::{CONVERT_TO_GAS, DIRECT_SELL, FIND_SECRET, SELF_DESTRUCTION, ZERO_ADDR};

verus! {

/// The payment of `amount` of the money at 1-based position `money` to the
/// address at position `to`, for `reason`.
pub open spec fn payment_to(s: NftState, money: u16, to: u64, amount: u128, reason: PayReason) -> TransferModel {
    TransferModel { money: s.money(money)->0, to: s.address(to)->0, amount, reason }
}

/// Burning a token that carries a gift orders exactly one payment: the
/// gift, back to the token's miner as it was before the burn. Burning a
/// token without a gift orders none.
pub proof fn law_burn_refunds_miner(s: NftState, token_id: u64, t: TokenModel)
    ensures
        perform_burn_spec(s, token_id, t) matches Ok((s2, _)) ==> {
            &&& t.gift > 0 ==> s2.outbox == s.outbox.push(
                payment_to(s, t.money, t.miner, t.gift as u128, PayReason::MinerRefund),
            )
            &&& t.gift == 0 ==> s2.outbox == s.outbox
        },
{
}

/// Burning one token through `burn` refunds its gift, if any, to the
/// token's miner, and orders no other payment.
pub proof fn law_burn_one_refunds_miner(s: NftState, caller: Address, token_id: u64)
    ensures
        burn_spec(s, caller, seq![token_id]) matches Ok((s2, _)) ==> {
            let t = s.token(token_id)->0;
            &&& t.gift > 0 ==> s2.outbox == s.outbox.push(
                payment_to(s, t.money, t.miner, t.gift as u128, PayReason::MinerRefund),
            )
            &&& t.gift == 0 ==> s2.outbox == s.outbox
        },
{
    let ids = seq![token_id];
    assert(ids.drop_first() =~= Seq::<u64>::empty());
    reveal_with_fuel(burn_spec, 2);
    if let Some(t) = s.token(token_id) {
        law_burn_refunds_miner(s, token_id, t);
    }
}

/// Opening a token pays its gift to the owner who opens it, once: when the
/// token has a gift and the secret need not be found, or is found, `open`
/// orders exactly one payment, the gift, to the caller. A gift that stays
/// with a self-destroying token goes back to its miner; otherwise nothing
/// is paid.
pub proof fn law_open_pays_gift_to_owner(s: NftState, ctx: CallContext, token_id: u64, response: Seq<u8>)
    ensures
        open_spec(s, ctx, token_id, response) matches Ok((s2, _)) ==> {
            let t = s.token(token_id)->0;
            let found = s.string(t.secret)->0 == response;
            let paid = t.gift > 0 && (t.properties & FIND_SECRET == 0 || found);
            &&& paid ==> s2.outbox == s.outbox.push(
                TransferModel {
                    money: s.money(t.money)->0,
                    to: ctx.caller,
                    amount: t.gift as u128,
                    reason: PayReason::PayForGift,
                },
            )
            &&& t.gift == 0 ==> s2.outbox == s.outbox
            &&& t.gift > 0 && !paid && t.properties & SELF_DESTRUCTION == 0 ==> s2.outbox == s.outbox
            &&& t.gift > 0 && !paid && t.properties & SELF_DESTRUCTION != 0 ==> s2.outbox == s.outbox.push(
                payment_to(s, t.money, t.miner, t.gift as u128, PayReason::MinerRefund),
            )
        },
{
}

/// `answer` pays a token's gift to the owner who answers: when the token
/// has a gift, exactly one payment, the gift, to the caller; otherwise none.
pub proof fn law_answer_pays_gift_to_owner(s: NftState, ctx: CallContext, token_id: u64, response: u8)
    ensures
        answer_spec(s, ctx, token_id, response) matches Ok((s2, _)) ==> {
            let t = s.token(token_id)->0;
            &&& t.gift > 0 ==> s2.outbox == s.outbox.push(
                TransferModel {
                    money: s.money(t.money)->0,
                    to: ctx.caller,
                    amount: t.gift as u128,
                    reason: PayReason::PayForGift,
                },
            )
            &&& t.gift == 0 ==> s2.outbox == s.outbox
        },
{
}

/// The sum of the amounts of the payments `ps`.
pub open spec fn total_paid(ps: Seq<TransferModel>) -> int
    decreases ps.len(),
{
    if ps.len() == 0 {
        0
    } else {
        total_paid(ps.drop_last()) + ps.last().amount
    }
}

/// A product that fits in a `u64` does not wrap.
proof fn lemma_mul_fits(x: u64, y: u64)
    requires
        x * y <= u64::MAX,
    ensures
        x.wrapping_mul(y) == x * y,
{
    assert(x * y >= 0) by (nonlinear_arith);
    vstd::arithmetic::div_mod::lemma_small_mod((x * y) as nat, 0x1_0000_0000_0000_0000nat);
}

/// Appending one payment adds its amount to the total.
proof fn lemma_total_push(ps: Seq<TransferModel>, x: TransferModel)
    ensures
        total_paid(ps.push(x)) == total_paid(ps) + x.amount,
{
    assert(ps.push(x).drop_last() =~= ps);
}

/// A sale shares the price. The payments a successful `buy` orders come
/// after the earlier ones. For a money other than the chain's own, the
/// owner is paid the price in markup units (`CONVERT_TO_GAS * price`) less
/// the dealer's commission (`CONVERT_TO_GAS * markup`, the dealer's markup
/// for the token), and the miner, the dealer and the owner together are
/// paid the price; for the chain's money, they are together paid what the
/// buyer paid. With a dealer and a markup, the first payments go to the
/// miner (its share, when it has one) and to the dealer (the rest of the
/// commission). (Stated where these amounts fit in 64 bits and the miner's
/// share, `10^12 * markup * miner_ratio`, is within the commission, and
/// where the dealer is not the zero address's unless the markup is 0.)
pub proof fn law_buy_shares_price(s: NftState, ctx: CallContext, token_id: u64, dealer_addr: Address)
    ensures
        buy_spec(s, ctx, token_id, dealer_addr) matches Ok((s2, _)) ==> {
            let t = s.token(token_id)->0;
            let d = s.dealer(s.idx_dealer(s.idx_address(dealer_addr)))->0;
            let markup = d.markup_of(token_id).0;
            let commission = CONVERT_TO_GAS * markup;
            let miner_share = 1000000000000 * markup * t.miner_ratio;
            let gross = CONVERT_TO_GAS * t.price;
            let money = s.money(t.money)->0;
            let paid = s2.outbox.subrange(s.outbox.len() as int, s2.outbox.len() as int);
            gross <= u64::MAX && commission <= u64::MAX && miner_share <= commission ==> {
                &&& s.outbox.len() <= s2.outbox.len()
                &&& s2.outbox.subrange(0, s.outbox.len() as int) == s.outbox
                &&& money != egld_name() ==> commission <= gross
                &&& money != egld_name() && commission < gross ==> paid.last() == TransferModel {
                    money,
                    to: s.reg_address(ctx.caller).0.address(t.owner)->0,
                    amount: (gross - commission) as u128,
                    reason: PayReason::OwnerPay,
                }
                &&& money == egld_name() && commission < ctx.payment ==> paid.last() == TransferModel {
                    money,
                    to: s.reg_address(ctx.caller).0.address(t.owner)->0,
                    amount: (ctx.payment - commission) as u128,
                    reason: PayReason::OwnerPay,
                }
                &&& d.addr != ZERO_ADDR && markup > 0 && t.miner_ratio > 0 ==> {
                    &&& paid[0] == TransferModel {
                        money,
                        to: s.reg_address(ctx.caller).0.address(t.miner)->0,
                        amount: miner_share as u128,
                        reason: PayReason::MinerPay,
                    }
                    &&& paid[1] == TransferModel {
                        money,
                        to: s.reg_address(ctx.caller).0.address(d.addr)->0,
                        amount: (commission - miner_share) as u128,
                        reason: PayReason::DealerPay,
                    }
                }
                &&& d.addr != ZERO_ADDR && markup > 0 && t.miner_ratio == 0 ==> paid[0] == TransferModel {
                    money,
                    to: s.reg_address(ctx.caller).0.address(d.addr)->0,
                    amount: commission as u128,
                    reason: PayReason::DealerPay,
                }
                &&& (d.addr != ZERO_ADDR || markup == 0) && money != egld_name() ==> total_paid(paid) == gross
                &&& (d.addr != ZERO_ADDR || markup == 0) && money == egld_name() ==> total_paid(paid)
                    == ctx.payment
            }
        },
{
    if let Ok((s2, _)) = buy_spec(s, ctx, token_id, dealer_addr) {
        let idx = s.idx_dealer(s.idx_address(dealer_addr));
        let t = s.token(token_id)->0;
        let (s1, buyer) = s.reg_address(ctx.caller);
        let d = s1.dealer(idx)->0;
        assert(d == s.dealer(idx)->0);
        let markup = d.markup_of(token_id).0;
        let commission = CONVERT_TO_GAS * markup;
        let miner_share = 1000000000000 * markup * t.miner_ratio;
        let gross = CONVERT_TO_GAS * t.price;
        let m = s1.money(t.money)->0;
        assert(m == s.money(t.money)->0);
        if gross <= u64::MAX && commission <= u64::MAX && miner_share <= commission {
            lemma_mul_fits(CONVERT_TO_GAS, markup as u64);
            lemma_mul_fits(CONVERT_TO_GAS, t.price as u64);
            let fd = CONVERT_TO_GAS.wrapping_mul(markup as u64);
            assert(fd == commission);
            let fo = owner_share(ctx.payment, fd, t.price, m)->Ok_0;
            let s2p = pay_dealer(s1, t, d, token_id, fd)->Ok_0.0;
            let o = s1.outbox;
            assert(o == s.outbox);
            // what the dealer (and through it the miner) is paid
            let dealer_part: Seq<TransferModel> = if d.addr != ZERO_ADDR && fd > 0 {
                let ma = 1000000000000u64.wrapping_mul(markup as u64);
                if t.miner_ratio > 0 {
                    assert(1000000000000 * markup <= commission);
                    lemma_mul_fits(1000000000000u64, markup as u64);
                    assert(ma * t.miner_ratio == miner_share) by (nonlinear_arith)
                        requires
                            ma == 1000000000000 * markup,
                            miner_share == 1000000000000 * markup * t.miner_ratio,
                    ;
                    lemma_mul_fits(ma, t.miner_ratio as u64);
                    let fm = ma.wrapping_mul(t.miner_ratio as u64);
                    assert(fd.wrapping_sub(fm) == fd - fm);
                    seq![
                        payment_to(s1, t.money, t.miner, fm as u128, PayReason::MinerPay),
                        payment_to(s1, t.money, d.addr, (fd - fm) as u128, PayReason::DealerPay),
                    ]
                } else {
                    seq![payment_to(s1, t.money, d.addr, fd as u128, PayReason::DealerPay)]
                }
            } else {
                Seq::empty()
            };
            assert(s2p.outbox =~= o + dealer_part);
            assert(s2p.addresses == s1.addresses && s2p.esdt == s1.esdt);
            let owner_part: Seq<TransferModel> = if fo > 0 {
                seq![TransferModel { money: m, to: s1.address(t.owner)->0, amount: fo, reason: PayReason::OwnerPay }]
            } else {
                Seq::empty()
            };
            assert(s2.outbox =~= o + dealer_part + owner_part);
            let paid = s2.outbox.subrange(o.len() as int, s2.outbox.len() as int);
            assert(paid =~= dealer_part + owner_part);
            assert(s2.outbox.subrange(0, o.len() as int) =~= o);
            // the totals
            reveal_with_fuel(total_paid, 4);
            assert(total_paid(dealer_part) == if d.addr != ZERO_ADDR && fd > 0 { commission } else { 0 }) by {
                if d.addr != ZERO_ADDR && fd > 0 {
                    if t.miner_ratio > 0 {
                        assert(dealer_part.drop_last().drop_last() =~= Seq::<TransferModel>::empty());
                    } else {
                        assert(dealer_part.drop_last() =~= Seq::<TransferModel>::empty());
                    }
                }
            }
            lemma_total_push(dealer_part, owner_part.last());
            if fo > 0 {
                assert(dealer_part + owner_part =~= dealer_part.push(owner_part[0]));
            } else {
                assert(dealer_part + owner_part =~= dealer_part);
            }
            if markup > 0 {
                assert(commission > 0) by (nonlinear_arith)
                    requires
                        commission == CONVERT_TO_GAS * markup,
                        markup > 0,
                        CONVERT_TO_GAS > 0,
                ;
                if d.addr != ZERO_ADDR {
                    assert(paid[0] == dealer_part[0]);
                    if t.miner_ratio > 0 {
                        assert(paid[1] == dealer_part[1]);
                    }
                }
            }
            if d.addr == ZERO_ADDR && markup != 0 {
            } else if fd == 0 {
                assert(markup == 0) by (nonlinear_arith)
                    requires
                        CONVERT_TO_GAS * markup == 0,
                        CONVERT_TO_GAS > 0,
                ;
            }
        }
    }
}

/// Whether token `t` counts toward a buyer's limit: owned by the position
/// `owner`, in collection `collection` (0 for any), created by `creator`
/// (the zero address's position for any), and live at `now`.
pub open spec fn counts_toward(owner: u64, creator: u64, collection: u64, now: u64) -> spec_fn(TokenModel) -> bool {
    |t: TokenModel|
        t.owner == owner && (collection == t.collection || collection == 0) && (creator == t.creator || creator
            == ZERO_ADDR) && !t.burnt_at(now)
}

/// `count_by_collection` counts, modulo 256, the tokens that count toward
/// the limit.
pub proof fn law_count_by_collection(tokens: Seq<TokenModel>, owner: u64, creator: u64, collection: u64, now: u64)
    ensures
        count_in(tokens, owner, creator, collection, now) as int == tokens.filter(
            counts_toward(owner, creator, collection, now),
        ).len() % 256,
    decreases tokens.len(),
{
    reveal(Seq::filter);
    if tokens.len() > 0 {
        law_count_by_collection(tokens.drop_last(), owner, creator, collection, now);
    }
}

/// Whether the buyer at position `buyer` owns a token with the description
/// and miner of token `r`.
pub open spec fn owns_like(s: NftState, buyer: u64, r: u64) -> bool {
    exists|i: int|
        0 <= i < s.tokens.len() && (#[trigger] s.tokens[i]).owner == buyer && s.tokens[i].description == s.token(
            r,
        )->0.description && s.tokens[i].miner == s.token(r)->0.miner
}

/// The required tokens are all held when the check finds them so.
proof fn lemma_holds_required(s: NftState, buyer: u64, required: Seq<u64>, all_held: bool)
    ensures
        holds_required(s, buyer, required, all_held) == Ok::<bool, crate::state::NftError>(true) ==> all_held
            && forall|k: int| 0 <= k < required.len() ==> s.token(#[trigger] required[k]) is Some && owns_like(
            s,
            buyer,
            required[k],
        ),
    decreases required.len(),
{
    if required.len() > 0 {
        let rest = required.drop_first();
        if let Some(r) = s.token(required[0]) {
            let held = all_held && crate::market::owns_kind(s.tokens, buyer, r.description, r.miner);
            lemma_holds_required(s, buyer, rest, held);
            if holds_required(s, buyer, required, all_held) == Ok::<bool, crate::state::NftError>(true) {
                assert forall|k: int| 0 <= k < required.len() implies s.token(#[trigger] required[k]) is Some
                    && owns_like(s, buyer, required[k]) by {
                    if k > 0 {
                        assert(required[k] == rest[k - 1]);
                    } else {
                        let i = choose|i: int|
                            0 <= i < s.tokens.len() && (#[trigger] s.tokens[i]).description == r.description
                                && s.tokens[i].miner == r.miner && s.tokens[i].owner == buyer;
                        assert(s.tokens[i].owner == buyer);
                    }
                }
            }
        }
    }
}

/// A purchase succeeds only for a buyer who owns, for each token the
/// bought token requires, a token with its description and miner; and, for
/// a token with a limit, who holds fewer than that limit of the tokens
/// that count toward it.
pub proof fn law_buy_needs_required_and_limit(s: NftState, ctx: CallContext, token_id: u64, dealer_addr: Address)
    ensures
        buy_spec(s, ctx, token_id, dealer_addr) is Ok ==> {
            let t = s.token(token_id)->0;
            let (s1, buyer) = s.reg_address(ctx.caller);
            &&& forall|k: int| 0 <= k < t.required.len() ==> owns_like(s1, buyer, #[trigger] t.required[k])
            &&& t.limit > 0 ==> s1.tokens.filter(
                counts_toward(buyer, t.creator, t.collection, ctx.timestamp),
            ).len() % 256 < t.limit
        },
{
    let t = s.token(token_id)->0;
    let (s1, buyer) = s.reg_address(ctx.caller);
    lemma_holds_required(s1, buyer, t.required, true);
    law_count_by_collection(s1.tokens, buyer, t.creator, t.collection, ctx.timestamp);
}

/// Only the owner of a live token can open it, and only a token that holds
/// a secret or a gift.
pub proof fn law_open_needs_owner(s: NftState, ctx: CallContext, token_id: u64, response: Seq<u8>)
    ensures
        open_spec(s, ctx, token_id, response) is Ok ==> {
            let t = s.token(token_id)->0;
            &&& s.address(t.owner) == Some(ctx.caller)
            &&& !t.burnt_at(ctx.timestamp)
            &&& s.string(t.secret)->0.len() > 0 || t.gift > 0
        },
{
}

/// Only the owner of a live token can answer with it.
pub proof fn law_answer_needs_owner(s: NftState, ctx: CallContext, token_id: u64, response: u8)
    ensures
        answer_spec(s, ctx, token_id, response) is Ok ==> {
            let t = s.token(token_id)->0;
            &&& s.address(t.owner) == Some(ctx.caller)
            &&& !t.burnt_at(ctx.timestamp)
        },
{
}

/// A purchase through the zero address's dealer needs a token that may be
/// sold directly; a purchase in the chain's money needs a payment of at
/// least the dealer's commission plus the price.
pub proof fn law_buy_checks_payment(s: NftState, ctx: CallContext, token_id: u64, dealer_addr: Address)
    ensures
        buy_spec(s, ctx, token_id, dealer_addr) is Ok ==> {
            let t = s.token(token_id)->0;
            let d = s.dealer(s.idx_dealer(s.idx_address(dealer_addr)))->0;
            let commission = CONVERT_TO_GAS * d.markup_of(token_id).0;
            &&& d.addr == ZERO_ADDR ==> t.properties & DIRECT_SELL != 0
            &&& commission <= u64::MAX && s.money(t.money)->0 == egld_name() ==> ctx.payment >= commission
                + t.price
        },
{
    if buy_spec(s, ctx, token_id, dealer_addr) is Ok {
        let t = s.token(token_id)->0;
        let idx = s.idx_dealer(s.idx_address(dealer_addr));
        let (s1, buyer) = s.reg_address(ctx.caller);
        let d = s1.dealer(idx)->0;
        assert(d == s.dealer(idx)->0);
        let markup = d.markup_of(token_id).0;
        if CONVERT_TO_GAS * markup <= u64::MAX {
            lemma_mul_fits(CONVERT_TO_GAS, markup as u64);
        }
    }
}

} // verus!
