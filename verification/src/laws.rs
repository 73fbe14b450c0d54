//! Properties of the contract that relate several calls, or hold of every
//! call.
use vstd::prelude::*;
use crate::address::Address;
use crate::dealer::{eq_u64, lemma_kept_entries, DealerModel};
use crate::dealers::{add_miner_spec, dealer_state_spec, del_miner_spec, without, all_markups_in_range, clear_dealer_spec, new_dealer_spec, price_spec};
use crate::market::{buy_spec, pay_dealer};
use crate::minting::{clone_spec, update_spec, mint_from, mint_spec, sale_properties, setstate_from, setstate_spec, MintPlan};
use crate::ownership::{approve_spec, burn_spec, revoke_spec, transfer_spec};
use crate::search::{first_match, lemma_first_match_facts, lemma_first_match_push};
use crate::secrets::{answer_spec, open_spec};
use crate::state::{eq_addr, eq_bytes, CallContext, NftError, NftState};
use crate::token::TokenModel;
use crate::words::{description_word, egld_name, lost_word, won_word};
use crate::bytes::{ascii_upper, eq_ignore_case};
use crate::bytes::{u16_be, u32_be, u64_be, usize_be};
use crate::views::token_bytes;
use crate::{MINER_CAN_BURN, ONE_WINNER, CAN_RESELL, CAN_TRANSFERT, FIND_SECRET, FOR_SALE, NOT_FIND, RENT, SECRET_VOTE, SELF_DESTRUCTION, ZERO_ADDR};

verus! {

/// `Dealer::set_markup` keeps a dealer's token list free of duplicates and
/// its three lists of equal length; the tokens it had stay first, in order,
/// with their highest markups; the tokens after them are among `ids`; and
/// its state, address and miners do not change.
pub proof fn law_set_markup(d: DealerModel, ids: Seq<u64>, markup: u16, max_markup: u16)
    requires
        d.wf(),
        d.tokens.no_duplicates(),
    ensures
        ({
            let r = d.after_set_markup(ids, markup, max_markup).0;
            &&& r.wf()
            &&& r.tokens.no_duplicates()
            &&& d.tokens.len() <= r.tokens.len()
            &&& r.tokens.subrange(0, d.tokens.len() as int) == d.tokens
            &&& r.max_markups.subrange(0, d.tokens.len() as int) == d.max_markups
            &&& forall|k: int| d.tokens.len() <= k < r.tokens.len() ==> ids.contains(#[trigger] r.tokens[k])
            &&& r.state == d.state
            &&& r.addr == d.addr
            &&& r.miners == d.miners
        }),
    decreases ids.len(),
{
    if ids.len() > 0 {
        let n = d.tokens.len() as int;
        let p = d.token_pos(ids[0]);
        lemma_first_match_facts(d.tokens, eq_u64(ids[0]));
        let rest = ids.drop_first();
        if p >= 0 {
            if markup < d.max_markups[p] {
                let d1 = DealerModel { markups: d.markups.update(p, markup), ..d };
                law_set_markup(d1, rest, markup, max_markup);
                let r = d1.after_set_markup(rest, markup, max_markup).0;
                assert forall|k: int| n <= k < r.tokens.len() implies ids.contains(#[trigger] r.tokens[k]) by {
                    let x = r.tokens[k];
                    assert(rest.contains(x));
                    let j = choose|j: int| 0 <= j < rest.len() && rest[j] == x;
                    assert(ids[j + 1] == x);
                }
            }
        } else {
            let d1 = d.with_token(ids[0], markup, max_markup);
            assert forall|i: int, j: int|
                0 <= i < d1.tokens.len() && 0 <= j < d1.tokens.len() && i != j implies d1.tokens[i]
                != d1.tokens[j] by {
                if i < n && j < n {
                } else if i == n {
                    assert(!eq_u64(ids[0])(d.tokens[j]));
                } else {
                    assert(!eq_u64(ids[0])(d.tokens[i]));
                }
            }
            law_set_markup(d1, rest, markup, max_markup);
            let r = d1.after_set_markup(rest, markup, max_markup).0;
            assert(r.tokens.subrange(0, n + 1)[n] == ids[0]);
            assert(r.tokens.subrange(0, n) =~= r.tokens.subrange(0, n + 1).subrange(0, n));
            assert(d1.tokens.subrange(0, n) =~= d.tokens);
            assert(r.max_markups.subrange(0, n) =~= r.max_markups.subrange(0, n + 1).subrange(0, n));
            assert(d1.max_markups.subrange(0, n) =~= d.max_markups);
            assert forall|k: int| n <= k < r.tokens.len() implies ids.contains(#[trigger] r.tokens[k]) by {
                let x = r.tokens[k];
                if k == n {
                    assert(r.tokens.subrange(0, n + 1)[n] == r.tokens[n]);
                    assert(ids[0] == x);
                } else {
                    assert(rest.contains(x));
                    let j = choose|j: int| 0 <= j < rest.len() && rest[j] == x;
                    assert(ids[j + 1] == x);
                }
            }
        }
    } else {
        assert(d.tokens.subrange(0, d.tokens.len() as int) =~= d.tokens);
        assert(d.max_markups.subrange(0, d.tokens.len() as int) =~= d.max_markups);
    }
}

/// Registering an address and reading its position back gives the address;
/// the registry then finds it there, and registering it again changes
/// nothing. Registering only ever appends.
pub proof fn law_address_read_back(s: NftState, a: Address)
    requires
        s.addresses.len() < usize::MAX,
    ensures
        ({
            let (s1, i) = s.reg_address(a);
            &&& s1.address(i) == Some(a)
            &&& s1.idx_address(a) == i
            &&& s1.reg_address(a) == (s1, i)
            &&& s1.addresses.subrange(0, s.addresses.len() as int) == s.addresses
            &&& s1 == (NftState { addresses: s1.addresses, ..s })
        }),
{
    let (s1, i) = s.reg_address(a);
    lemma_first_match_facts(s.addresses, eq_addr(a));
    lemma_first_match_push(s.addresses, eq_addr(a), a);
    lemma_first_match_facts(s1.addresses, eq_addr(a));
    assert(s1.addresses.subrange(0, s.addresses.len() as int) =~= s.addresses);
}

/// Registering a string and reading its position back gives the string;
/// the registry then finds it there, and registering it again changes
/// nothing.
pub proof fn law_string_read_back(s: NftState, v: Seq<u8>)
    requires
        s.strs.len() < usize::MAX,
    ensures
        ({
            let (s1, i) = s.reg_str(v);
            &&& s1.string(i) == Some(v)
            &&& s1.idx_str(v) == i
            &&& s1.reg_str(v) == (s1, i)
            &&& s1 == (NftState { strs: s1.strs, ..s })
        }),
{
    let (s1, i) = s.reg_str(v);
    lemma_first_match_facts(s.strs, eq_bytes(v));
    lemma_first_match_push(s.strs, eq_bytes(v), v);
    lemma_first_match_facts(s1.strs, eq_bytes(v));
}

/// Registering a money and reading its 1-based position back gives the
/// money, while fewer than 65535 moneys are registered.
pub proof fn law_money_read_back(s: NftState, v: Seq<u8>)
    requires
        s.esdt.len() < 65535,
    ensures
        ({
            let (s1, j) = s.reg_esdt(v);
            &&& s1.money(j) == Some(v)
            &&& s1.reg_esdt(v) == (s1, j)
            &&& s1 == (NftState { esdt: s1.esdt, ..s })
        }),
{
    let (s1, j) = s.reg_esdt(v);
    lemma_first_match_facts(s.esdt, eq_bytes(v));
    lemma_first_match_push(s.esdt, eq_bytes(v), v);
    lemma_first_match_facts(s1.esdt, eq_bytes(v));
}

/// Replacing a stored token and reading it back gives the new token; the
/// other tokens are untouched.
pub proof fn law_token_read_back(s: NftState, id: u64, other: u64, t: TokenModel)
    requires
        s.token(id) is Some,
        other as usize != id as usize,
    ensures
        s.with_token(id, t).token(id) == Some(t),
        s.with_token(id, t).token(other) == s.token(other),
        s.with_token(id, t).tokens.len() == s.tokens.len(),
{
}

/// A token added to a dealer is then sold at the markups it was added with.
pub proof fn law_dealer_token_read_back(d: DealerModel, id: u64, markup: u16, max_markup: u16)
    requires
        d.wf(),
        !d.tokens.contains(id),
    ensures
        d.with_token(id, markup, max_markup).markup_of(id) == (markup, max_markup),
        d.with_token(id, markup, max_markup).wf(),
{
    let e = d.with_token(id, markup, max_markup);
    lemma_first_match_facts(d.tokens, crate::dealer::eq_u64(id));
    lemma_first_match_push(d.tokens, crate::dealer::eq_u64(id), id);
    if first_match(d.tokens, crate::dealer::eq_u64(id)) >= 0 {
        let k = first_match(d.tokens, crate::dealer::eq_u64(id));
        assert(d.tokens[k] == id);
    }
}

/// The owner of a transferable token can give it to anyone: afterwards the
/// token's owner is `to`, nothing else about the token changed, no other
/// token or dealer changed and no payment was ordered.
pub proof fn law_owner_transfers(s: NftState, owner: Address, token_id: u64, to: Address)
    requires
        s.addresses.len() < usize::MAX,
        token_id <= s.total_minted(),
        s.token(token_id) is Some,
        s.token(token_id)->0.properties & CAN_TRANSFERT != 0,
        s.address(s.token(token_id)->0.owner) == Some(owner),
    ensures
        transfer_spec(s, owner, token_id, to) is Ok,
        ({
            let s2 = transfer_spec(s, owner, token_id, to)->Ok_0.0;
            let t = s.token(token_id)->0;
            &&& s2.token(token_id) is Some
            &&& s2.address(s2.token(token_id)->0.owner) == Some(to)
            &&& s2.token(token_id)->0 == (TokenModel { owner: s2.token(token_id)->0.owner, ..t })
            &&& s2.tokens.len() == s.tokens.len()
            &&& forall|i: int| 0 <= i < s.tokens.len() && i != token_id as usize - 1 ==> s2.tokens[i] == s.tokens[i]
            &&& s2.outbox == s.outbox
            &&& s2.dealers == s.dealers
        }),
{
    law_address_read_back(s, to);
}

/// `transfer` changes a token only for its owner or the account approved
/// for it, and only for a transferable token; from anyone else the call
/// changes nothing. It never orders a payment.
pub proof fn law_transfer_needs_rights(s: NftState, caller: Address, token_id: u64, to: Address)
    ensures
        transfer_spec(s, caller, token_id, to) matches Ok((s2, _)) ==> {
            let t = s.token(token_id)->0;
            &&& t.properties & CAN_TRANSFERT != 0
            &&& s2.outbox == s.outbox
            &&& !(s.address(t.owner) == Some(caller) || (s.approvals.contains_key(token_id)
                && s.approvals[token_id] == caller)) ==> s2 == s
        },
{
}

/// Once the owner approves an account for a transferable token, that
/// account can give the token to anyone.
pub proof fn law_approved_account_transfers(
    s: NftState,
    owner: Address,
    token_id: u64,
    approved: Address,
    to: Address,
)
    requires
        s.addresses.len() < usize::MAX,
        token_id <= s.total_minted(),
        s.token(token_id) is Some,
        s.token(token_id)->0.properties & CAN_TRANSFERT != 0,
        s.address(s.token(token_id)->0.owner) == Some(owner),
    ensures
        approve_spec(s, owner, token_id, approved) is Ok,
        ({
            let s1 = approve_spec(s, owner, token_id, approved)->Ok_0.0;
            &&& transfer_spec(s1, approved, token_id, to) is Ok
            &&& ({
                let s2 = transfer_spec(s1, approved, token_id, to)->Ok_0.0;
                &&& s2.token(token_id) is Some
                &&& s2.address(s2.token(token_id)->0.owner) == Some(to)
            })
        }),
{
    let s1 = approve_spec(s, owner, token_id, approved)->Ok_0.0;
    assert(s1.approvals.contains_key(token_id));
    law_address_read_back(s1, to);
}

/// Once the owner revokes the approval of a token, no account but the
/// owner's can transfer it: from any other the call changes nothing.
pub proof fn law_revoked_account_cannot_transfer(
    s: NftState,
    owner: Address,
    token_id: u64,
    other: Address,
    to: Address,
)
    requires
        token_id <= s.total_minted(),
        s.token(token_id) is Some,
        s.address(s.token(token_id)->0.owner) == Some(owner),
        other != owner,
    ensures
        revoke_spec(s, owner, token_id) is Ok,
        ({
            let s1 = revoke_spec(s, owner, token_id)->Ok_0.0;
            transfer_spec(s1, other, token_id, to) matches Ok((s2, _)) ==> s2 == s1
        }),
{
}

/// Only the owner of a token can approve an account for it, or revoke that
/// approval.
pub proof fn law_only_owner_approves(s: NftState, caller: Address, token_id: u64, approved: Address)
    ensures
        approve_spec(s, caller, token_id, approved) is Ok ==> s.token(token_id) is Some && s.address(
            s.token(token_id)->0.owner,
        ) == Some(caller),
        revoke_spec(s, caller, token_id) is Ok ==> s.token(token_id) is Some && s.address(
            s.token(token_id)->0.owner,
        ) == Some(caller),
{
}

/// Only the owner of a token can burn it, or its miner when the token lets
/// the miner burn it.
pub proof fn law_burn_needs_rights(s: NftState, caller: Address, token_id: u64)
    ensures
        burn_spec(s, caller, seq![token_id]) is Ok ==> {
            let t = s.token(token_id)->0;
            ||| s.address(t.owner) == Some(caller)
            ||| s.address(t.miner) == Some(caller) && t.properties & MINER_CAN_BURN != 0
        },
{
    let ids = seq![token_id];
    assert(ids.drop_first() =~= Seq::<u64>::empty());
    reveal_with_fuel(burn_spec, 2);
}

/// Burning a token gives it the zero address as owner and miner: it is burnt
/// at every time, and no token is removed.
pub proof fn law_burn_destroys(s: NftState, caller: Address, token_id: u64, now: u64)
    ensures
        burn_spec(s, caller, seq![token_id]) matches Ok((s2, _)) ==> {
            &&& s2.token(token_id) is Some
            &&& s2.token(token_id)->0.owner == ZERO_ADDR
            &&& s2.token(token_id)->0.miner == ZERO_ADDR
            &&& s2.token(token_id)->0.burnt_at(now)
            &&& s2.tokens.len() == s.tokens.len()
        },
{
    let ids = seq![token_id];
    assert(ids.drop_first() =~= Seq::<u64>::empty());
    reveal_with_fuel(burn_spec, 2);
}

/// Asking for sale state 1 puts a token on sale; asking for any other
/// state takes it off sale.
pub proof fn law_sale_state(properties: u16, new_state: u8)
    ensures
        new_state == 1 ==> sale_properties(properties, new_state) & FOR_SALE != 0,
        new_state != 1 ==> sale_properties(properties, new_state) & FOR_SALE == 0,
{
    assert((properties | 0x4000u16) & 0x4000u16 != 0) by (bit_vector);
    assert((properties & !0x4000u16) & 0x4000u16 == 0) by (bit_vector);
}

/// After `setstate` on one token, the token is on sale exactly when the
/// state asked for is 1, its other properties and fields unchanged; only
/// the owner can change it, and only a resellable token can be put on
/// sale.
pub proof fn law_setstate_one(s: NftState, ctx: CallContext, token_id: u64, new_state: u8)
    ensures
        setstate_spec(s, ctx, seq![token_id], new_state) matches Ok((s2, _)) ==> {
            let t = s.token(token_id)->0;
            &&& s2.token(token_id) is Some
            &&& (s2.token(token_id)->0.properties & FOR_SALE != 0 <==> new_state == 1)
            &&& s2.token(token_id)->0.owner == s.reg_address(ctx.caller).1
            &&& new_state != 0 ==> t.properties & CAN_RESELL != 0
            &&& s2.token(token_id)->0.properties & !FOR_SALE == t.properties & !FOR_SALE
            &&& s2.token(token_id)->0 == (TokenModel { properties: s2.token(token_id)->0.properties, ..t })
            &&& s2.outbox == s.outbox
        },
{
    let ids = seq![token_id];
    assert(ids.drop_first() =~= Seq::<u64>::empty());
    let (s1, caller) = s.reg_address(ctx.caller);
    reveal_with_fuel(setstate_from, 2);
    if let Some(t) = s1.token(token_id) {
        law_sale_state(t.properties, new_state);
        let p = t.properties;
        assert((p | 0x4000u16) & !0x4000u16 == p & !0x4000u16) by (bit_vector);
        assert((p & !0x4000u16) & !0x4000u16 == p & !0x4000u16) by (bit_vector);
    }
}

/// A token whose secret must be found reveals "Gagné" to an owner who
/// answers the secret, and "Perdu" to one who does not.
pub proof fn law_open_find_secret(s: NftState, ctx: CallContext, token_id: u64, response: Seq<u8>)
    requires
        s.token(token_id) is Some,
        s.token(token_id)->0.properties & FIND_SECRET != 0,
        s.string(s.token(token_id)->0.secret) is Some,
    ensures
        open_spec(s, ctx, token_id, response) matches Ok((_, revealed)) ==> {
            let secret = s.string(s.token(token_id)->0.secret)->0;
            &&& (secret == response ==> revealed == seq![71u8, 97, 103, 110, 195, 169])
            &&& (secret != response ==> revealed == seq![80u8, 101, 114, 100, 117])
        },
{
    assert(won_word() =~= seq![71u8, 97, 103, 110, 195, 169]);
    assert(lost_word() =~= seq![80u8, 101, 114, 100, 117]);
}

/// A token whose secret need not be found reveals its secret to its owner;
/// a token with an empty secret reveals "Gagné" (UTF-8 bytes) when it has a
/// gift, and "Perdu" when it has none.
pub proof fn law_open_reveals_secret(s: NftState, ctx: CallContext, token_id: u64, response: Seq<u8>)
    requires
        s.token(token_id) is Some,
        s.token(token_id)->0.properties & FIND_SECRET == 0,
        s.string(s.token(token_id)->0.secret) is Some,
    ensures
        open_spec(s, ctx, token_id, response) matches Ok((_, revealed)) ==> {
            let t = s.token(token_id)->0;
            let secret = s.string(t.secret)->0;
            &&& secret.len() > 0 ==> revealed == secret
            &&& secret.len() == 0 && t.gift > 0 ==> revealed == seq![71u8, 97, 103, 110, 195, 169]
            &&& secret.len() == 0 && t.gift == 0 ==> revealed == seq![80u8, 101, 114, 100, 117]
        },
{
    assert(won_word() =~= seq![71u8, 97, 103, 110, 195, 169]);
    assert(lost_word() =~= seq![80u8, 101, 114, 100, 117]);
}

/// Token `id` needs no change from `setstate` by the owner at position
/// `caller` asking for sale state `new_state`: it exists, is the caller's,
/// may be put on sale if asked to, and is already in that state.
pub open spec fn setstate_settled(s: NftState, caller: u64, id: u64, new_state: u8) -> bool {
    &&& id <= s.total_minted()
    &&& s.token(id) is Some
    &&& s.token(id)->0.owner == caller
    &&& (new_state == 0 || s.token(id)->0.properties & CAN_RESELL > 0)
    &&& sale_properties(s.token(id)->0.properties, new_state) == s.token(id)->0.properties
}

/// Asking twice for the same sale state is asking once, and leaves the
/// other bits, `CAN_RESELL` among them, as they were.
pub proof fn lemma_sale_properties_settle(p: u16, new_state: u8)
    ensures
        sale_properties(sale_properties(p, new_state), new_state) == sale_properties(p, new_state),
        sale_properties(p, new_state) & CAN_RESELL == p & CAN_RESELL,
{
    assert(((p | 0x4000u16) | 0x4000u16) == (p | 0x4000u16)) by (bit_vector);
    assert(((p & !0x4000u16) & !0x4000u16) == (p & !0x4000u16)) by (bit_vector);
    assert((p | 0x4000u16) & 2u16 == p & 2u16) by (bit_vector);
    assert((p & !0x4000u16) & 2u16 == p & 2u16) by (bit_vector);
}

/// `setstate` over `ids` only changes tokens, and keeps a token that needs
/// no change in that state.
pub proof fn lemma_setstate_keeps_settled(
    s: NftState,
    caller: u64,
    ids: Seq<u64>,
    new_state: u8,
    changed: u64,
    x: u64,
)
    ensures
        setstate_from(s, caller, ids, new_state, changed) matches Ok((s1, _)) ==> {
            &&& s1 == (NftState { tokens: s1.tokens, ..s })
            &&& s1.tokens.len() == s.tokens.len()
            &&& (setstate_settled(s, caller, x, new_state) ==> setstate_settled(s1, caller, x, new_state))
        },
    decreases ids.len(),
{
    if ids.len() > 0 {
        let id = ids[0];
        if id <= s.total_minted() {
            if let Some(t) = s.token(id) {
                let p = sale_properties(t.properties, new_state);
                if p != t.properties {
                    let s2 = s.with_token(id, TokenModel { properties: p, ..t });
                    lemma_setstate_keeps_settled(s2, caller, ids.drop_first(), new_state, (changed + 1) as u64, x);
                    if setstate_settled(s, caller, x, new_state) {
                        assert(x != id);
                        assert(s2.token(x) == s.token(x));
                    }
                } else {
                    lemma_setstate_keeps_settled(s, caller, ids.drop_first(), new_state, changed, x);
                }
            }
        }
    }
}

/// After `setstate` over `ids` succeeded, every token of `ids` needs no
/// change.
pub proof fn lemma_setstate_settles(s: NftState, caller: u64, ids: Seq<u64>, new_state: u8, changed: u64)
    ensures
        setstate_from(s, caller, ids, new_state, changed) matches Ok((s1, _)) ==> forall|k: int|
            0 <= k < ids.len() ==> setstate_settled(s1, caller, #[trigger] ids[k], new_state),
    decreases ids.len(),
{
    if ids.len() > 0 {
        let id = ids[0];
        let rest = ids.drop_first();
        if id <= s.total_minted() {
            if let Some(t) = s.token(id) {
                if caller == t.owner && (new_state == 0 || t.properties & CAN_RESELL > 0) {
                    let p = sale_properties(t.properties, new_state);
                    lemma_sale_properties_settle(t.properties, new_state);
                    let s2 = if p != t.properties {
                        s.with_token(id, TokenModel { properties: p, ..t })
                    } else {
                        s
                    };
                    let c2 = if p != t.properties {
                        (changed + 1) as u64
                    } else {
                        changed
                    };
                    assert(setstate_settled(s2, caller, id, new_state));
                    lemma_setstate_settles(s2, caller, rest, new_state, c2);
                    lemma_setstate_keeps_settled(s2, caller, rest, new_state, c2, id);
                    if let Ok((s1, _)) = setstate_from(s, caller, ids, new_state, changed) {
                        assert forall|k: int| 0 <= k < ids.len() implies setstate_settled(
                            s1,
                            caller,
                            #[trigger] ids[k],
                            new_state,
                        ) by {
                            if k > 0 {
                                assert(ids[k] == rest[k - 1]);
                            }
                        }
                    }
                }
            }
        }
    }
}

/// `setstate` over tokens that all need no change changes nothing and
/// counts nothing more.
pub proof fn lemma_setstate_on_settled(s: NftState, caller: u64, ids: Seq<u64>, new_state: u8, changed: u64)
    requires
        forall|k: int| 0 <= k < ids.len() ==> setstate_settled(s, caller, #[trigger] ids[k], new_state),
    ensures
        setstate_from(s, caller, ids, new_state, changed) == Ok::<(NftState, u64), NftError>((s, changed)),
    decreases ids.len(),
{
    if ids.len() > 0 {
        assert(setstate_settled(s, caller, ids[0], new_state));
        let rest = ids.drop_first();
        assert forall|k: int| 0 <= k < rest.len() implies setstate_settled(s, caller, #[trigger] rest[k], new_state) by {
            assert(rest[k] == ids[k + 1]);
        }
        lemma_setstate_on_settled(s, caller, rest, new_state, changed);
    }
}

/// Repeating `setstate` right after it succeeded changes nothing and
/// counts no token.
pub proof fn law_setstate_idempotent(s: NftState, ctx: CallContext, ids: Seq<u64>, new_state: u8)
    ensures
        setstate_spec(s, ctx, ids, new_state) matches Ok((s1, _)) ==> setstate_spec(s1, ctx, ids, new_state)
            == Ok::<(NftState, u64), NftError>((s1, 0u64)),
{
    let (s0, caller) = s.reg_address(ctx.caller);
    lemma_setstate_settles(s0, caller, ids, new_state, 0);
    lemma_setstate_keeps_settled(s0, caller, ids, new_state, 0, 0);
    lemma_first_match_push(s.addresses, eq_addr(ctx.caller), ctx.caller);
    lemma_first_match_facts(s.addresses, eq_addr(ctx.caller));
    if let Ok((s1, _)) = setstate_from(s0, caller, ids, new_state, 0) {
        assert(s1.addresses == s0.addresses);
        assert(s1.reg_address(ctx.caller) == (s1, caller));
        lemma_setstate_on_settled(s1, caller, ids, new_state, 0);
    }
}

/// Opening a self-destroying token burns it; opening a rented token that
/// does not destroy itself gives it back to its miner; opening any other
/// token leaves its owner.
pub proof fn law_open_ownership(s: NftState, ctx: CallContext, token_id: u64, response: Seq<u8>)
    ensures
        open_spec(s, ctx, token_id, response) matches Ok((s2, _)) ==> {
            let t = s.token(token_id)->0;
            &&& s2.token(token_id) is Some
            &&& (t.properties & SELF_DESTRUCTION != 0 ==> s2.token(token_id)->0.owner == ZERO_ADDR
                && s2.token(token_id)->0.miner == ZERO_ADDR)
            &&& (t.properties & SELF_DESTRUCTION == 0 && t.properties & RENT != 0
                ==> s2.token(token_id)->0.owner == t.miner)
            &&& (t.properties & SELF_DESTRUCTION == 0 && t.properties & RENT == 0
                ==> s2.token(token_id)->0.owner == t.owner)
        },
{
}

/// The owner's answer is recorded on the token, and the token's gift, once
/// paid, is gone.
pub proof fn law_answer_records(s: NftState, ctx: CallContext, token_id: u64, response: u8)
    ensures
        answer_spec(s, ctx, token_id, response) matches Ok((s2, _)) ==> {
            &&& s2.token(token_id) is Some
            &&& s2.token(token_id)->0.resp == response
            &&& s2.token(token_id)->0.gift == 0
            &&& s.address(s.token(token_id)->0.owner) == Some(ctx.caller)
        },
{
}

/// A token's gift is paid at most once: after one `answer` on a token
/// succeeded, a later `answer` on it that succeeds orders no payment and
/// only records the new answer.
pub proof fn law_answer_pays_gift_once(
    s: NftState,
    ctx1: CallContext,
    ctx2: CallContext,
    token_id: u64,
    response1: u8,
    response2: u8,
)
    ensures
        answer_spec(s, ctx1, token_id, response1) matches Ok((s1, _)) ==> (answer_spec(
            s1,
            ctx2,
            token_id,
            response2,
        ) matches Ok((s2, _)) ==> {
            &&& s2.outbox == s1.outbox
            &&& s2 == s1.with_token(token_id, TokenModel { resp: response2, ..s1.token(token_id)->0 })
        }),
{
    law_answer_records(s, ctx1, token_id, response1);
}

/// After `clear_dealer` succeeded, no dealer sells the token any more, every
/// dealer's lists are of equal length, and the tokens are unchanged.
pub proof fn law_clear_dealer_removes_token(s: NftState, ctx: CallContext, token_id: u64)
    ensures
        clear_dealer_spec(s, ctx, token_id) matches Ok((s2, _)) ==> {
            &&& s2.tokens == s.tokens
            &&& s2.dealers.len() == s.dealers.len()
            &&& forall|i: int| 0 <= i < s2.dealers.len() ==> !(#[trigger] s2.dealers[i]).tokens.contains(token_id)
            &&& forall|i: int| 0 <= i < s2.dealers.len() ==> (#[trigger] s2.dealers[i]).wf()
        },
{
    if let Ok((s2, _)) = clear_dealer_spec(s, ctx, token_id) {
        assert forall|i: int| 0 <= i < s2.dealers.len() implies !(#[trigger] s2.dealers[i]).tokens.contains(token_id)
            && s2.dealers[i].wf() by {
            lemma_kept_entries(s.dealers[i], token_id, s.dealers[i].tokens.len());
        }
    }
}

/// `price` on one token refuses a markup above the highest markup the
/// caller's dealer holds for the token, and gives the token a markup below
/// it.
pub proof fn law_price_within_range(s: NftState, ctx: CallContext, token_id: u64, markup: u16)
    requires
        s.wf(),
        s.dealer(s.idx_dealer(s.idx_address(ctx.caller))) is Some,
        s.token(token_id) is Some,
    ensures
        ({
            let idx = s.idx_dealer(s.idx_address(ctx.caller));
            let highest = s.dealer(idx)->0.markup_of(token_id).1;
            let r = price_spec(s, ctx, seq![token_id], markup);
            &&& (markup > highest ==> r == Err::<(NftState, ()), NftError>(NftError::E89MarkupOutOfRange))
            &&& (markup < highest ==> r is Ok && r->Ok_0.0.dealer(idx) is Some && r->Ok_0.0.dealer(
                idx,
            )->0.markup_of(token_id) == (markup, highest))
        }),
{
    let ids = seq![token_id];
    assert(ids.drop_first() =~= Seq::<u64>::empty());
    reveal_with_fuel(all_markups_in_range, 2);
    let idx = s.idx_dealer(s.idx_address(ctx.caller));
    let d = s.dealer(idx)->0;
    assert(d == s.dealers[idx - 1]);
    lemma_first_match_facts(d.tokens, eq_u64(token_id));
    let p = d.token_pos(token_id);
    if markup < d.markup_of(token_id).1 {
        let d1 = DealerModel { markups: d.markups.update(p, markup), ..d };
        assert(d1.after_set_markup(ids.drop_first(), markup, markup) == (d1, true));
        assert(d.after_set_markup(ids, markup, markup) == (d1, true));
        assert(d1.token_pos(token_id) == p);
    }
}

/// After `new_dealer`, the caller has a dealer.
pub proof fn law_new_dealer_lists_caller(s: NftState, ctx: CallContext)
    requires
        s.addresses.len() < usize::MAX,
        s.dealers.len() < usize::MAX - 1,
    ensures
        ({
            let s2 = new_dealer_spec(s, ctx).0;
            s2.idx_dealer(s2.idx_address(ctx.caller)) != NOT_FIND
        }),
{
    law_address_read_back(s, ctx.caller);
    let (s1, a) = s.reg_address(ctx.caller);
    let s2 = new_dealer_spec(s, ctx).0;
    let p = crate::state::dealer_of(a);
    lemma_first_match_facts(s1.dealers, p);
    if s1.idx_dealer(a) == NOT_FIND {
        let d = DealerModel {
            state: 0,
            addr: a,
            miners: seq![a],
            markups: Seq::empty(),
            max_markups: Seq::empty(),
            tokens: Seq::empty(),
        };
        lemma_first_match_push(s1.dealers, p, d);
        lemma_first_match_facts(s2.dealers, p);
    } else {
        lemma_first_match_facts(s2.dealers, p);
    }
    assert(s2.addresses == s1.addresses);
    assert(s2.idx_address(ctx.caller) == s1.idx_address(ctx.caller));
    assert(first_match(s2.dealers, p) >= 0);
}

/// After `add_miner`, the caller's dealer accepts the miner.
pub proof fn law_add_miner_accepts(s: NftState, ctx: CallContext, miner: Address)
    requires
        s.addresses.len() < usize::MAX - 1,
    ensures
        add_miner_spec(s, ctx, miner) matches Ok((s2, _)) ==> {
            let idx = s.reg_address(ctx.caller).0.idx_dealer(s.reg_address(ctx.caller).1);
            &&& s2.dealer(idx) is Some
            &&& s2.dealer(idx)->0.miners.contains(s2.idx_address(miner))
        },
{
    law_address_read_back(s, ctx.caller);
    let s1 = s.reg_address(ctx.caller).0;
    law_address_read_back(s1, miner);
    let (s2r, m) = s1.reg_address(miner);
    if let Ok((s2, _)) = add_miner_spec(s, ctx, miner) {
        let idx = s1.idx_dealer(s.reg_address(ctx.caller).1);
        let d = s1.dealer(idx)->0;
        assert(s2.dealer(idx)->0.miners == d.miners.push(m));
        assert(s2.addresses == s2r.addresses);
        assert(d.miners.push(m)[d.miners.len() as int] == m);
    }
}

/// Paying the dealer changes only the payment orders.
pub proof fn lemma_pay_dealer_only_pays(s: NftState, t: TokenModel, d: DealerModel, token_id: u64, for_dealer: u64)
    ensures
        pay_dealer(s, t, d, token_id, for_dealer) matches Ok((s2, _)) ==> s2 == (NftState {
            outbox: s2.outbox,
            ..s
        }),
{
}

/// Only a token on sale that is not the buyer's already can be bought; a
/// successful purchase gives it to the buyer, off sale, the rest of the
/// token unchanged, and keeps every other token.
pub proof fn law_buy_gives_ownership(s: NftState, ctx: CallContext, token_id: u64, dealer_addr: Address)
    requires
        s.addresses.len() < usize::MAX,
    ensures
        buy_spec(s, ctx, token_id, dealer_addr) matches Ok((s2, r)) ==> {
            &&& r == token_id
            &&& s2.token(token_id) is Some
            &&& s2.address(s2.token(token_id)->0.owner) == Some(ctx.caller)
            &&& s2.token(token_id)->0.properties & FOR_SALE == 0
            &&& s2.tokens.len() == s.tokens.len()
            &&& s.token(token_id)->0.properties & FOR_SALE != 0
            &&& s.token(token_id)->0.owner != s.reg_address(ctx.caller).1
            &&& s2.token(token_id)->0 == (TokenModel {
                owner: s2.token(token_id)->0.owner,
                properties: s.token(token_id)->0.properties & !FOR_SALE,
                ..s.token(token_id)->0
            })
            &&& forall|i: int| 0 <= i < s.tokens.len() && i != token_id as usize - 1 ==> s2.tokens[i] == s.tokens[i]
        },
{
    law_address_read_back(s, ctx.caller);
    let (s1, buyer) = s.reg_address(ctx.caller);
    if let Ok((s2, r)) = buy_spec(s, ctx, token_id, dealer_addr) {
        let t = s.token(token_id)->0;
        let idx_dealer = s.idx_dealer(s.idx_address(dealer_addr));
        let d = s1.dealer(idx_dealer)->0;
        let for_dealer = crate::CONVERT_TO_GAS.wrapping_mul(d.markup_of(token_id).0 as u64);
        lemma_pay_dealer_only_pays(s1, t, d, token_id, for_dealer);
        law_sale_state(t.properties, 0);
        assert(s2.addresses == s1.addresses);
    }
}

/// Minting the tokens at positions `id..end` appends one token per position,
/// each with the plan's owner, miner and creator, keeps the earlier tokens
/// and the addresses, and gives the ids `id + 1 ..= end`.
pub proof fn lemma_mint_from(s: NftState, p: MintPlan, id: u64, end: u64, secret: Seq<u8>, gift: u16)
    requires
        s.tokens.len() == id,
        id <= end,
    ensures
        ({
            let (s2, ids) = mint_from(s, p, id, end, secret, gift);
            &&& s2.tokens.len() == end
            &&& s2.tokens.subrange(0, id as int) == s.tokens
            &&& ids == Seq::new((end - id) as nat, |k: int| (id + 1 + k) as u64)
            &&& forall|k: int|
                id <= k < end ==> (#[trigger] s2.tokens[k]).owner == p.owner && s2.tokens[k].miner == p.miner
                    && s2.tokens[k].creator == p.creator
            &&& forall|k: int|
                id <= k < end ==> {
                    let tk = #[trigger] s2.tokens[k];
                    &&& tk.price == p.price && tk.description == p.description && tk.collection == p.collection
                    &&& tk.properties == p.properties && tk.miner_ratio == p.miner_ratio && tk.limit == p.limit
                    &&& tk.status == p.status && tk.deadline == p.deadline && tk.required == p.required
                    &&& tk.resp == 0
                    &&& !(p.properties & ONE_WINNER > 0 && p.gift > 0) ==> tk.gift == gift
                    &&& p.properties & ONE_WINNER > 0 && p.gift > 0 ==> tk.gift == (if k % (p.count as int) == 0 {
                        p.gift
                    } else {
                        0u16
                    })
                }
            &&& s2.addresses == s.addresses
            &&& s.strs.len() <= s2.strs.len()
            &&& s2.strs.subrange(0, s.strs.len() as int) == s.strs
        }),
    decreases end - id,
{
    if id < end {
        let ts = crate::minting::secret_for(secret, id);
        let (s1, secret_idx) = s.reg_str(ts);
        let (next_secret, g) = if p.properties & crate::ONE_WINNER > 0 && p.gift > 0 {
            if id % p.count == 0 {
                (won_word(), p.gift)
            } else {
                (lost_word(), 0u16)
            }
        } else {
            (ts, gift)
        };
        let (s2, money_idx) = s1.reg_esdt(p.money);
        let s3 = NftState {
            tokens: s2.tokens.push(crate::minting::minted_token(p, secret_idx, g, money_idx)),
            ..s2
        };
        lemma_mint_from(s3, p, (id + 1) as u64, end, next_secret, g);
        let (s4, rest) = mint_from(s3, p, (id + 1) as u64, end, next_secret, g);
        assert(mint_from(s, p, id, end, secret, gift) == (s4, seq![(id + 1) as u64] + rest));
        assert(seq![(id + 1) as u64] + rest =~= Seq::new((end - id) as nat, |k: int| (id + 1 + k) as u64));
        assert(s4.tokens.subrange(0, id as int) =~= s.tokens) by {
            assert(s4.tokens.subrange(0, id + 1) == s3.tokens);
            assert forall|k: int| 0 <= k < id implies s4.tokens.subrange(0, id as int)[k] == s.tokens[k] by {
                assert(s4.tokens.subrange(0, id + 1)[k] == s3.tokens[k]);
            }
        }
        assert(s4.tokens[id as int] == s3.tokens[id as int]) by {
            assert(s4.tokens.subrange(0, id + 1)[id as int] == s3.tokens[id as int]);
        }
        assert(s4.strs.subrange(0, s.strs.len() as int) =~= s.strs) by {
            assert forall|k: int| 0 <= k < s.strs.len() implies s4.strs.subrange(0, s.strs.len() as int)[k]
                == s.strs[k] by {
                assert(s4.strs.subrange(0, s3.strs.len() as int)[k] == s3.strs[k]);
            }
        }
    } else {
        assert(s.strs.subrange(0, s.strs.len() as int) =~= s.strs);
        assert(s.tokens.subrange(0, id as int) =~= s.tokens);
        assert(Seq::<u64>::empty() =~= Seq::new((end - id) as nat, |k: int| (id + 1 + k) as u64));
    }
}

/// `mint` creates `count` new tokens after the existing ones, with
/// consecutive ids, and sets their ownership to `owner`; their creator is
/// `creator`; their miner is the caller, unless `miner` is the zero
/// address, which is then their miner. Each new token has the description,
/// collection, price, properties, miner's share and limit asked for, status
/// and answer 0, the deadline `deadline` after the block time, and requires
/// `required_token` when it is not 0. Each carries the gift `gift`, except
/// with `ONE_WINNER` and a gift, where only the tokens at positions that
/// `count` divides (id - 1) carry it and the others carry none. A mint in
/// the chain's money without `ONE_WINNER` is paid `gift * count`. (Stated
/// where the ids do not pass the top of `u64` and the registries can grow.)
#[verifier::spinoff_prover]
#[verifier::rlimit(100)]
pub proof fn law_mint_creates_owned_tokens(
    s: NftState,
    ctx: CallContext,
    count: u64,
    collection: Seq<u8>,
    description: Seq<u8>,
    required_token: u64,
    secret: Seq<u8>,
    price: u32,
    properties: u16,
    owner: Address,
    miner: Address,
    creator: Address,
    miner_ratio: u16,
    gift: u16,
    deadline: u64,
    limit: u8,
    money: Seq<u8>,
)
    requires
        s.addresses.len() + 3 < usize::MAX,
        s.strs.len() + 2 < usize::MAX,
        s.tokens.len() + count <= usize::MAX,
    ensures
        mint_spec(
            s,
            ctx,
            count,
            collection,
            description,
            required_token,
            secret,
            price,
            properties,
            owner,
            miner,
            creator,
            miner_ratio,
            gift,
            deadline,
            limit,
            money,
        ) matches Ok((s2, ids)) ==> {
            &&& ids.len() == count
            &&& s2.tokens.len() == s.tokens.len() + count
            &&& description.len() > 0 && miner_ratio <= 10000
            &&& money == seq![69u8, 71, 76, 68] && properties & ONE_WINNER == 0 ==> ctx.payment == gift * count
            &&& forall|k: int|
                0 <= k < count ==> {
                    &&& #[trigger] ids[k] == s.tokens.len() + 1 + k
                    &&& s2.token(ids[k]) is Some
                    &&& s2.address(s2.token(ids[k])->0.owner) == Some(owner)
                    &&& s2.address(s2.token(ids[k])->0.creator) == Some(creator)
                    &&& miner != Address::zero_spec() ==> s2.address(s2.token(ids[k])->0.miner) == Some(ctx.caller)
                    &&& miner == Address::zero_spec() ==> s2.address(s2.token(ids[k])->0.miner) == Some(
                        Address::zero_spec(),
                    )
                }
            &&& forall|k: int|
                0 <= k < count ==> {
                    let tk = #[trigger] s2.tokens[s.tokens.len() + k];
                    &&& s2.string(tk.description) == Some(description)
                    &&& s2.string(tk.collection) == Some(collection)
                    &&& tk.price == price && tk.properties == properties && tk.miner_ratio == miner_ratio
                    &&& tk.limit == limit && tk.status == 0 && tk.resp == 0
                    &&& tk.deadline == deadline.wrapping_add(ctx.timestamp)
                    &&& tk.required == (if required_token > 0 {
                        seq![required_token]
                    } else {
                        Seq::empty()
                    })
                    &&& !(properties & ONE_WINNER > 0 && gift > 0) ==> tk.gift == gift
                    &&& properties & ONE_WINNER > 0 && gift > 0 ==> tk.gift == (if (s.tokens.len() + k) % (
                    count as int) == 0 {
                        gift
                    } else {
                        0u16
                    })
                }
        },
{
    if let Ok((s2, ids)) = mint_spec(
        s,
        ctx,
        count,
        collection,
        description,
        required_token,
        secret,
        price,
        properties,
        owner,
        miner,
        creator,
        miner_ratio,
        gift,
        deadline,
        limit,
        money,
    ) {
        let recorded_miner = if miner != Address::zero_spec() {
            ctx.caller
        } else {
            miner
        };
        law_address_read_back(s, owner);
        let (s1, io) = s.reg_address(owner);
        law_address_read_back(s1, recorded_miner);
        let (sm, im) = s1.reg_address(recorded_miner);
        law_address_read_back(sm, creator);
        let (s3, ic) = sm.reg_address(creator);
        let (s4, idesc) = s3.reg_str(description);
        law_string_read_back(s3, description);
        let (s5, icol) = s4.reg_str(collection);
        law_string_read_back(s4, collection);
        assert(s5.string(idesc) == Some(description)) by {
            assert(s5.strs.subrange(0, s4.strs.len() as int) =~= s4.strs) by {
                if s5.strs.len() > s4.strs.len() {
                    assert(s5.strs == s4.strs.push(collection));
                }
            }
            assert(s5.strs.subrange(0, s4.strs.len() as int)[idesc as int] == s4.strs[idesc as int]);
        }
        let offset = s5.tokens.len() as u64;
        assert(s5.tokens == s.tokens);
        assert(s5.addresses == s3.addresses);
        assert(count.wrapping_add(offset) == count + offset);
        let plan = MintPlan {
            owner: io,
            miner: im,
            creator: ic,
            description: idesc,
            collection: icol,
            price,
            properties,
            miner_ratio,
            gift,
            deadline: deadline.wrapping_add(ctx.timestamp),
            limit,
            money,
            status: 0,
            required: if required_token > 0 {
                seq![required_token]
            } else {
                Seq::empty()
            },
            count,
        };
        assert((s2, ids) == mint_from(s5, plan, offset, (count + offset) as u64, secret, gift));
        lemma_mint_from(s5, plan, offset, (count + offset) as u64, secret, gift);
        // the owner's and creator's positions still hold their addresses
        assert(s3.addresses[io as int] == owner) by {
            assert(s1.addresses[io as int] == owner);
            assert(sm.addresses.subrange(0, s1.addresses.len() as int)[io as int] == s1.addresses[io as int]);
            assert(s3.addresses.subrange(0, sm.addresses.len() as int)[io as int] == sm.addresses[io as int]);
        }
        assert(s3.addresses[ic as int] == creator);
        assert(egld_name() =~= seq![69u8, 71, 76, 68]);
        assert forall|k: int| 0 <= k < count implies {
            let tk = #[trigger] s2.tokens[s.tokens.len() + k];
            &&& s2.string(tk.description) == Some(description)
            &&& s2.string(tk.collection) == Some(collection)
        } by {
            let tk = s2.tokens[s.tokens.len() + k];
            assert(s2.tokens[offset + k] == tk);
            assert(tk.description == idesc && tk.collection == icol);
            assert(s2.strs.subrange(0, s5.strs.len() as int)[idesc as int] == s5.strs[idesc as int]);
            assert(s2.strs.subrange(0, s5.strs.len() as int)[icol as int] == s5.strs[icol as int]);
        }
        assert(s3.addresses[im as int] == recorded_miner) by {
            assert(sm.addresses[im as int] == recorded_miner);
            assert(s3.addresses.subrange(0, sm.addresses.len() as int)[im as int] == sm.addresses[im as int]);
        }
        assert forall|k: int| 0 <= k < count implies {
            &&& #[trigger] ids[k] == s.tokens.len() + 1 + k
            &&& s2.token(ids[k]) is Some
            &&& s2.address(s2.token(ids[k])->0.owner) == Some(owner)
            &&& s2.address(s2.token(ids[k])->0.creator) == Some(creator)
            &&& miner != Address::zero_spec() ==> s2.address(s2.token(ids[k])->0.miner) == Some(ctx.caller)
            &&& miner == Address::zero_spec() ==> s2.address(s2.token(ids[k])->0.miner) == Some(
                Address::zero_spec(),
            )
        } by {
            assert(ids[k] == offset + 1 + k);
            assert((ids[k] as usize) as int == offset + 1 + k);
            assert(s2.token(ids[k]) == Some(s2.tokens[offset + k]));
            assert(s2.tokens[offset + k].owner == io);
            assert(s2.tokens[offset + k].creator == ic);
            assert(s2.tokens[offset + k].miner == im);
            assert(s2.addresses == s3.addresses);
            assert(io < s3.addresses.len());
            assert(ic < s3.addresses.len());
            assert(im < s3.addresses.len());
            assert(s2.address(io) == Some(owner));
            assert(s2.address(ic) == Some(creator));
            assert(s2.address(im) == Some(recorded_miner));
        }
    }
}

/// The bytes of a token carry each field at a fixed place, numbers
/// big-endian: the lengths of the collection and the description (2 bytes
/// each) and of the money's name (the width of a `usize`); the price shown,
/// the token's price plus 100 per markup unit (4 bytes); the money's name;
/// the owner's 32 bytes; whether it holds a secret or a gift (1 or 0); its
/// properties; its status; its answer (0 for a secret vote); the highest
/// markup and the markup; its deadline; the miner's share; the miner's 32
/// bytes; the creator's 32 bytes; the id's 8 bytes; the collection; and the
/// description, which ends the bytes.
#[verifier::spinoff_prover]
#[verifier::rlimit(100)]
pub proof fn law_token_bytes_layout(s: NftState, t: TokenModel, markup: u16, max_markup: u16, token_id: u64)
    ensures
        token_bytes(s, t, markup, max_markup, token_id) matches Ok(b) ==> {
            let money = s.money(t.money)->0;
            let collection = s.string(t.collection)->0;
            let description = s.string(t.description)->0;
            let w: int = if usize::BITS == 64 { 8 } else { 4 };
            let o = 8 + w + money.len();
            &&& b.len() == o + 123 + collection.len() + description.len()
            &&& b.subrange(0, 2) == u16_be(collection.len() as u16)
            &&& b.subrange(2, 4) == u16_be(description.len() as u16)
            &&& b.subrange(4, 4 + w) == usize_be(money.len() as usize)
            &&& b.subrange(4 + w, 8 + w) == u32_be(t.price.wrapping_add(100u32.wrapping_mul(markup as u32)))
            &&& b.subrange(8 + w, o) == money
            &&& b[o + 32] == (if t.secret > 0 || t.gift > 0 { 1u8 } else { 0u8 })
            &&& b.subrange(o + 33, o + 35) == u16_be(t.properties)
            &&& b[o + 35] == t.status
            &&& b[o + 36] == (if t.properties & SECRET_VOTE != 0 { 0u8 } else { t.resp })
            &&& b.subrange(o + 37, o + 39) == u16_be(max_markup)
            &&& b.subrange(o + 39, o + 41) == u16_be(markup)
            &&& b.subrange(o + 41, o + 49) == u64_be(t.deadline)
            &&& b.subrange(o + 49, o + 51) == u16_be(t.miner_ratio)
            &&& b.subrange(o, o + 32) == s.address(t.owner)->0.bytes()
            &&& b.subrange(o + 51, o + 83) == s.address(t.miner)->0.bytes()
            &&& b.subrange(o + 83, o + 115) == s.address(t.creator)->0.bytes()
            &&& b.subrange(o + 115, o + 123) == u64_be(token_id)
            &&& b.subrange(o + 123, o + 123 + collection.len()) == collection
            &&& b.subrange(o + 123 + collection.len(), b.len() as int) == description
        },
{
    reveal(token_bytes);
    if let Ok(b) = token_bytes(s, t, markup, max_markup, token_id) {
        let money = s.money(t.money)->0;
        let collection = s.string(t.collection)->0;
        let description = s.string(t.description)->0;
        let owner = s.address(t.owner)->0.bytes();
        let miner = s.address(t.miner)->0.bytes();
        let creator = s.address(t.creator)->0.bytes();
        let price = t.price.wrapping_add(100u32.wrapping_mul(markup as u32));
        let has_secret: u8 = if t.secret > 0 || t.gift > 0 { 1 } else { 0 };
        let resp: u8 = if t.properties & SECRET_VOTE > 0 { 0 } else { t.resp };
        let head = u16_be(collection.len() as u16) + u16_be(description.len() as u16) + usize_be(
            money.len() as usize,
        ) + u32_be(price);
        let flags = seq![has_secret] + u16_be(t.properties) + seq![t.status, resp] + u16_be(max_markup) + u16_be(
            markup,
        ) + u64_be(t.deadline) + u16_be(t.miner_ratio);
        let w: int = if usize::BITS == 64 { 8 } else { 4 };
        assert(usize_be(money.len() as usize).len() == w);
        assert(head.len() == 8 + w);
        assert(flags.len() == 19);
        assert(owner.len() == 32 && miner.len() == 32 && creator.len() == 32);
        assert(b =~= head + money + owner + flags + miner + creator + u64_be(token_id) + collection + description);
        let o = 8 + w + money.len();
        assert(b.subrange(0, 2) =~= u16_be(collection.len() as u16));
        assert(b.subrange(2, 4) =~= u16_be(description.len() as u16));
        assert(b.subrange(4, 4 + w) =~= usize_be(money.len() as usize));
        assert(b.subrange(4 + w, 8 + w) =~= u32_be(price));
        assert(b.subrange(8 + w, o) =~= money);
        assert(b[o + 32] == has_secret);
        assert(b.subrange(o + 33, o + 35) =~= u16_be(t.properties));
        assert(b[o + 35] == t.status);
        assert(b[o + 36] == resp);
        assert(b.subrange(o + 37, o + 39) =~= u16_be(max_markup));
        assert(b.subrange(o + 39, o + 41) =~= u16_be(markup));
        assert(b.subrange(o + 41, o + 49) =~= u64_be(t.deadline));
        assert(b.subrange(o + 49, o + 51) =~= u16_be(t.miner_ratio));
        assert(b.subrange(o, o + 32) =~= owner);
        assert(b.subrange(o + 51, o + 83) =~= miner);
        assert(b.subrange(o + 83, o + 115) =~= creator);
        assert(b.subrange(o + 115, o + 123) =~= u64_be(token_id));
        assert(b.subrange(o + 123, o + 123 + collection.len()) =~= collection);
        assert(b.subrange(o + 123 + collection.len(), b.len() as int) =~= description);
    }
}

/// `clone` is for the miner of a token: it appends `count` copies of the
/// token, with consecutive ids after the existing tokens, and gives their
/// ids. Each copy equals the token, but is owned by `owner` when `owner` is
/// registered at a position other than the zero address's. Nothing else in
/// the storage changes, and no payment is ordered. (Stated where the ids
/// fit in a `u64`.)
pub proof fn law_clone_copies(s: NftState, ctx: CallContext, ref_token_id: u64, count: u64, owner: Address)
    requires
        s.tokens.len() + count <= u64::MAX,
    ensures
        clone_spec(s, ctx, ref_token_id, count, owner) matches Ok((s2, ids)) ==> {
            let t = s.token(ref_token_id)->0;
            let new_owner = s.idx_address(owner);
            &&& t.miner == s.idx_address(ctx.caller)
            &&& ids.len() == count
            &&& s2.tokens.len() == s.tokens.len() + count
            &&& s2.tokens.subrange(0, s.tokens.len() as int) == s.tokens
            &&& s2 == (NftState { tokens: s2.tokens, ..s })
            &&& forall|k: int|
                0 <= k < count ==> {
                    &&& #[trigger] ids[k] == s.tokens.len() + 1 + k
                    &&& s2.tokens[s.tokens.len() + k] == (if new_owner != ZERO_ADDR {
                        TokenModel { owner: new_owner, ..t }
                    } else {
                        t
                    })
                }
        },
{
    if let Ok((s2, ids)) = clone_spec(s, ctx, ref_token_id, count, owner) {
        assert(s2.tokens.subrange(0, s.tokens.len() as int) =~= s.tokens);
    }
}

/// Leaving out the entries equal to `m` is filtering by "differs from `m`".
proof fn lemma_without_is_filter(miners: Seq<u64>, m: u64)
    ensures
        without(miners, m) == miners.filter(|x: u64| x != m),
    decreases miners.len(),
{
    reveal(Seq::filter);
    if miners.len() > 0 {
        lemma_without_is_filter(miners.drop_last(), m);
    }
}

/// After `del_miner`, the caller's dealer accepts the same miners in the
/// same order, but for `miner_addr`, which it no longer accepts; no other
/// dealer and nothing else in the storage changes.
pub proof fn law_del_miner_removes(s: NftState, ctx: CallContext, miner_addr: Address)
    ensures
        del_miner_spec(s, ctx, miner_addr) matches Ok((s2, _)) ==> {
            let idx = s.idx_dealer(s.idx_address(ctx.caller));
            let m = s.idx_address(miner_addr);
            let d = s.dealers[idx - 1];
            &&& s2 == (NftState { dealers: s2.dealers, ..s })
            &&& s2.dealers.len() == s.dealers.len()
            &&& s2.dealers[idx - 1] == (DealerModel { miners: d.miners.filter(|x: u64| x != m), ..d })
            &&& !s2.dealers[idx - 1].miners.contains(m)
            &&& forall|i: int| 0 <= i < s.dealers.len() && i != idx - 1 ==> s2.dealers[i] == s.dealers[i]
        },
{
    if let Ok((s2, _)) = del_miner_spec(s, ctx, miner_addr) {
        let idx = s.idx_dealer(s.idx_address(ctx.caller));
        let m = s.idx_address(miner_addr);
        let d = s.dealers[idx - 1];
        lemma_without_is_filter(d.miners, m);
        let f = d.miners.filter(|x: u64| x != m);
        broadcast use vstd::seq_lib::group_filter_ensures;

        if f.contains(m) {
            let j = choose|j: int| 0 <= j < f.len() && f[j] == m;
            assert((|x: u64| x != m)(f[j]));
        }
    }
}

/// `update` is for the owner of a token who is also its miner, while the
/// token is not on sale. With the field name "description" in any case, the
/// token's description becomes `new_value`, the rest of the token kept;
/// with another name the token stays as it is. No other token changes and
/// no payment is ordered. (Stated while the string registry can grow.)
pub proof fn law_update_description(
    s: NftState,
    ctx: CallContext,
    token_id: u64,
    field_name: Seq<u8>,
    new_value: Seq<u8>,
)
    requires
        s.strs.len() < usize::MAX,
    ensures
        update_spec(s, ctx, token_id, field_name, new_value) matches Ok((s2, _)) ==> {
            let t = s.token(token_id)->0;
            let caller = s.reg_address(ctx.caller).1;
            let named = eq_ignore_case(field_name, seq![100u8, 101, 115, 99, 114, 105, 112, 116, 105, 111, 110]);
            &&& t.owner == caller && t.miner == caller
            &&& t.properties & FOR_SALE == 0
            &&& s2.token(token_id) is Some
            &&& named ==> s2.string(s2.token(token_id)->0.description) == Some(new_value)
                && s2.token(token_id)->0 == (TokenModel { description: s2.token(token_id)->0.description, ..t })
            &&& !named ==> s2.token(token_id) == Some(t)
            &&& s2.tokens.len() == s.tokens.len()
            &&& forall|i: int| 0 <= i < s.tokens.len() && i != token_id as usize - 1 ==> s2.tokens[i] == s.tokens[i]
            &&& s2.outbox == s.outbox
        },
{
    assert(description_word() =~= seq![100u8, 101, 115, 99, 114, 105, 112, 116, 105, 111, 110]);
    let (s1, caller) = s.reg_address(ctx.caller);
    law_string_read_back(s1, new_value);
    if let Ok((s2, _)) = update_spec(s, ctx, token_id, field_name, new_value) {
        let t = s.token(token_id)->0;
        let named = eq_ignore_case(field_name, seq![100u8, 101, 115, 99, 114, 105, 112, 116, 105, 111, 110]);
        assert(s2.token(token_id) is Some);
        if named {
            let (s3, d) = s1.reg_str(new_value);
            assert(s2 == s3.with_token(token_id, TokenModel { description: d, ..t }));
            assert(s2.strs == s3.strs);
            assert(s2.string(d) == Some(new_value));
        } else {
            assert(s2.token(token_id) == Some(t));
        }
        assert(s2.outbox == s.outbox);
    }
}

/// The secret the token at position `k` of a mint over positions
/// `first..` gets: the first token's secret is `first_secret`; after it,
/// with `ONE_WINNER` and a gift, "Gagné" follows a token at a position that
/// `count` divides and "Perdu" any other; otherwise the first secret again.
pub open spec fn minted_secret(p: MintPlan, first: u64, first_secret: Seq<u8>, k: int) -> Seq<u8> {
    if k == first || !(p.properties & ONE_WINNER > 0 && p.gift > 0) {
        first_secret
    } else if (k - 1) % (p.count as int) == 0 {
        seq![71u8, 97, 103, 110, 195, 169]
    } else {
        seq![80u8, 101, 114, 100, 117]
    }
}

/// Minting over positions `id..end` registers each token's secret: the
/// first gets `secret` (the id's bytes for "@id@"), the others as
/// `minted_secret` says.
pub proof fn lemma_mint_secrets(s: NftState, p: MintPlan, id: u64, end: u64, secret: Seq<u8>, gift: u16)
    requires
        s.tokens.len() == id,
        id <= end,
        s.strs.len() + (end - id) < usize::MAX,
    ensures
        ({
            let s2 = mint_from(s, p, id, end, secret, gift).0;
            &&& s.strs.len() <= s2.strs.len() <= s.strs.len() + (end - id)
            &&& s2.strs.subrange(0, s.strs.len() as int) == s.strs
            &&& s2.tokens.len() == end
            &&& forall|k: int|
                id <= k < end ==> s2.string((#[trigger] s2.tokens[k]).secret) == Some(
                    minted_secret(p, id, crate::minting::secret_for(secret, id), k),
                )
        }),
    decreases end - id,
{
    lemma_mint_from(s, p, id, end, secret, gift);
    if id < end {
        let ts = crate::minting::secret_for(secret, id);
        let (s1, secret_idx) = s.reg_str(ts);
        law_string_read_back(s, ts);
        let (next_secret, g) = if p.properties & ONE_WINNER > 0 && p.gift > 0 {
            if id % p.count == 0 {
                (won_word(), p.gift)
            } else {
                (lost_word(), 0u16)
            }
        } else {
            (ts, gift)
        };
        let (s2, money_idx) = s1.reg_esdt(p.money);
        let s3 = NftState {
            tokens: s2.tokens.push(crate::minting::minted_token(p, secret_idx, g, money_idx)),
            ..s2
        };
        lemma_mint_secrets(s3, p, (id + 1) as u64, end, next_secret, g);
        lemma_mint_from(s3, p, (id + 1) as u64, end, next_secret, g);
        let s4 = mint_from(s3, p, (id + 1) as u64, end, next_secret, g).0;
        assert(mint_from(s, p, id, end, secret, gift).0 == s4);
        assert(won_word() =~= seq![71u8, 97, 103, 110, 195, 169]);
        assert(lost_word() =~= seq![80u8, 101, 114, 100, 117]);
        // the next secret is not "@id@", so it is kept as it is
        assert(crate::minting::secret_for(next_secret, (id + 1) as u64) == next_secret) by {
            if crate::bytes::eq_ignore_case(secret, crate::words::id_marker()) {
                assert(ts.len() == 8);
            }
        }
        assert(s4.strs.subrange(0, s.strs.len() as int) =~= s.strs) by {
            assert forall|k: int| 0 <= k < s.strs.len() implies s4.strs.subrange(0, s.strs.len() as int)[k]
                == s.strs[k] by {
                assert(s4.strs.subrange(0, s3.strs.len() as int)[k] == s3.strs[k]);
            }
        }
        assert(s4.tokens[id as int] == s3.tokens[id as int]) by {
            assert(s4.tokens.subrange(0, id + 1)[id as int] == s3.tokens[id as int]);
        }
        assert(s4.string(secret_idx) == Some(ts)) by {
            assert(s4.strs.subrange(0, s3.strs.len() as int)[secret_idx as int] == s3.strs[secret_idx as int]);
        }
        assert forall|k: int| id < k < end implies s4.string((#[trigger] s4.tokens[k]).secret) == Some(
            minted_secret(p, id, ts, k),
        ) by {
            assert(s4.string(s4.tokens[k].secret) == Some(minted_secret(p, (id + 1) as u64, next_secret, k)));
            if p.properties & ONE_WINNER > 0 && p.gift > 0 && k == id + 1 {
                assert((k - 1) % (p.count as int) == id % p.count);
            }
        }
    }
}

/// The secrets of minted tokens. The first new token's secret is `secret`,
/// or, when `secret` is "@id@" in any case, the 8 big-endian bytes of its
/// position (its id less 1), upper-cased. With `ONE_WINNER` and a gift,
/// each later token's secret is "Gagné" when the token before it is at a
/// position that `count` divides, and "Perdu" otherwise; without, every new
/// token has the first one's secret. (Stated where the ids and the
/// registries fit.)
pub proof fn law_mint_secrets(
    s: NftState,
    ctx: CallContext,
    count: u64,
    collection: Seq<u8>,
    description: Seq<u8>,
    required_token: u64,
    secret: Seq<u8>,
    price: u32,
    properties: u16,
    owner: Address,
    miner: Address,
    creator: Address,
    miner_ratio: u16,
    gift: u16,
    deadline: u64,
    limit: u8,
    money: Seq<u8>,
)
    requires
        s.addresses.len() + 3 < usize::MAX,
        s.strs.len() + 2 + count < usize::MAX,
        s.tokens.len() + count <= usize::MAX,
    ensures
        mint_spec(
            s,
            ctx,
            count,
            collection,
            description,
            required_token,
            secret,
            price,
            properties,
            owner,
            miner,
            creator,
            miner_ratio,
            gift,
            deadline,
            limit,
            money,
        ) matches Ok((s2, ids)) ==> {
            let n = s.tokens.len();
            let first = if eq_ignore_case(secret, seq![64u8, 105, 100, 64]) {
                u64_be(n as u64).map_values(|b: u8| ascii_upper(b))
            } else {
                secret
            };
            forall|k: int|
                0 <= k < count ==> s2.string((#[trigger] s2.tokens[n + k]).secret) == Some(
                    if k == 0 || !(properties & ONE_WINNER > 0 && gift > 0) {
                        first
                    } else if (n + k - 1) % (count as int) == 0 {
                        seq![71u8, 97, 103, 110, 195, 169]
                    } else {
                        seq![80u8, 101, 114, 100, 117]
                    },
                )
        },
{
    if let Ok((s2, ids)) = mint_spec(
        s,
        ctx,
        count,
        collection,
        description,
        required_token,
        secret,
        price,
        properties,
        owner,
        miner,
        creator,
        miner_ratio,
        gift,
        deadline,
        limit,
        money,
    ) {
        let recorded_miner = if miner != Address::zero_spec() {
            ctx.caller
        } else {
            miner
        };
        let (s1, io) = s.reg_address(owner);
        let (sm, im) = s1.reg_address(recorded_miner);
        let (s3, ic) = sm.reg_address(creator);
        let (s4, idesc) = s3.reg_str(description);
        let (s5, icol) = s4.reg_str(collection);
        let offset = s5.tokens.len() as u64;
        assert(s5.tokens == s.tokens);
        assert(s5.strs.len() <= s.strs.len() + 2);
        assert(count.wrapping_add(offset) == count + offset);
        let plan = MintPlan {
            owner: io,
            miner: im,
            creator: ic,
            description: idesc,
            collection: icol,
            price,
            properties,
            miner_ratio,
            gift,
            deadline: deadline.wrapping_add(ctx.timestamp),
            limit,
            money,
            status: 0,
            required: if required_token > 0 {
                seq![required_token]
            } else {
                Seq::empty()
            },
            count,
        };
        assert((s2, ids) == mint_from(s5, plan, offset, (count + offset) as u64, secret, gift));
        lemma_mint_secrets(s5, plan, offset, (count + offset) as u64, secret, gift);
        assert(crate::words::id_marker() =~= seq![64u8, 105, 100, 64]);
        assert forall|k: int| 0 <= k < count implies s2.string((#[trigger] s2.tokens[s.tokens.len() + k]).secret)
            == Some(
            minted_secret(plan, offset, crate::minting::secret_for(secret, offset), offset + k),
        ) by {
            assert(s2.tokens[offset + k] == s2.tokens[s.tokens.len() + k]);
        }
    }
}

/// A token is live at time `now` exactly when it has an owner other than
/// the zero address and `now` is before its deadline.
pub proof fn law_live_token(t: TokenModel, now: u64)
    ensures
        !t.burnt_at(now) <==> t.owner != ZERO_ADDR && now < t.deadline,
{
}

/// `new_dealer` registers the caller; a caller without a dealer gets a new
/// one at the end of the dealers, in state 0, that accepts the caller as
/// its only miner and sells nothing yet; a caller with one changes no
/// dealer. It gives the number of dealers, and changes no token and orders
/// no payment.
pub proof fn law_new_dealer_appends(s: NftState, ctx: CallContext)
    ensures
        ({
            let (s2, n) = new_dealer_spec(s, ctx);
            let (s1, a) = s.reg_address(ctx.caller);
            &&& n == s2.dealers.len() as u64
            &&& s2.tokens == s.tokens && s2.outbox == s.outbox && s2.addresses == s1.addresses
            &&& s1.idx_dealer(a) != NOT_FIND ==> s2.dealers == s.dealers
            &&& s1.idx_dealer(a) == NOT_FIND ==> s2.dealers == s.dealers.push(
                DealerModel {
                    state: 0,
                    addr: a,
                    miners: seq![a],
                    markups: Seq::empty(),
                    max_markups: Seq::empty(),
                    tokens: Seq::empty(),
                },
            )
        }),
{
}

/// `dealer_state` changes only the state of the caller's dealer.
pub proof fn law_dealer_state_sets(s: NftState, ctx: CallContext, state: u8)
    ensures
        dealer_state_spec(s, ctx, state) matches Ok((s2, _)) ==> {
            let idx = s.idx_dealer(s.idx_address(ctx.caller));
            &&& s2 == (NftState { dealers: s2.dealers, ..s })
            &&& s2.dealers == s.dealers.update(idx - 1, DealerModel { state, ..s.dealers[idx - 1] })
        },
{
}

/// `approve` records `approved` as the one account approved for the token,
/// and `revoke` forgets the token's approval; neither changes anything else.
pub proof fn law_approvals_recorded(s: NftState, caller: Address, token_id: u64, approved: Address)
    ensures
        approve_spec(s, caller, token_id, approved) matches Ok((s2, _)) ==> {
            &&& s2 == (NftState { approvals: s2.approvals, ..s })
            &&& s2.approvals.contains_key(token_id) && s2.approvals[token_id] == approved
            &&& forall|k: u64| k != token_id ==> #[trigger] s2.approvals.contains_key(k) == s.approvals.contains_key(k)
                && (s.approvals.contains_key(k) ==> s2.approvals[k] == s.approvals[k])
        },
        revoke_spec(s, caller, token_id) matches Ok((s2, _)) ==> {
            &&& s2 == (NftState { approvals: s2.approvals, ..s })
            &&& !s2.approvals.contains_key(token_id)
            &&& forall|k: u64| k != token_id ==> #[trigger] s2.approvals.contains_key(k) == s.approvals.contains_key(k)
                && (s.approvals.contains_key(k) ==> s2.approvals[k] == s.approvals[k])
        },
{
}

/// A mint succeeds only with a description, a miner's share of at most
/// 10000, the chain's money or a valid token identifier as money, the
/// caller as miner when the tokens carry a gift, the gifts paid in full
/// when they are in the chain's money without `ONE_WINNER`, and an
/// existing required token (or none).
pub proof fn law_mint_checks(
    s: NftState,
    ctx: CallContext,
    count: u64,
    collection: Seq<u8>,
    description: Seq<u8>,
    required_token: u64,
    secret: Seq<u8>,
    price: u32,
    properties: u16,
    owner: Address,
    miner: Address,
    creator: Address,
    miner_ratio: u16,
    gift: u16,
    deadline: u64,
    limit: u8,
    money: Seq<u8>,
)
    ensures
        mint_spec(
            s,
            ctx,
            count,
            collection,
            description,
            required_token,
            secret,
            price,
            properties,
            owner,
            miner,
            creator,
            miner_ratio,
            gift,
            deadline,
            limit,
            money,
        ) is Ok ==> {
            &&& description.len() > 0
            &&& miner_ratio <= 10000
            &&& money == seq![69u8, 71, 76, 68] || crate::words::valid_esdt_identifier(money)
            &&& gift > 0 ==> miner == ctx.caller
            &&& money == seq![69u8, 71, 76, 68] && properties & ONE_WINNER == 0 ==> ctx.payment == gift * count
            &&& required_token == 0 || required_token <= s.tokens.len()
        },
{
    assert(egld_name() =~= seq![69u8, 71, 76, 68]);
}

} // verus!
