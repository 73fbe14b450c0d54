//! Creating the storage, minting and cloning tokens, and the owner's changes
//! to a token (its description, whether it is on sale).
use std::collections::HashMap;
use vstd::prelude::*;
use crate::address::Address;
use crate::bytes::{
    ascii_upper, bytes_eq_ignore_ascii_case, bytes_to_ascii_uppercase, eq_ignore_case, push_u64_be,
    u64_be,
};
use crate::dealer::{Dealer, DealerModel};
use crate::state::{reaches, settles, CallContext, ENonFungibleTokens, NftError, NftState};
use crate::token::{Token, TokenModel};
use crate::words::{
    description_bytes, description_word, egld, egld_name, id_marker, id_marker_bytes, is_egld,
    is_valid_esdt_identifier, lost, lost_word, start_bytes, start_word, valid_esdt_identifier, won,
    won_word,
};
use crate::{CAN_RESELL, FOR_SALE, ONE_WINNER, ZERO_ADDR};

verus! {

/// The placeholder token that `init` stores as token 1.
pub open spec fn placeholder_token() -> TokenModel {
    TokenModel {
        price: 0,
        description: 0,
        secret: 0,
        collection: 0,
        gift: 0,
        resp: 0,
        owner: ZERO_ADDR,
        miner: ZERO_ADDR,
        creator: ZERO_ADDR,
        properties: 0,
        miner_ratio: 0,
        money: 0,
        limit: 0,
        status: 0,
        deadline: 0,
        required: Seq::empty(),
    }
}

/// The storage `init` creates for the contract at `sc_address`: the
/// contract's address and the zero address registered (in that order), the
/// chain's money, the string "Start", the dealer of the zero address and the
/// placeholder token.
pub open spec fn init_spec(sc_address: Address) -> NftState {
    let empty = NftState {
        tokens: Seq::empty(),
        addresses: Seq::empty(),
        esdt: Seq::empty(),
        dealers: Seq::empty(),
        strs: Seq::empty(),
        approvals: Map::empty(),
        ipfs: Seq::empty(),
        outbox: Seq::empty(),
    };
    let s1 = empty.reg_address(sc_address).0;
    let s2 = s1.reg_address(Address::zero_spec()).0;
    let s3 = NftState { esdt: s2.esdt.push(egld_name()), ..s2 };
    let s4 = s3.reg_str(start_word()).0;
    NftState {
        dealers: s4.dealers.push(
            DealerModel {
                state: 1,
                addr: ZERO_ADDR,
                miners: Seq::empty(),
                markups: Seq::empty(),
                max_markups: Seq::empty(),
                tokens: Seq::empty(),
            },
        ),
        tokens: s4.tokens.push(placeholder_token()),
        ..s4
    }
}

/// What the tokens of one mint share.
pub struct MintPlan {
    pub owner: u64,
    pub miner: u64,
    pub creator: u64,
    pub description: u64,
    pub collection: u64,
    pub price: u32,
    pub properties: u16,
    pub miner_ratio: u16,
    pub gift: u16,
    pub deadline: u64,
    pub limit: u8,
    pub money: Seq<u8>,
    pub status: u8,
    pub required: Seq<u64>,
    pub count: u64,
}

/// A minted token with secret at position `secret`, gift `gift` and money
/// at 1-based position `money`.
pub open spec fn minted_token(p: MintPlan, secret: u64, gift: u16, money: u16) -> TokenModel {
    TokenModel {
        price: p.price,
        description: p.description,
        secret,
        collection: p.collection,
        gift,
        resp: 0,
        owner: p.owner,
        miner: p.miner,
        creator: p.creator,
        properties: p.properties,
        miner_ratio: p.miner_ratio,
        money,
        limit: p.limit,
        status: p.status,
        deadline: p.deadline,
        required: p.required,
    }
}

/// The secret used for the token minted at position `id`: the id's 8
/// big-endian bytes, upper-cased, when the secret is "@id@" (any case), and
/// the secret itself otherwise.
pub open spec fn secret_for(secret: Seq<u8>, id: u64) -> Seq<u8> {
    if eq_ignore_case(secret, id_marker()) {
        u64_be(id).map_values(|b: u8| ascii_upper(b))
    } else {
        secret
    }
}

/// Minting the tokens at positions `id..end`, with `secret` the secret and
/// `gift` the gift carried over from the previous token. With `ONE_WINNER`
/// and a gift, the token at a position that `count` divides gets the gift
/// and the next token the secret "Gagné"; any other gets no gift and the
/// next token the secret "Perdu". Gives the storage and the ids of the new
/// tokens.
pub open spec fn mint_from(s: NftState, p: MintPlan, id: u64, end: u64, secret: Seq<u8>, gift: u16) -> (
    NftState,
    Seq<u64>,
)
    decreases end - id,
{
    if !(id < end) {
        (s, Seq::empty())
    } else {
        let ts = secret_for(secret, id);
        let (s1, secret_idx) = s.reg_str(ts);
        let (next_secret, g) = if p.properties & ONE_WINNER > 0 && p.gift > 0 {
            if id % p.count == 0 {
                (won_word(), p.gift)
            } else {
                (lost_word(), 0u16)
            }
        } else {
            (ts, gift)
        };
        let (s2, money_idx) = s1.reg_esdt(p.money);
        let s3 = NftState { tokens: s2.tokens.push(minted_token(p, secret_idx, g, money_idx)), ..s2 };
        let (s4, rest) = mint_from(s3, p, (id + 1) as u64, end, next_secret, g);
        (s4, seq![(id + 1) as u64] + rest)
    }
}

/// `perform_mint`: registers the owner, miner and creator, the description
/// and the collection, then mints `count` tokens after the existing ones.
pub open spec fn perform_mint_spec(
    s: NftState,
    count: u64,
    miner: Address,
    owner: Address,
    creator: Address,
    collection: Seq<u8>,
    description: Seq<u8>,
    required_token: u64,
    secret: Seq<u8>,
    price: u32,
    properties: u16,
    miner_ratio: u16,
    gift: u16,
    deadline: u64,
    limit: u8,
    money: Seq<u8>,
    status: u8,
    now: u64,
) -> (NftState, Seq<u64>) {
    let (s1, io) = s.reg_address(owner);
    let (s2, im) = s1.reg_address(miner);
    let (s3, ic) = s2.reg_address(creator);
    let (s4, id) = s3.reg_str(description);
    let (s5, icol) = s4.reg_str(collection);
    let offset = s5.tokens.len() as u64;
    let plan = MintPlan {
        owner: io,
        miner: im,
        creator: ic,
        description: id,
        collection: icol,
        price,
        properties,
        miner_ratio,
        gift,
        deadline: deadline.wrapping_add(now),
        limit,
        money,
        status,
        required: if required_token > 0 {
            seq![required_token]
        } else {
            Seq::empty()
        },
        count,
    };
    mint_from(s5, plan, offset, count.wrapping_add(offset), secret, gift)
}

/// `mint`: the checks, in order, then `perform_mint` with status 0. The
/// miner recorded is `miner` itself when it is the zero address, and the
/// caller otherwise.
pub open spec fn mint_spec(
    s: NftState,
    ctx: CallContext,
    count: u64,
    collection: Seq<u8>,
    description: Seq<u8>,
    required_token: u64,
    secret: Seq<u8>,
    price: u32,
    properties: u16,
    owner: Address,
    miner: Address,
    creator: Address,
    miner_ratio: u16,
    gift: u16,
    deadline: u64,
    limit: u8,
    money: Seq<u8>,
) -> Result<(NftState, Seq<u64>), NftError> {
    let recorded_miner = if miner != Address::zero_spec() {
        ctx.caller
    } else {
        miner
    };
    if !(description.len() > 0) {
        Err(NftError::E02EmptyDescription)
    } else if !(miner_ratio <= 10000) {
        Err(NftError::E04MinerRatio)
    } else if !(money == egld_name() || valid_esdt_identifier(money)) {
        Err(NftError::E65InvalidMoney)
    } else if !(gift == 0 || miner == ctx.caller) {
        Err(NftError::E88GiftNeedsMiner)
    } else if money == egld_name() && properties & ONE_WINNER == 0 && ctx.payment != gift * count {
        Err(NftError::E05PaymentMismatch)
    } else if !(required_token == 0 || required_token <= s.total_minted()) {
        Err(NftError::E88RequiredTokenMissing)
    } else {
        Ok(
            perform_mint_spec(
                s,
                count,
                recorded_miner,
                owner,
                creator,
                collection,
                description,
                required_token,
                secret,
                price,
                properties,
                miner_ratio,
                gift,
                deadline,
                limit,
                money,
                0,
                ctx.timestamp,
            ),
        )
    }
}

/// `clone`: the miner of token `ref_token_id` appends `count` copies of it,
/// owned by `owner` when `owner` is registered and not the zero address
/// (an unregistered `owner` gives the owner position `NOT_FIND`), and gets
/// the ids of the copies.
pub open spec fn clone_spec(s: NftState, ctx: CallContext, ref_token_id: u64, count: u64, owner: Address) -> Result<
    (NftState, Seq<u64>),
    NftError,
> {
    match s.token(ref_token_id) {
        None => Err(NftError::IndexOutOfRange),
        Some(t) => if t.miner != s.idx_address(ctx.caller) {
            Err(NftError::E88OnlyMinerClones)
        } else {
            match s.money(t.money) {
                None => Err(NftError::IndexOutOfRange),
                Some(m) => if m == egld_name() && t.properties & ONE_WINNER == 0 && t.gift > 0
                    && ctx.payment != t.gift * count {
                    Err(NftError::E05PaymentMismatch)
                } else {
                    let new_owner = s.idx_address(owner);
                    let copy = if new_owner != ZERO_ADDR {
                        TokenModel { owner: new_owner, ..t }
                    } else {
                        t
                    };
                    Ok(
                        (
                            NftState {
                                tokens: s.tokens + Seq::new(count as nat, |i: int| copy),
                                ..s
                            },
                            Seq::new(count as nat, |i: int| (s.tokens.len() + i + 1) as u64),
                        ),
                    )
                },
            }
        },
    }
}

/// `update`: the owner, who must also be the miner, of a token not on sale
/// changes its description when `field_name` is "description" (in any case).
pub open spec fn update_spec(
    s: NftState,
    ctx: CallContext,
    token_id: u64,
    field_name: Seq<u8>,
    new_value: Seq<u8>,
) -> Result<(NftState, ()), NftError> {
    if !(token_id <= s.total_minted()) {
        Err(NftError::UpdateTokenDoesNotExist)
    } else {
        match s.token(token_id) {
            None => Err(NftError::IndexOutOfRange),
            Some(t) => {
                let (s1, caller) = s.reg_address(ctx.caller);
                if caller != t.owner {
                    Err(NftError::E10OnlyOwner)
                } else if t.properties & FOR_SALE != 0 {
                    Err(NftError::E52OnSale)
                } else if caller != t.miner {
                    Err(NftError::OnlyMinerUpdates)
                } else if eq_ignore_case(field_name, description_word()) {
                    let (s2, d) = s1.reg_str(new_value);
                    Ok((s2.with_token(token_id, TokenModel { description: d, ..t }), ()))
                } else {
                    Ok((s1.with_token(token_id, t), ()))
                }
            },
        }
    }
}

/// The properties after asking for sale state `new_state`: on sale for 1,
/// off sale for anything else.
pub open spec fn sale_properties(properties: u16, new_state: u8) -> u16 {
    if new_state == 1 {
        properties | FOR_SALE
    } else {
        properties & !FOR_SALE
    }
}

/// `setstate` for the tokens `ids` in turn, by the owner at position
/// `caller`, counting in `changed` the tokens whose properties changed.
pub open spec fn setstate_from(s: NftState, caller: u64, ids: Seq<u64>, new_state: u8, changed: u64) -> Result<
    (NftState, u64),
    NftError,
>
    decreases ids.len(),
{
    if ids.len() == 0 {
        Ok((s, changed))
    } else {
        let token_id = ids[0];
        if !(token_id <= s.total_minted()) {
            Err(NftError::E12TokenDoesNotExist)
        } else {
            match s.token(token_id) {
                None => Err(NftError::IndexOutOfRange),
                Some(t) => if caller != t.owner {
                    Err(NftError::E17OnlyOwnerChangesState)
                } else if !(new_state == 0 || t.properties & CAN_RESELL > 0) {
                    Err(NftError::E18NotResellable)
                } else {
                    let p = sale_properties(t.properties, new_state);
                    if p != t.properties {
                        setstate_from(
                            s.with_token(token_id, TokenModel { properties: p, ..t }),
                            caller,
                            ids.drop_first(),
                            new_state,
                            (changed + 1) as u64,
                        )
                    } else {
                        setstate_from(s, caller, ids.drop_first(), new_state, changed)
                    }
                },
            }
        }
    }
}

/// `setstate`: the caller puts its tokens `ids` on sale (`new_state` 1) or
/// takes them off sale, and gets the number of tokens that changed.
pub open spec fn setstate_spec(s: NftState, ctx: CallContext, ids: Seq<u64>, new_state: u8) -> Result<
    (NftState, u64),
    NftError,
> {
    let (s1, caller) = s.reg_address(ctx.caller);
    setstate_from(s1, caller, ids, new_state, 0)
}

/// `gift * count`, the funds that `count` tokens with gift `gift` hold.
pub fn gift_total(gift: u16, count: u64) -> (r: u128)
    ensures
        r == gift * count,
{
    proof {
        assert((gift as int) * (count as int) <= 0xffff * 0xffff_ffff_ffff_ffff) by (nonlinear_arith)
            requires
                gift <= 0xffff,
                count <= 0xffff_ffff_ffff_ffff,
        ;
    }
    (gift as u128) * (count as u128)
}

impl ENonFungibleTokens {
    /// Creates the storage of the contract deployed at `sc_address`.
    pub fn init(sc_address: Address) -> (r: ENonFungibleTokens)
        ensures
            r@ == init_spec(sc_address),
            r@.wf(),
    {
        let mut r = ENonFungibleTokens {
            tokens_map: Vec::new(),
            addresses: Vec::new(),
            esdt_map: Vec::new(),
            dealers_map: Vec::new(),
            strs: Vec::new(),
            approvals: HashMap::new(),
            ipfs_map: Vec::new(),
            outbox: Vec::new(),
        };
        let ghost empty = r@;
        r.set_addresses(&sc_address);
        r.set_addresses(&Address::zero());
        let ghost s2 = r@;
        r.esdt_map.push(egld());
        assert(r@ =~= NftState { esdt: s2.esdt.push(egld_name()), ..s2 });
        r.set_str(&start_bytes());
        r.dealers_map.push(Dealer::new(ZERO_ADDR));
        r.tokens_map.push(
            Token {
                owner: ZERO_ADDR,
                miner: ZERO_ADDR,
                creator: ZERO_ADDR,
                price: 0,
                resp: 0u8,
                gift: 0,
                limit: 0,
                description: 0,
                secret: 0,
                collection: 0,
                status: 0,
                properties: 0,
                miner_ratio: 0,
                money: 0,
                deadline: 0,
                required: Vec::new(),
            },
        );
        assert(empty =~= NftState {
            tokens: Seq::empty(),
            addresses: Seq::empty(),
            esdt: Seq::empty(),
            dealers: Seq::empty(),
            strs: Seq::empty(),
            approvals: Map::empty(),
            ipfs: Seq::empty(),
            outbox: Seq::empty(),
        });
        assert(r@ =~= init_spec(sc_address));
        r
    }

    /// Mints `count` tokens after the existing ones, all owned by `new_token_owner`,
    /// mined by `new_token_miner` and created by `new_token_creator`, and
    /// returns their ids. A secret "@id@" (in any case) becomes the token's
    /// id in upper-cased big-endian bytes. The deadline is counted from
    /// `now`.
    pub fn perform_mint(
        &mut self,
        count: u64,
        new_token_miner: Address,
        new_token_owner: Address,
        new_token_creator: Address,
        new_token_collection: &Vec<u8>,
        new_token_description: &Vec<u8>,
        required_token: u64,
        secret: &Vec<u8>,
        new_token_price: u32,
        properties: u16,
        miner_ratio: u16,
        gift: u16,
        deadline: u64,
        limit: u8,
        money: &Vec<u8>,
        status: u8,
        now: u64,
    ) -> (r: Vec<u64>)
        ensures
            (final(self)@, r@) == perform_mint_spec(
                old(self)@,
                count,
                new_token_miner,
                new_token_owner,
                new_token_creator,
                new_token_collection@,
                new_token_description@,
                required_token,
                secret@,
                new_token_price,
                properties,
                miner_ratio,
                gift,
                deadline,
                limit,
                money@,
                status,
                now,
            ),
            old(self)@.wf() ==> final(self)@.wf(),
    {
        let ghost goal = perform_mint_spec(
            old(self)@,
            count,
            new_token_miner,
            new_token_owner,
            new_token_creator,
            new_token_collection@,
            new_token_description@,
            required_token,
            secret@,
            new_token_price,
            properties,
            miner_ratio,
            gift,
            deadline,
            limit,
            money@,
            status,
            now,
        );
        let mut rc: Vec<u64> = Vec::new();
        let idx_token_owner = self.set_addresses(&new_token_owner);
        let idx_token_miner = self.set_addresses(&new_token_miner);
        let idx_token_creator = self.set_addresses(&new_token_creator);
        let idx_description = self.set_str(new_token_description);
        let idx_collection = self.set_str(new_token_collection);
        let mut temp_secret = crate::bytes::bytes_copy(secret.as_slice());
        let mut set_gift = gift;
        let mut required_tokens: Vec<u64> = Vec::new();
        if required_token > 0 {
            required_tokens.push(required_token);
        }
        let offset = self.tokens_map.len() as u64;
        let token_deadline = deadline.wrapping_add(now);
        let ghost plan = MintPlan {
            owner: idx_token_owner,
            miner: idx_token_miner,
            creator: idx_token_creator,
            description: idx_description,
            collection: idx_collection,
            price: new_token_price,
            properties,
            miner_ratio,
            gift,
            deadline: token_deadline,
            limit,
            money: money@,
            status,
            required: required_tokens@,
            count,
        };
        assert(required_tokens@ =~= (if required_token > 0 {
            seq![required_token]
        } else {
            Seq::<u64>::empty()
        }));
        let end = count.wrapping_add(offset);
        assert(count == 0 ==> end == offset);
        let mut id = offset;
        while id < end
            invariant
                offset <= id,
                offset <= end ==> id <= end,
                count == 0 ==> end == offset,
                old(self)@.wf() ==> self@.wf(),
                plan.owner == idx_token_owner,
                plan.miner == idx_token_miner,
                plan.creator == idx_token_creator,
                plan.description == idx_description,
                plan.collection == idx_collection,
                plan.price == new_token_price,
                plan.properties == properties,
                plan.miner_ratio == miner_ratio,
                plan.gift == gift,
                plan.deadline == token_deadline,
                plan.limit == limit,
                plan.money == money@,
                plan.status == status,
                plan.required == required_tokens@,
                plan.count == count,
                ({
                    let (sf, ids) = mint_from(self@, plan, id, end, temp_secret@, set_gift);
                    (sf, rc@ + ids)
                }) == goal,
            decreases end - id,
        {
            let ghost s0 = self@;
            let ghost ts0 = temp_secret@;
            let ghost g0 = set_gift;
            if bytes_eq_ignore_ascii_case(temp_secret.as_slice(), id_marker_bytes().as_slice()) {
                let mut id_bytes: Vec<u8> = Vec::new();
                push_u64_be(&mut id_bytes, id);
                assert(id_bytes@ =~= u64_be(id));
                temp_secret = bytes_to_ascii_uppercase(id_bytes.as_slice());
            }
            assert(temp_secret@ == secret_for(ts0, id));
            let idx_secret = self.set_str(&temp_secret);
            if properties & ONE_WINNER > 0 {
                if gift > 0 {
                    if id % count == 0 {
                        set_gift = gift;
                        temp_secret = won();
                    } else {
                        set_gift = 0;
                        temp_secret = lost();
                    }
                }
            }
            let money_idx = self.set_esdt(money);
            let token = Token {
                owner: idx_token_owner,
                miner: idx_token_miner,
                creator: idx_token_creator,
                price: new_token_price,
                resp: 0u8,
                gift: set_gift,
                description: idx_description,
                secret: idx_secret,
                collection: idx_collection,
                status: status,
                deadline: token_deadline,
                properties: properties,
                limit: limit,
                miner_ratio: miner_ratio,
                money: money_idx,
                required: crate::token::copy_ids(&required_tokens),
            };
            assert(token@ == minted_token(plan, idx_secret, set_gift, money_idx));
            let ghost s2 = self@;
            self.tokens_map.push(token);
            assert(self@ =~= NftState {
                tokens: s2.tokens.push(minted_token(plan, idx_secret, set_gift, money_idx)),
                ..s2
            });
            let ghost rc_before = rc@;
            rc.push(id + 1);
            let ghost step = mint_from(s0, plan, id, end, ts0, g0);
            let ghost next = mint_from(self@, plan, (id + 1) as u64, end, temp_secret@, set_gift);
            assert(step == (next.0, seq![(id + 1) as u64] + next.1));
            assert(rc@ + next.1 =~= rc_before + step.1);
            id = id + 1;
        }
        proof {
            assert(mint_from(self@, plan, id, end, temp_secret@, set_gift) == (self@, Seq::<u64>::empty()));
            assert(rc@ + Seq::<u64>::empty() =~= rc@);
        }
        rc
    }

    /// Creates `count` new tokens and sets their ownership to `owner`; returns
    /// their ids. `max_markup` is not used.
    pub fn mint(
        &mut self,
        ctx: &CallContext,
        count: u64,
        new_token_collection: &Vec<u8>,
        new_token_description: &Vec<u8>,
        required_token: u64,
        secret: &Vec<u8>,
        initial_price: u32,
        max_markup: u16,
        properties: u16,
        owner: Address,
        miner: Address,
        creator: Address,
        miner_ratio: u16,
        gift: u16,
        deadline: u64,
        limit: u8,
        money: &Vec<u8>,
    ) -> (r: Result<Vec<u64>, NftError>)
        ensures
            settles(
                old(self)@,
                final(self)@,
                crate::state::view_result(r),
                mint_spec(
                    old(self)@,
                    *ctx,
                    count,
                    new_token_collection@,
                    new_token_description@,
                    required_token,
                    secret@,
                    initial_price,
                    properties,
                    owner,
                    miner,
                    creator,
                    miner_ratio,
                    gift,
                    deadline,
                    limit,
                    money@,
                ),
            ),
            old(self)@.wf() ==> final(self)@.wf(),
    {
        let mut caller = miner;
        if !miner.is_zero() {
            caller = ctx.caller;
        }
        if !(new_token_description.len() > 0) {
            return Err(NftError::E02EmptyDescription);
        }
        if !(miner_ratio <= 10000) {
            return Err(NftError::E04MinerRatio);
        }
        let money_is_egld = is_egld(money.as_slice());
        if !(money_is_egld || is_valid_esdt_identifier(money.as_slice())) {
            return Err(NftError::E65InvalidMoney);
        }
        if !(gift == 0 || miner == ctx.caller) {
            return Err(NftError::E88GiftNeedsMiner);
        }
        if money_is_egld && (properties & ONE_WINNER == 0) {
            if ctx.payment != gift_total(gift, count) {
                return Err(NftError::E05PaymentMismatch);
            }
        }
        if !(required_token == 0 || required_token <= self.get_total_minted()) {
            return Err(NftError::E88RequiredTokenMissing);
        }
        let token_ids = self.perform_mint(
            count,
            caller,
            owner,
            creator,
            new_token_collection,
            new_token_description,
            required_token,
            secret,
            initial_price,
            properties,
            miner_ratio,
            gift,
            deadline,
            limit,
            money,
            0u8,
            ctx.timestamp,
        );
        return Ok(token_ids);
    }

    /// The miner of token `ref_token_id` appends `count` copies of it, owned
    /// by `owner` when `owner` is registered and not the zero address;
    /// returns the ids of the copies.
    pub fn clone(&mut self, ctx: &CallContext, ref_token_id: u64, count: u64, owner: Address) -> (r: Result<
        Vec<u64>,
        NftError,
    >)
        ensures
            settles(
                old(self)@,
                final(self)@,
                crate::state::view_result(r),
                clone_spec(old(self)@, *ctx, ref_token_id, count, owner),
            ),
            old(self)@.wf() ==> final(self)@.wf(),
    {
        let mut token = self.load_token(ref_token_id)?;
        if !(token.miner == self.get_idx_addresses(&ctx.caller)) {
            return Err(NftError::E88OnlyMinerClones);
        }
        let payment = ctx.payment;
        let money = self.load_money(token.money)?;
        if is_egld(money.as_slice()) && (token.properties & ONE_WINNER == 0) && token.gift > 0 {
            if payment != gift_total(token.gift, count) {
                return Err(NftError::E05PaymentMismatch);
            }
        }
        let new_owner_addr = self.get_idx_addresses(&owner);
        if new_owner_addr != ZERO_ADDR {
            token.owner = new_owner_addr;
        }
        let ghost s0 = self@;
        let ghost t = token@;
        let mut rc: Vec<u64> = Vec::new();
        let mut i: u64 = 0;
        while i < count
            invariant
                i <= count,
                token@ == t,
                self@ == (NftState { tokens: s0.tokens + Seq::new(i as nat, |k: int| t), ..s0 }),
                rc@ == Seq::new(i as nat, |k: int| (s0.tokens.len() + k + 1) as u64),
            decreases count - i,
        {
            let ghost before = self@;
            self.tokens_map.push(token.copy());
            assert(self@.tokens =~= before.tokens.push(t));
            assert(before.tokens.push(t) =~= s0.tokens + Seq::new((i + 1) as nat, |k: int| t));
            assert(self@ =~= NftState { tokens: s0.tokens + Seq::new((i + 1) as nat, |k: int| t), ..s0 });
            rc.push(self.get_total_minted());
            assert(rc@ =~= Seq::new((i + 1) as nat, |k: int| (s0.tokens.len() + k + 1) as u64));
            i = i + 1;
        }
        return Ok(rc);
    }

    /// Changes the description of token `token_id` when `field_name` is
    /// "description" (in any case); the caller must own the token, have mined
    /// it, and the token must not be on sale.
    pub fn update(&mut self, ctx: &CallContext, token_id: u64, field_name: &Vec<u8>, new_value: &Vec<u8>) -> (r:
        Result<(), NftError>)
        ensures
            settles(old(self)@, final(self)@, r, update_spec(old(self)@, *ctx, token_id, field_name@, new_value@)),
            old(self)@.wf() ==> final(self)@.wf(),
    {
        let saved = self.snapshot();
        let r = self.update_steps(ctx, token_id, field_name, new_value);
        if r.is_err() {
            *self = saved;
        }
        r
    }

    /// The steps of `update`, leaving partial changes on failure.
    fn update_steps(&mut self, ctx: &CallContext, token_id: u64, field_name: &Vec<u8>, new_value: &Vec<u8>) -> (r:
        Result<(), NftError>)
        ensures
            reaches(final(self)@, r, update_spec(old(self)@, *ctx, token_id, field_name@, new_value@)),
    {
        if !(token_id <= self.get_total_minted()) {
            return Err(NftError::UpdateTokenDoesNotExist);
        }
        let mut token = self.load_token(token_id)?;
        let caller = self.set_addresses(&ctx.caller);
        if !(caller == token.owner) {
            return Err(NftError::E10OnlyOwner);
        }
        if !(token.properties & FOR_SALE == 0) {
            return Err(NftError::E52OnSale);
        }
        if !(caller == token.miner) {
            return Err(NftError::OnlyMinerUpdates);
        }
        if bytes_eq_ignore_ascii_case(field_name.as_slice(), description_bytes().as_slice()) {
            token.description = self.set_str(new_value);
        }
        let stored = self.store_token(token_id, token);
        assert(stored is Ok);
        return Ok(());
    }

    /// Puts the caller's tokens `token_ids` on sale (`new_state` 1) or takes
    /// them off sale (any other value, which needs no resale right); returns
    /// how many tokens changed.
    pub fn setstate(&mut self, ctx: &CallContext, token_ids: Vec<u64>, new_state: u8) -> (r: Result<u64, NftError>)
        ensures
            settles(old(self)@, final(self)@, r, setstate_spec(old(self)@, *ctx, token_ids@, new_state)),
            old(self)@.wf() ==> final(self)@.wf(),
    {
        let saved = self.snapshot();
        let r = self.setstate_steps(ctx, &token_ids, new_state);
        if r.is_err() {
            *self = saved;
        }
        r
    }

    /// The steps of `setstate`, leaving partial changes on failure.
    fn setstate_steps(&mut self, ctx: &CallContext, token_ids: &Vec<u64>, new_state: u8) -> (r: Result<
        u64,
        NftError,
    >)
        ensures
            reaches(final(self)@, r, setstate_spec(old(self)@, *ctx, token_ids@, new_state)),
            final(self)@.dealers == old(self)@.dealers,
            final(self)@.ipfs == old(self)@.ipfs,
    {
        let caller_addr = self.set_addresses(&ctx.caller);
        let ghost goal = setstate_spec(old(self)@, *ctx, token_ids@, new_state);
        assert(token_ids@.skip(0) =~= token_ids@);
        let n = token_ids.len();
        let mut rc: u64 = 0;
        let mut i: usize = 0;
        let mut failure: Option<NftError> = None;
        while failure.is_none() && i < n
            invariant
                n == token_ids@.len(),
                i <= n,
                rc <= i,
                failure is None ==> setstate_from(self@, caller_addr, token_ids@.skip(i as int), new_state, rc)
                    == goal,
                failure matches Some(e) ==> goal == Err::<(NftState, u64), NftError>(e),
                self@.dealers == old(self)@.dealers,
                self@.ipfs == old(self)@.ipfs,
            decreases (n - i) as int + if failure is None { 1int } else { 0int },
        {
            let ghost rest = token_ids@.skip(i as int);
            assert(rest[0] == token_ids@[i as int]);
            assert(rest.drop_first() =~= token_ids@.skip(i + 1));
            let token_id = token_ids[i];
            if !(token_id <= self.get_total_minted()) {
                failure = Some(NftError::E12TokenDoesNotExist);
            } else {
                match self.load_token(token_id) {
                    Err(e) => {
                        failure = Some(e);
                    },
                    Ok(token) => {
                        let mut token = token;
                        if !(caller_addr == token.owner) {
                            failure = Some(NftError::E17OnlyOwnerChangesState);
                        } else if !(new_state == 0 || token.properties & CAN_RESELL > 0) {
                            failure = Some(NftError::E18NotResellable);
                        } else {
                            let old_state = token.properties;
                            if new_state == 1 {
                                token.properties = token.properties | FOR_SALE;
                            } else {
                                token.properties = token.properties & !FOR_SALE;
                            }
                            if token.properties != old_state {
                                let stored = self.store_token(token_id, token);
                                assert(stored is Ok);
                                rc = rc + 1;
                            }
                            i = i + 1;
                        }
                    },
                }
            }
        }
        match failure {
            Some(e) => Err(e),
            None => {
                assert(token_ids@.skip(n as int) =~= Seq::<u64>::empty());
                Ok(rc)
            },
        }
    }
}

} // verus!
