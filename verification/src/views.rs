//! Read-only views: tokens and dealers serialized to bytes, the lists of
//! dealers and miners, and the token listing.
use vstd::prelude::*;
use crate::address::Address;
use crate::bytes::{bytes_equal, push_all, push_u16_be, push_u32_be, push_u64_be, push_usize_be, u16_be, u32_be, u64_be, usize_be};
use crate::dealer::{Dealer, DealerModel};
use crate::state::{CallContext, ENonFungibleTokens, NftError, NftState};
use crate::token::{Token, TokenModel};
use crate::{NOT_FIND, SECRET_VOTE, UNIK, ZERO_ADDR};

verus! {

/// A dealer's bytes: its address's 32 bytes, then its state.
pub open spec fn dealer_bytes(s: NftState, d: DealerModel) -> Result<Seq<u8>, NftError> {
    match s.address(d.addr) {
        None => Err(NftError::IndexOutOfRange),
        Some(a) => Ok(a.bytes().push(d.state)),
    }
}

/// The bytes of the addresses at positions `miners`, one after the other.
pub open spec fn addresses_bytes(s: NftState, miners: Seq<u64>) -> Result<Seq<u8>, NftError>
    decreases miners.len(),
{
    if miners.len() == 0 {
        Ok(Seq::empty())
    } else {
        match addresses_bytes(s, miners.drop_last()) {
            Err(e) => Err(e),
            Ok(b) => match s.address(miners.last()) {
                None => Err(NftError::IndexOutOfRange),
                Some(a) => Ok(b + a.bytes()),
            },
        }
    }
}

/// `miners`: the addresses accepted by the dealer of `dealer_addr`.
pub open spec fn miners_spec(s: NftState, dealer_addr: Address) -> Result<Seq<u8>, NftError> {
    let idx = s.idx_dealer(s.idx_address(dealer_addr));
    if idx == NOT_FIND {
        Ok(Seq::empty())
    } else {
        match s.dealer(idx) {
            None => Err(NftError::IndexOutOfRange),
            Some(d) => addresses_bytes(s, d.miners),
        }
    }
}

/// The bytes of the dealers of `dealers` that accept the miner at position
/// `filter` (every dealer when `filter` is the zero address's position).
pub open spec fn dealers_bytes(s: NftState, dealers: Seq<DealerModel>, filter: u64) -> Result<Seq<u8>, NftError>
    decreases dealers.len(),
{
    if dealers.len() == 0 {
        Ok(Seq::empty())
    } else {
        match dealers_bytes(s, dealers.drop_last(), filter) {
            Err(e) => Err(e),
            Ok(b) => {
                let d = dealers.last();
                if filter == ZERO_ADDR || d.miners.contains(filter) {
                    match dealer_bytes(s, d) {
                        Err(e) => Err(e),
                        Ok(db) => Ok(b + db),
                    }
                } else {
                    Ok(b)
                }
            },
        }
    }
}

/// The bytes that describe a token with id `token_id` sold at markup
/// `markup` (highest `max_markup`): the lengths of its collection, its
/// description and its money's name; its price with the markup; the money's
/// name; the owner's address; whether it holds a secret or gift; its
/// properties, status and answer (0 for a secret vote); the markups; its
/// deadline and miner's share; the miner's and creator's addresses; its id;
/// its collection and its description.
#[verifier::opaque]
pub open spec fn token_bytes(s: NftState, t: TokenModel, markup: u16, max_markup: u16, token_id: u64) -> Result<
    Seq<u8>,
    NftError,
> {
    match (
        s.string(t.collection),
        s.string(t.description),
        s.address(t.owner),
        s.address(t.miner),
        s.address(t.creator),
        s.money(t.money),
    ) {
        (Some(collection), Some(description), Some(owner), Some(miner), Some(creator), Some(money)) => {
            let price = t.price.wrapping_add(100u32.wrapping_mul(markup as u32));
            let has_secret: u8 = if t.secret > 0 || t.gift > 0 {
                1
            } else {
                0
            };
            let resp: u8 = if t.properties & SECRET_VOTE > 0 {
                0
            } else {
                t.resp
            };
            Ok(
                u16_be(collection.len() as u16) + u16_be(description.len() as u16) + usize_be(
                    money.len() as usize,
                ) + u32_be(price) + money + owner.bytes() + seq![has_secret] + u16_be(t.properties) + seq![
                    t.status,
                    resp,
                ] + u16_be(max_markup) + u16_be(markup) + u64_be(t.deadline) + u16_be(t.miner_ratio)
                    + miner.bytes() + creator.bytes() + u64_be(token_id) + collection + description,
            )
        },
        _ => Err(NftError::IndexOutOfRange),
    }
}

/// Whether token `t` is listed with the owner filter `owner` and miner
/// filter `miner` (the zero address's position lets any through).
pub open spec fn listed(t: TokenModel, owner: u64, miner: u64, now: u64) -> bool {
    (owner == ZERO_ADDR || owner == t.owner) && (miner == ZERO_ADDR || miner == t.miner) && !t.burnt_at(now)
}

/// The listing of tokens `id..end`, after `occ - 1` tokens already listed,
/// stopping once `limit <= occ`.
pub open spec fn list_from(
    s: NftState,
    owner: u64,
    miner: u64,
    now: u64,
    limit: u64,
    id: u64,
    end: u64,
    occ: u64,
) -> Result<Seq<Seq<u8>>, NftError>
    decreases end - id,
{
    if !(id < end) || limit <= occ {
        Ok(Seq::empty())
    } else {
        match s.token(id) {
            None => Err(NftError::IndexOutOfRange),
            Some(t) => if listed(t, owner, miner, now) {
                match token_bytes(s, t, 0, 0, id) {
                    Err(e) => Err(e),
                    Ok(b) => match list_from(s, owner, miner, now, limit, (id + 1) as u64, end, (occ + 1) as u64) {
                        Err(e) => Err(e),
                        Ok(rest) => Ok(seq![b] + rest),
                    },
                }
            } else {
                list_from(s, owner, miner, now, limit, (id + 1) as u64, end, occ)
            },
        }
    }
}

/// The listing of the tokens `ids` of dealer `d` that are live and pass the
/// owner filter `owner` and miner filter `miner`, with the dealer's markups.
pub open spec fn list_dealer(s: NftState, d: DealerModel, owner: u64, miner: u64, now: u64, ids: Seq<u64>) -> Result<
    Seq<Seq<u8>>,
    NftError,
>
    decreases ids.len(),
{
    if ids.len() == 0 {
        Ok(Seq::empty())
    } else {
        match s.token(ids[0]) {
            None => Err(NftError::IndexOutOfRange),
            Some(t) => {
                let (markup, max_markup) = d.markup_of(ids[0]);
                let here = if listed(t, owner, miner, now) {
                    match token_bytes(s, t, markup, max_markup, ids[0]) {
                        Err(e) => Err(e),
                        Ok(b) => Ok(seq![b]),
                    }
                } else {
                    Ok(Seq::empty())
                };
                match here {
                    Err(e) => Err(e),
                    Ok(h) => match list_dealer(s, d, owner, miner, now, ids.drop_first()) {
                        Err(e) => Err(e),
                        Ok(rest) => Ok(h + rest),
                    },
                }
            },
        }
    }
}

/// The three filters of `tokens` once registered: the positions of
/// `miner_filter`, `owner_filter` and `dealer_filter`, registered in that
/// order, and the storage after.
pub open spec fn registered_filters(
    s: NftState,
    dealer_filter: Address,
    owner_filter: Address,
    miner_filter: Address,
) -> (NftState, u64, u64, u64) {
    let (s1, miner) = s.reg_address(miner_filter);
    let (s2, owner) = s1.reg_address(owner_filter);
    let (s3, dealer) = s2.reg_address(dealer_filter);
    (s3, dealer, owner, miner)
}

/// The dealer that `tokens` reads, if any, has a markup and a highest
/// markup for each of its tokens.
pub open spec fn dealer_filter_readable(
    s: NftState,
    dealer_filter: Address,
    owner_filter: Address,
    miner_filter: Address,
) -> bool {
    let (s3, dealer, _, _) = registered_filters(s, dealer_filter, owner_filter, miner_filter);
    dealer != ZERO_ADDR && s3.dealer(s3.idx_dealer(dealer)) is Some ==> s3.dealer(
        s3.idx_dealer(dealer),
    )->0.readable()
}

/// `tokens`: registers the three filters (miner, owner, dealer, in that
/// order), then lists the live tokens that pass the owner and miner filters
/// (the zero address's position lets any through). Without a dealer filter,
/// the tokens from id 2 on, fewer than `limit`; with one, the tokens of that
/// dealer, with its markups.
pub open spec fn tokens_spec(
    s: NftState,
    ctx: CallContext,
    dealer_filter: Address,
    owner_filter: Address,
    miner_filter: Address,
    limit: u64,
) -> Result<(NftState, Seq<Seq<u8>>), NftError> {
    let (s3, dealer, owner, miner) = registered_filters(s, dealer_filter, owner_filter, miner_filter);
    let listing = if dealer == ZERO_ADDR {
        list_from(s3, owner, miner, ctx.timestamp, limit, 2, s3.total_minted().wrapping_add(1), 1)
    } else {
        match s3.dealer(s3.idx_dealer(dealer)) {
            None => Err(NftError::IndexOutOfRange),
            Some(d) => list_dealer(s3, d, owner, miner, ctx.timestamp, d.tokens),
        }
    };
    match listing {
        Err(e) => Err(e),
        Ok(l) => Ok((s3, l)),
    }
}

/// The listing as byte strings.
pub open spec fn listing_view(v: Vec<Vec<u8>>) -> Seq<Seq<u8>> {
    v@.map_values(|b: Vec<u8>| b@)
}

impl ENonFungibleTokens {
    /// The bytes of `dealer`: its address's 32 bytes, then its state.
    pub fn dealer_to_vec(&self, dealer: &Dealer) -> (r: Result<Vec<u8>, NftError>)
        ensures
            crate::state::view_result(r) == dealer_bytes(self@, dealer@),
    {
        let a = self.get_addresses(dealer.addr)?;
        let mut rc = a.to_vec();
        rc.push(dealer.state);
        Ok(rc)
    }

    /// The bytes of the dealer of `dealer_addr`.
    pub fn find_dealer_by_addr(&self, dealer_addr: &Address) -> (r: Result<Vec<u8>, NftError>)
        ensures
            crate::state::view_result(r) == match self@.dealer(self@.idx_dealer(self@.idx_address(*dealer_addr))) {
                None => Err(NftError::IndexOutOfRange),
                Some(d) => dealer_bytes(self@, d),
            },
    {
        let idx_dealer_addr = self.get_idx_addresses(dealer_addr);
        let dealer_idx = self.get_idx_dealer(idx_dealer_addr);
        let dealer = self.load_dealer(dealer_idx)?;
        self.dealer_to_vec(&dealer)
    }

    /// The addresses (32 bytes each) of the miners accepted by the dealer
    /// of `dealer_addr`.
    pub fn miners(&self, dealer_addr: Address) -> (r: Result<Vec<u8>, NftError>)
        ensures
            crate::state::view_result(r) == miners_spec(self@, dealer_addr),
    {
        let mut rc: Vec<u8> = Vec::new();
        let dealer_idx = self.get_idx_dealer(self.get_idx_addresses(&dealer_addr));
        if dealer_idx == NOT_FIND {
            assert(rc@ =~= Seq::<u8>::empty());
            return Ok(rc);
        }
        let dealer = self.load_dealer(dealer_idx)?;
        let n = dealer.miners.len();
        let mut i: usize = 0;
        while i < n
            invariant
                n == dealer@.miners.len(),
                i <= n,
                dealer_idx == self@.idx_dealer(self@.idx_address(dealer_addr)),
                dealer_idx != NOT_FIND,
                self@.dealer(dealer_idx) == Some(dealer@),
                addresses_bytes(self@, dealer@.miners.subrange(0, i as int)) == Ok::<Seq<u8>, NftError>(rc@),
            decreases n - i,
        {
            let ghost prefix = dealer@.miners.subrange(0, i + 1);
            assert(prefix.drop_last() =~= dealer@.miners.subrange(0, i as int));
            let a = self.get_addresses(dealer.miners[i]);
            match a {
                Err(e) => {
                    assert(addresses_bytes(self@, prefix) == Err::<Seq<u8>, NftError>(e));
                    assert(addresses_bytes(self@, dealer@.miners) == Err::<Seq<u8>, NftError>(e)) by {
                        lemma_addresses_bytes_err(self@, dealer@.miners, (i + 1) as int);
                    }
                    return Err(e);
                },
                Ok(a) => {
                    a.push_bytes(&mut rc);
                },
            }
            i = i + 1;
        }
        assert(dealer@.miners.subrange(0, n as int) =~= dealer@.miners);
        Ok(rc)
    }
}

/// Once a prefix of the miners fails, the whole list fails with its error.
pub proof fn lemma_addresses_bytes_err(s: NftState, miners: Seq<u64>, k: int)
    requires
        0 <= k <= miners.len(),
        addresses_bytes(s, miners.subrange(0, k)) is Err,
    ensures
        addresses_bytes(s, miners) == addresses_bytes(s, miners.subrange(0, k)),
    decreases miners.len() - k,
{
    if k < miners.len() {
        let next = miners.subrange(0, k + 1);
        assert(next.drop_last() =~= miners.subrange(0, k));
        lemma_addresses_bytes_err(s, miners, k + 1);
    } else {
        assert(miners.subrange(0, k) =~= miners);
    }
}

/// Once a prefix of the dealers fails, the whole list fails with its error.
pub proof fn lemma_dealers_bytes_err(s: NftState, dealers: Seq<DealerModel>, filter: u64, k: int)
    requires
        0 <= k <= dealers.len(),
        dealers_bytes(s, dealers.subrange(0, k), filter) is Err,
    ensures
        dealers_bytes(s, dealers, filter) == dealers_bytes(s, dealers.subrange(0, k), filter),
    decreases dealers.len() - k,
{
    if k < dealers.len() {
        let next = dealers.subrange(0, k + 1);
        assert(next.drop_last() =~= dealers.subrange(0, k));
        lemma_dealers_bytes_err(s, dealers, filter, k + 1);
    } else {
        assert(dealers.subrange(0, k) =~= dealers);
    }
}

/// A listing prefixed by the entries `acc` already produced.
pub open spec fn after(acc: Seq<Seq<u8>>, r: Result<Seq<Seq<u8>>, NftError>) -> Result<Seq<Seq<u8>>, NftError> {
    match r {
        Ok(rest) => Ok(acc + rest),
        Err(e) => Err(e),
    }
}

/// Producing `b` then the rest is producing `b` first.
pub proof fn lemma_after_push(before: Seq<Seq<u8>>, b: Seq<u8>, rest: Result<Seq<Seq<u8>>, NftError>)
    ensures
        after(before.push(b), rest) == after(before, after(seq![b], rest)),
{
    match rest {
        Ok(r) => {
            assert(before.push(b) + r =~= before + (seq![b] + r));
        },
        Err(_) => {},
    }
}

/// Producing nothing changes nothing.
pub proof fn lemma_after_empty(acc: Seq<Seq<u8>>, rest: Result<Seq<Seq<u8>>, NftError>)
    ensures
        after(acc, after(Seq::empty(), rest)) == after(acc, rest),
{
    match rest {
        Ok(r) => {
            assert(Seq::<Seq<u8>>::empty() + r =~= r);
        },
        Err(_) => {},
    }
}

/// Whether token `token` matches one of a list of tokens: constantly
/// false. `_is_in` answers false for a token without `UNIK` and, for the
/// others, has no comparison to make, so it answers false for every token.
pub open spec fn is_in_spec(token: TokenModel) -> bool {
    false
}

impl ENonFungibleTokens {
    /// The bytes of the dealers that accept `filter_miner`, or of all dealers
    /// when `filter_miner` is the zero address.
    pub fn get_dealers(&self, filter_miner: &Address) -> (r: Result<Vec<u8>, NftError>)
        ensures
            crate::state::view_result(r) == dealers_bytes(self@, self@.dealers, self@.idx_address(*filter_miner)),
    {
        let mut rc: Vec<u8> = Vec::new();
        let idx_filter_miner = self.get_idx_addresses(filter_miner);
        let ghost ds = self@.dealers;
        let n = self.dealers_map.len();
        let mut i: usize = 0;
        assert(ds.subrange(0, 0) =~= Seq::<DealerModel>::empty());
        while i < n
            invariant
                n == ds.len(),
                ds == self@.dealers,
                i <= n,
                idx_filter_miner == self@.idx_address(*filter_miner),
                dealers_bytes(self@, ds.subrange(0, i as int), idx_filter_miner) == Ok::<Seq<u8>, NftError>(rc@),
            decreases n - i,
        {
            let ghost prefix = ds.subrange(0, i + 1);
            assert(prefix.drop_last() =~= ds.subrange(0, i as int));
            let dealer = &self.dealers_map[i];
            assert(prefix.last() == dealer@);
            let listed = idx_filter_miner == ZERO_ADDR || crate::dealer::position_u64(&dealer.miners, idx_filter_miner)
                != NOT_FIND;
            if listed {
                match self.dealer_to_vec(dealer) {
                    Err(e) => {
                        assert(dealers_bytes(self@, prefix, idx_filter_miner) == Err::<Seq<u8>, NftError>(e));
                        proof {
                            lemma_dealers_bytes_err(self@, ds, idx_filter_miner, (i + 1) as int);
                        }
                        return Err(e);
                    },
                    Ok(b) => {
                        push_all(&mut rc, b.as_slice());
                    },
                }
            }
            i = i + 1;
        }
        assert(ds.subrange(0, n as int) =~= ds);
        return Ok(rc);
    }

    /// The bytes of every dealer.
    pub fn get_all_dealers(&self) -> (r: Result<Vec<u8>, NftError>)
        ensures
            crate::state::view_result(r) == dealers_bytes(
                self@,
                self@.dealers,
                self@.idx_address(Address::zero_spec()),
            ),
    {
        return self.get_dealers(&Address::zero());
    }

    /// The bytes of the dealer at 1-based position `id`.
    pub fn get_dealer_by_idx(&self, id: u64) -> (r: Result<Vec<u8>, NftError>)
        ensures
            crate::state::view_result(r) == match self@.dealer(id as usize) {
                None => Err(NftError::IndexOutOfRange),
                Some(d) => dealer_bytes(self@, d),
            },
    {
        let dealer = self.load_dealer(id as usize)?;
        return self.dealer_to_vec(&dealer);
    }

    /// Whether `miner_addr` has an entry in the miners' map.
    pub fn is_miner(&self, miner_addr: Address) -> (r: bool)
        ensures
            r == exists|i: int| 0 <= i < self@.ipfs.len() && (#[trigger] self@.ipfs[i]).0 == miner_addr,
    {
        let n = self.ipfs_map.len();
        let mut i: usize = 0;
        while i < n
            invariant
                n == self@.ipfs.len(),
                i <= n,
                forall|j: int| 0 <= j < i ==> (#[trigger] self@.ipfs[j]).0 != miner_addr,
            decreases n - i,
        {
            if self.ipfs_map[i].0 == miner_addr {
                return true;
            }
            i = i + 1;
        }
        return false;
    }

    /// Whether two byte strings are equal.
    pub fn vec_equal(&self, va: &Vec<u8>, vb: &Vec<u8>) -> (r: bool)
        ensures
            r == (va@ == vb@),
    {
        bytes_equal(va.as_slice(), vb.as_slice())
    }

    /// Whether `token` matches one of `_list_tokens`: a token without the
    /// `UNIK` property never does, and the comparison for the others is not
    /// there, so none does.
    pub fn _is_in(&self, token: &Token, _list_tokens: &Vec<Token>) -> (r: bool)
        ensures
            r == is_in_spec(token@),
    {
        if token.properties & UNIK == 0 {
            return false;
        }
        return false;
    }

    /// The bytes that describe `token`, of id `token_id`, sold at `markup`
    /// (highest `max_markup`).
    #[verifier::spinoff_prover]
    #[verifier::rlimit(60)]
    pub fn token_to_vec(&self, token: Token, markup: u16, max_markup: u16, token_id: u64) -> (r: Result<Vec<u8>, NftError>)
        ensures
            crate::state::view_result(r) == token_bytes(self@, token@, markup, max_markup, token_id),
    {
        let ghost t = token@;
        let collection = match self.get_str(token.collection) {
            Ok(v) => v,
            Err(e) => {
                assert(crate::state::view_result(Err::<Vec<u8>, NftError>(e)) == token_bytes(self@, t, markup, max_markup, token_id)) by {
                    reveal(token_bytes);
                }
                return Err(e);
            },
        };
        let len_collection = #[verifier::truncate] (collection.len() as u16);
        let description = match self.get_str(token.description) {
            Ok(v) => v,
            Err(e) => {
                assert(crate::state::view_result(Err::<Vec<u8>, NftError>(e)) == token_bytes(self@, t, markup, max_markup, token_id)) by {
                    reveal(token_bytes);
                }
                return Err(e);
            },
        };
        let len_description = #[verifier::truncate] (description.len() as u16);
        let token_owner_addr = match self.get_addresses(token.owner) {
            Ok(v) => v,
            Err(e) => {
                assert(crate::state::view_result(Err::<Vec<u8>, NftError>(e)) == token_bytes(self@, t, markup, max_markup, token_id)) by {
                    reveal(token_bytes);
                }
                return Err(e);
            },
        };
        let token_miner_addr = match self.get_addresses(token.miner) {
            Ok(v) => v,
            Err(e) => {
                assert(crate::state::view_result(Err::<Vec<u8>, NftError>(e)) == token_bytes(self@, t, markup, max_markup, token_id)) by {
                    reveal(token_bytes);
                }
                return Err(e);
            },
        };
        let token_creator_addr = match self.get_addresses(token.creator) {
            Ok(v) => v,
            Err(e) => {
                assert(crate::state::view_result(Err::<Vec<u8>, NftError>(e)) == token_bytes(self@, t, markup, max_markup, token_id)) by {
                    reveal(token_bytes);
                }
                return Err(e);
            },
        };
        let money = match self.load_money(token.money) {
            Ok(v) => v,
            Err(e) => {
                assert(crate::state::view_result(Err::<Vec<u8>, NftError>(e)) == token_bytes(self@, t, markup, max_markup, token_id)) by {
                    reveal(token_bytes);
                }
                return Err(e);
            },
        };
        let mut item: Vec<u8> = Vec::new();
        push_u16_be(&mut item, len_collection);
        push_u16_be(&mut item, len_description);
        push_usize_be(&mut item, money.len());
        let price = token.price.wrapping_add(100u32.wrapping_mul(markup as u32));
        let has_secret: u8 = if token.secret > 0 || token.gift > 0 { 1u8 } else { 0u8 };
        push_u32_be(&mut item, price);
        push_all(&mut item, money.as_slice());
        token_owner_addr.push_bytes(&mut item);
        item.push(has_secret);
        push_u16_be(&mut item, token.properties);
        item.push(token.status);
        if token.properties & SECRET_VOTE > 0 {
            item.push(0u8);
        } else {
            item.push(token.resp);
        }
        push_u16_be(&mut item, max_markup);
        push_u16_be(&mut item, markup);
        push_u64_be(&mut item, token.deadline);
        push_u16_be(&mut item, token.miner_ratio);
        token_miner_addr.push_bytes(&mut item);
        token_creator_addr.push_bytes(&mut item);
        push_u64_be(&mut item, token_id);
        push_all(&mut item, collection.as_slice());
        push_all(&mut item, description.as_slice());
        let ghost resp: u8 = if token.properties & SECRET_VOTE > 0 { 0 } else { token.resp };
        assert(item@ =~= u16_be(collection@.len() as u16) + u16_be(description@.len() as u16) + usize_be(
            money@.len() as usize,
        ) + u32_be(price) + money@ + token_owner_addr.bytes() + seq![has_secret] + u16_be(token.properties) + seq![
            token.status,
            resp,
        ] + u16_be(max_markup) + u16_be(markup) + u64_be(token.deadline) + u16_be(token.miner_ratio)
            + token_miner_addr.bytes() + token_creator_addr.bytes() + u64_be(token_id) + collection@ + description@);
        assert(token_bytes(self@, t, markup, max_markup, token_id) == Ok::<Seq<u8>, NftError>(item@)) by {
            reveal(token_bytes);
        }
        return Ok(item);
    }

    /// The listing of the tokens `2..end` that pass the filters, fewer than
    /// `limit`.
    fn list_all(&self, owner: u64, miner: u64, now: u64, limit: u64, end: u64) -> (r: Result<Vec<Vec<u8>>, NftError>)
        ensures
            match r {
                Ok(v) => list_from(self@, owner, miner, now, limit, 2, end, 1) == Ok::<Seq<Seq<u8>>, NftError>(listing_view(v)),
                Err(e) => list_from(self@, owner, miner, now, limit, 2, end, 1) == Err::<Seq<Seq<u8>>, NftError>(e),
            },
    {
        let ghost goal = list_from(self@, owner, miner, now, limit, 2, end, 1);
        let mut rc: Vec<Vec<u8>> = Vec::new();
        let mut occ: u64 = 1;
        let mut i: u64 = 2;
        assert(listing_view(rc) =~= Seq::<Seq<u8>>::empty());
        assert(after(Seq::empty(), goal) == goal);
        while i < end && !(limit <= occ)
            invariant
                2 <= i,
                1 <= occ,
                goal == list_from(self@, owner, miner, now, limit, 2, end, 1),
                after(listing_view(rc), list_from(self@, owner, miner, now, limit, i, end, occ)) == goal,
            decreases end - i,
        {
            let token = self.load_token(i)?;
            if (owner == ZERO_ADDR || owner == token.owner) && (miner == ZERO_ADDR || miner == token.miner) {
                if !token.is_burn(now) {
                    let b = self.token_to_vec(token, 0u16, 0u16, i)?;
                    let ghost before = listing_view(rc);
                    rc.push(b);
                    assert(listing_view(rc) =~= before.push(b@));
                    let ghost rest = list_from(self@, owner, miner, now, limit, (i + 1) as u64, end, (occ + 1) as u64);
                    proof {
                        lemma_after_push(before, b@, rest);
                    }
                    occ = occ + 1;
                }
            }
            i = i + 1;
        }
        assert(list_from(self@, owner, miner, now, limit, i, end, occ) == Ok::<Seq<Seq<u8>>, NftError>(Seq::empty()));
        assert(listing_view(rc) + Seq::<Seq<u8>>::empty() =~= listing_view(rc));
        Ok(rc)
    }

    /// The listing of the tokens of `dealer` that are live and pass the
    /// owner and miner filters, with the dealer's markups.
    fn list_of_dealer(&self, dealer: &Dealer, owner: u64, miner: u64, now: u64) -> (r: Result<Vec<Vec<u8>>, NftError>)
        requires
            dealer@.readable(),
        ensures
            match r {
                Ok(v) => list_dealer(self@, dealer@, owner, miner, now, dealer@.tokens) == Ok::<Seq<Seq<u8>>, NftError>(listing_view(v)),
                Err(e) => list_dealer(self@, dealer@, owner, miner, now, dealer@.tokens) == Err::<Seq<Seq<u8>>, NftError>(e),
            },
    {
        let ghost ids = dealer@.tokens;
        let ghost goal = list_dealer(self@, dealer@, owner, miner, now, ids);
        let mut rc: Vec<Vec<u8>> = Vec::new();
        assert(ids.skip(0) =~= ids);
        assert(listing_view(rc) =~= Seq::<Seq<u8>>::empty());
        assert(after(Seq::empty(), goal) == goal);
        let n = dealer.tokens.len();
        let mut i: usize = 0;
        while i < n
            invariant
                n == ids.len(),
                ids == dealer@.tokens,
                dealer@.readable(),
                i <= n,
                goal == list_dealer(self@, dealer@, owner, miner, now, ids),
                after(listing_view(rc), list_dealer(self@, dealer@, owner, miner, now, ids.skip(i as int))) == goal,
            decreases n - i,
        {
            let ghost rest = ids.skip(i as int);
            assert(rest[0] == ids[i as int]);
            assert(rest.drop_first() =~= ids.skip(i + 1));
            let token_id = dealer.tokens[i];
            let token = self.load_token(token_id)?;
            let (markup, max_markup) = dealer.find_markup(token_id);
            let ghost tail = list_dealer(self@, dealer@, owner, miner, now, ids.skip(i + 1));
            if (owner == ZERO_ADDR || owner == token.owner) && (miner == ZERO_ADDR || miner == token.miner)
                && !token.is_burn(now) {
                let b = self.token_to_vec(token, markup, max_markup, token_id)?;
                let ghost before = listing_view(rc);
                rc.push(b);
                assert(listing_view(rc) =~= before.push(b@));
                proof {
                    lemma_after_push(before, b@, tail);
                }
            } else {
                proof {
                    lemma_after_empty(listing_view(rc), tail);
                }
            }
            i = i + 1;
        }
        assert(ids.skip(n as int) =~= Seq::<u64>::empty());
        assert(listing_view(rc) + Seq::<Seq<u8>>::empty() =~= listing_view(rc));
        Ok(rc)
    }

    /// Lists tokens, each as the bytes of `token_to_vec`, after registering
    /// the three filters: the live tokens whose owner is `owner_filter` and
    /// whose miner is `miner_filter` (the zero address for any). With
    /// `dealer_filter` the zero address, the tokens from id 2 on, fewer than
    /// `limit`; otherwise the tokens of the dealer of `dealer_filter`, with
    /// its markups.
    pub fn tokens(
        &mut self,
        ctx: &CallContext,
        dealer_filter: &Address,
        owner_filter: &Address,
        miner_filter: &Address,
        limit: u64,
    ) -> (r: Result<Vec<Vec<u8>>, NftError>)
        requires
            dealer_filter_readable(old(self)@, *dealer_filter, *owner_filter, *miner_filter),
        ensures
            match tokens_spec(old(self)@, *ctx, *dealer_filter, *owner_filter, *miner_filter, limit) {
                Ok((s, l)) => final(self)@ == s && r is Ok && listing_view(r->Ok_0) == l,
                Err(e) => final(self)@ == old(self)@ && r == Err::<Vec<Vec<u8>>, NftError>(e),
            },
            old(self)@.wf() ==> final(self)@.wf(),
    {
        let saved = self.snapshot();
        let idx_miner_filter = self.set_addresses(miner_filter);
        let idx_owner_filter = self.set_addresses(owner_filter);
        let idx_dealer_filter = self.set_addresses(dealer_filter);
        let now = ctx.timestamp;
        let listing = if idx_dealer_filter == ZERO_ADDR {
            let end = self.get_total_minted().wrapping_add(1);
            self.list_all(idx_owner_filter, idx_miner_filter, now, limit, end)
        } else {
            let idx_dealer = self.get_idx_dealer(idx_dealer_filter);
            match self.load_dealer(idx_dealer) {
                Err(e) => Err(e),
                Ok(dealer) => {
                    self.list_of_dealer(&dealer, idx_owner_filter, idx_miner_filter, now)
                },
            }
        };
        match listing {
            Ok(l) => Ok(l),
            Err(e) => {
                *self = saved;
                Err(e)
            },
        }
    }
}

} // verus!
