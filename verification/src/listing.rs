//! What the listings hold: the tokens that pass the filters of `tokens`, in
//! order, each as its bytes; a dealer's bytes; the miners a dealer accepts;
//! the dealers that accept a miner.
use vstd::prelude::*;
use crate::address::Address;
use crate::dealer::DealerModel;
use crate::state::{CallContext, NftState};
use crate::views::{addresses_bytes, dealer_bytes, dealers_bytes, list_dealer, list_from, miners_spec, token_bytes, tokens_spec};
use crate::NOT_FIND;
use crate::ZERO_ADDR;

verus! {

/// Whether token `id` is shown with the owner filter `owner` and the miner
/// filter `miner` (positions in the address registry; the zero address's
/// lets any through) at time `now`: it passes both filters and is live.
pub open spec fn shown(s: NftState, owner: u64, miner: u64, now: u64) -> spec_fn(u64) -> bool {
    |id: u64|
        {
            let t = s.token(id)->0;
            (owner == ZERO_ADDR || owner == t.owner) && (miner == ZERO_ADDR || miner == t.miner) && !t.burnt_at(
                now,
            )
        }
}

/// The bytes of token `id` sold at the markups that dealer `d` holds for it.
pub open spec fn dealer_entry(s: NftState, d: DealerModel) -> spec_fn(u64) -> Seq<u8> {
    |id: u64| token_bytes(s, s.token(id)->0, d.markup_of(id).0, d.markup_of(id).1, id)->Ok_0
}

/// The bytes of token `id` without markups.
pub open spec fn plain_entry(s: NftState) -> spec_fn(u64) -> Seq<u8> {
    |id: u64| token_bytes(s, s.token(id)->0, 0, 0, id)->Ok_0
}

/// The ids `a`, `a + 1`, ... below `b`.
pub open spec fn ids_between(a: u64, b: u64) -> Seq<u64> {
    Seq::new(if a <= b { (b - a) as nat } else { 0 }, |i: int| (a + i) as u64)
}

/// The first `n` elements of `x` (all of them when it has fewer, none for
/// `n <= 0`).
pub open spec fn at_most<A>(x: Seq<A>, n: int) -> Seq<A> {
    if n <= 0 {
        Seq::empty()
    } else if x.len() <= n {
        x
    } else {
        x.subrange(0, n)
    }
}

/// A dealer's listing is its tokens that are shown, in its order, each with
/// the dealer's markups.
pub proof fn lemma_list_dealer_shown(s: NftState, d: DealerModel, owner: u64, miner: u64, now: u64, ids: Seq<u64>)
    ensures
        list_dealer(s, d, owner, miner, now, ids) matches Ok(l) ==> l == ids.filter(
            shown(s, owner, miner, now),
        ).map_values(dealer_entry(s, d)),
    decreases ids.len(),
{
    if ids.len() > 0 {
        let p = shown(s, owner, miner, now);
        let f = dealer_entry(s, d);
        let rest = ids.drop_first();
        lemma_list_dealer_shown(s, d, owner, miner, now, rest);
        assert(ids =~= seq![ids[0]] + rest);
        rest.lemma_filter_prepend(ids[0], p);
        let head: Seq<u64> = if p(ids[0]) { seq![ids[0]] } else { Seq::empty() };
        assert((head + rest.filter(p)).map_values(f) =~= head.map_values(f) + rest.filter(p).map_values(f));
        reveal(token_bytes);
    } else {
        reveal(Seq::filter);
        assert(ids.filter(shown(s, owner, miner, now)).map_values(dealer_entry(s, d)) =~= Seq::<Seq<u8>>::empty());
    }
}

/// The listing of ids `id..end` after `occ - 1` tokens were listed is the
/// first `limit - occ` of the shown tokens among them, each without
/// markups.
pub proof fn lemma_list_from_shown(
    s: NftState,
    owner: u64,
    miner: u64,
    now: u64,
    limit: u64,
    id: u64,
    end: u64,
    occ: u64,
)
    ensures
        list_from(s, owner, miner, now, limit, id, end, occ) matches Ok(l) ==> l == at_most(
            ids_between(id, end).filter(shown(s, owner, miner, now)).map_values(plain_entry(s)),
            limit - occ,
        ),
    decreases end - id,
{
    let p = shown(s, owner, miner, now);
    let f = plain_entry(s);
    let range = ids_between(id, end);
    if !(id < end) || limit <= occ {
        if !(id < end) {
            reveal(Seq::filter);
            assert(range.filter(p).map_values(f) =~= Seq::<Seq<u8>>::empty());
        }
    } else {
        let rest = ids_between((id + 1) as u64, end);
        assert(range =~= seq![id] + rest);
        rest.lemma_filter_prepend(id, p);
        let head: Seq<u64> = if p(id) { seq![id] } else { Seq::empty() };
        let tail = rest.filter(p).map_values(f);
        assert(range.filter(p).map_values(f) =~= head.map_values(f) + tail);
        reveal(token_bytes);
        if p(id) {
            lemma_list_from_shown(s, owner, miner, now, limit, (id + 1) as u64, end, (occ + 1) as u64);
            let n = limit - occ;
            let whole = head.map_values(f) + tail;
            if let Ok(l) = list_from(s, owner, miner, now, limit, id, end, occ) {
                assert(l =~= at_most(whole, n));
            }
        } else {
            lemma_list_from_shown(s, owner, miner, now, limit, (id + 1) as u64, end, occ);
            assert(head.map_values(f) + tail =~= tail);
        }
    }
}

/// `tokens` lists, in order, each as its bytes, the tokens that pass the
/// owner and miner filters (positions of the registered filters; the zero
/// address lets any through) and are live. Without a dealer filter: among
/// the tokens from id 2 on, the first `limit - 1` such tokens (none for a
/// `limit` of 0), without markups. With one: among the tokens of that
/// dealer, in the dealer's order, all such tokens, with the dealer's
/// markups. (Stated where the token ids fit below the top of `u64`.)
pub proof fn law_tokens_lists_shown(
    s: NftState,
    ctx: CallContext,
    dealer_filter: Address,
    owner_filter: Address,
    miner_filter: Address,
    limit: u64,
)
    requires
        s.tokens.len() < u64::MAX,
    ensures
        tokens_spec(s, ctx, dealer_filter, owner_filter, miner_filter, limit) matches Ok((s3, l)) ==> {
            let (s1, miner) = s.reg_address(miner_filter);
            let (s2, owner) = s1.reg_address(owner_filter);
            let dealer = s2.reg_address(dealer_filter).1;
            let p = shown(s3, owner, miner, ctx.timestamp);
            &&& dealer == ZERO_ADDR ==> l == at_most(
                ids_between(2, (s.tokens.len() + 1) as u64).filter(p).map_values(plain_entry(s3)),
                limit - 1,
            )
            &&& dealer != ZERO_ADDR ==> {
                let d = s3.dealer(s3.idx_dealer(dealer))->0;
                l == d.tokens.filter(p).map_values(dealer_entry(s3, d))
            }
        },
{
    let (s1, miner) = s.reg_address(miner_filter);
    let (s2, owner) = s1.reg_address(owner_filter);
    let (s3, dealer) = s2.reg_address(dealer_filter);
    assert(s3.tokens == s.tokens);
    lemma_list_from_shown(s3, owner, miner, ctx.timestamp, limit, 2, s3.total_minted().wrapping_add(1), 1);
    if let Some(d) = s3.dealer(s3.idx_dealer(dealer)) {
        lemma_list_dealer_shown(s3, d, owner, miner, ctx.timestamp, d.tokens);
    }
}

/// A dealer's bytes are 33: the 32 bytes of its address, then its state.
pub proof fn law_dealer_bytes(s: NftState, d: DealerModel)
    ensures
        dealer_bytes(s, d) matches Ok(b) ==> {
            &&& b.len() == 33
            &&& b.subrange(0, 32) == s.address(d.addr)->0.bytes()
            &&& b[32] == d.state
        },
{
    if let Ok(b) = dealer_bytes(s, d) {
        assert(b.subrange(0, 32) =~= s.address(d.addr)->0.bytes());
    }
}

/// The bytes of an address.
pub open spec fn address_entry(s: NftState) -> spec_fn(u64) -> Seq<u8> {
    |i: u64| s.address(i)->0.bytes()
}

/// The bytes of the addresses at positions `miners` are their 32 bytes
/// each, in order.
pub proof fn lemma_addresses_bytes(s: NftState, miners: Seq<u64>)
    ensures
        addresses_bytes(s, miners) matches Ok(b) ==> b == miners.map_values(address_entry(s)).flatten(),
    decreases miners.len(),
{
    if miners.len() > 0 {
        lemma_addresses_bytes(s, miners.drop_last());
        let f = address_entry(s);
        assert(miners.map_values(f) =~= miners.drop_last().map_values(f).push(f(miners.last())));
        miners.drop_last().map_values(f).lemma_flatten_push(f(miners.last()));
    } else {
        assert(miners.map_values(address_entry(s)) =~= Seq::<Seq<u8>>::empty());
    }
}

/// `miners` gives, for the dealer of `dealer_addr`, the 32 bytes of each
/// miner it accepts, in order; nothing when that address has no dealer.
pub proof fn law_miners_listed(s: NftState, dealer_addr: Address)
    ensures
        miners_spec(s, dealer_addr) matches Ok(b) ==> {
            let idx = s.idx_dealer(s.idx_address(dealer_addr));
            &&& idx == NOT_FIND ==> b.len() == 0
            &&& idx != NOT_FIND ==> b == s.dealer(idx)->0.miners.map_values(address_entry(s)).flatten()
        },
{
    let idx = s.idx_dealer(s.idx_address(dealer_addr));
    if let Some(d) = s.dealer(idx) {
        lemma_addresses_bytes(s, d.miners);
    }
}

/// Whether a dealer accepts the miner at position `filter` (every dealer
/// does for the zero address's position).
pub open spec fn accepts(filter: u64) -> spec_fn(DealerModel) -> bool {
    |d: DealerModel| filter == ZERO_ADDR || d.miners.contains(filter)
}

/// The bytes of the dealers are those of the dealers that accept the
/// filter's miner, in order, 33 bytes each.
pub proof fn law_dealers_listed(s: NftState, dealers: Seq<DealerModel>, filter: u64)
    ensures
        dealers_bytes(s, dealers, filter) matches Ok(b) ==> b == dealers.filter(accepts(filter)).map_values(
            |d: DealerModel| dealer_bytes(s, d)->Ok_0,
        ).flatten(),
    decreases dealers.len(),
{
    let f = |d: DealerModel| dealer_bytes(s, d)->Ok_0;
    let p = accepts(filter);
    reveal(Seq::filter);
    if dealers.len() > 0 {
        law_dealers_listed(s, dealers.drop_last(), filter);
        let before = dealers.drop_last().filter(p).map_values(f);
        if p(dealers.last()) {
            assert(dealers.filter(p) == dealers.drop_last().filter(p).push(dealers.last()));
            assert(dealers.filter(p).map_values(f) =~= before.push(f(dealers.last())));
            before.lemma_flatten_push(f(dealers.last()));
        } else {
            assert(dealers.filter(p) == dealers.drop_last().filter(p));
        }
    } else {
        assert(dealers.filter(p).map_values(f) =~= Seq::<Seq<u8>>::empty());
    }
}

} // verus!
