//! The dealers' side of the contract: who deals, which miners a dealer
//! accepts, and the markups on the tokens it sells.
use vstd::prelude::*;
use crate::address::Address;
use crate::dealer::{lemma_kept_entries, Dealer, DealerModel};
use crate::state::{reaches, settles, CallContext, ENonFungibleTokens, NftError, NftState};
use crate::NOT_FIND;

verus! {

/// Every token of `ids` exists and is owned by the address at position
/// `owner`; the first that is not gives the error.
pub open spec fn all_owned_by(s: NftState, owner: u64, ids: Seq<u64>) -> Result<(), NftError>
    decreases ids.len(),
{
    if ids.len() == 0 {
        Ok(())
    } else {
        match s.token(ids[0]) {
            None => Err(NftError::IndexOutOfRange),
            Some(t) => if t.owner != owner {
                Err(NftError::E21OnlyOwnerAddsDealer)
            } else {
                all_owned_by(s, owner, ids.drop_first())
            },
        }
    }
}

/// Every token of `ids` exists, and `markup` is within the highest markup
/// that dealer `d` holds for it (0 for a token it does not sell); the first
/// that is not gives the error.
pub open spec fn all_markups_in_range(s: NftState, d: DealerModel, ids: Seq<u64>, markup: u16) -> Result<
    (),
    NftError,
>
    decreases ids.len(),
{
    if ids.len() == 0 {
        Ok(())
    } else {
        match s.token(ids[0]) {
            None => Err(NftError::IndexOutOfRange),
            Some(_) => if !(markup <= d.markup_of(ids[0]).1) {
                Err(NftError::E89MarkupOutOfRange)
            } else {
                all_markups_in_range(s, d, ids.drop_first(), markup)
            },
        }
    }
}

/// `add_dealer`: the caller, registered, must own every token of `ids`, and
/// `addr` must have a dealer; that dealer then sells the tokens at
/// `markup` (see `Dealer::set_markup`, with `markup` also the highest markup
/// of tokens it did not sell yet).
pub open spec fn add_dealer_spec(s: NftState, ctx: CallContext, ids: Seq<u64>, addr: Address, markup: u16) -> Result<
    (NftState, ()),
    NftError,
> {
    let (s1, owner) = s.reg_address(ctx.caller);
    let dealer_idx = s1.idx_dealer(s1.idx_address(addr));
    if dealer_idx == NOT_FIND {
        Err(NftError::E33UnknownDealer)
    } else {
        match s1.dealer(dealer_idx) {
            None => Err(NftError::IndexOutOfRange),
            Some(d) => match all_owned_by(s1, owner, ids) {
                Err(e) => Err(e),
                Ok(()) => Ok((with_dealer(s1, dealer_idx, d.after_set_markup(ids, markup, markup).0), ())),
            },
        }
    }
}

/// `price`: the caller's dealer must exist, every token of `ids` must exist,
/// and `markup` must not exceed the highest markup the dealer holds for each
/// of them; the dealer then sells the tokens at `markup` (see
/// `Dealer::set_markup`, with `markup` also the highest markup of tokens it
/// did not sell yet).
pub open spec fn price_spec(s: NftState, ctx: CallContext, ids: Seq<u64>, markup: u16) -> Result<(NftState, ()), NftError> {
    let idx = s.idx_dealer(s.idx_address(ctx.caller));
    match s.dealer(idx) {
        None => Err(NftError::IndexOutOfRange),
        Some(d) => match all_markups_in_range(s, d, ids, markup) {
            Err(e) => Err(e),
            Ok(()) => Ok((with_dealer(s, idx, d.after_set_markup(ids, markup, markup).0), ())),
        },
    }
}

/// `clear_dealer`: the owner of token `token_id` takes it off every dealer,
/// its entries left out of each dealer's token lists.
pub open spec fn clear_dealer_spec(s: NftState, ctx: CallContext, token_id: u64) -> Result<(NftState, ()), NftError> {
    match s.token(token_id) {
        None => Err(NftError::IndexOutOfRange),
        Some(t) => if !(token_id <= s.total_minted()) {
            Err(NftError::E12TokenDoesNotExist)
        } else {
            match s.address(t.owner) {
                None => Err(NftError::IndexOutOfRange),
                Some(o) => if o != ctx.caller {
                    Err(NftError::E23OnlyOwnerRemovesDealer)
                } else {
                    Ok((without_token_everywhere(s, token_id), ()))
                },
            }
        },
    }
}

/// The state with token `token_id` left out of every dealer.
pub open spec fn without_token_everywhere(s: NftState, token_id: u64) -> NftState {
    NftState { dealers: s.dealers.map_values(|d: DealerModel| d.without_token(token_id)), ..s }
}

/// The state with the dealer at 1-based position `i` replaced by `d`.
pub open spec fn with_dealer(s: NftState, i: usize, d: DealerModel) -> NftState {
    NftState { dealers: s.dealers.update(i - 1, d), ..s }
}

/// `add_miner`: the caller's dealer accepts `miner_addr` (registered if
/// needed), added at the end of its miners.
pub open spec fn add_miner_spec(s: NftState, ctx: CallContext, miner_addr: Address) -> Result<(NftState, ()), NftError> {
    let (s1, caller) = s.reg_address(ctx.caller);
    let idx = s1.idx_dealer(caller);
    if idx == NOT_FIND {
        Err(NftError::E55DealerNotListed)
    } else {
        match s1.dealer(idx) {
            None => Err(NftError::IndexOutOfRange),
            Some(d) => {
                let (s2, m) = s1.reg_address(miner_addr);
                Ok((with_dealer(s2, idx, DealerModel { miners: d.miners.push(m), ..d }), ()))
            },
        }
    }
}

/// `miners` without the entries equal to `m`, the others kept in order.
pub open spec fn without(miners: Seq<u64>, m: u64) -> Seq<u64>
    decreases miners.len(),
{
    if miners.len() == 0 {
        Seq::empty()
    } else {
        let rest = without(miners.drop_last(), m);
        if miners.last() != m {
            rest.push(miners.last())
        } else {
            rest
        }
    }
}

/// `del_miner`: the caller's dealer no longer accepts `miner_addr`.
pub open spec fn del_miner_spec(s: NftState, ctx: CallContext, miner_addr: Address) -> Result<(NftState, ()), NftError> {
    let idx = s.idx_dealer(s.idx_address(ctx.caller));
    let m = s.idx_address(miner_addr);
    match s.dealer(idx) {
        None => Err(NftError::IndexOutOfRange),
        Some(d) => Ok((with_dealer(s, idx, DealerModel { miners: without(d.miners, m), ..d }), ())),
    }
}

/// `dealer_state`: the caller's dealer gets state `state`.
pub open spec fn dealer_state_spec(s: NftState, ctx: CallContext, state: u8) -> Result<(NftState, ()), NftError> {
    let idx = s.idx_dealer(s.idx_address(ctx.caller));
    if idx == NOT_FIND {
        Err(NftError::DealerNotListed)
    } else {
        match s.dealer(idx) {
            None => Err(NftError::IndexOutOfRange),
            Some(d) => Ok((with_dealer(s, idx, DealerModel { state, ..d }), ())),
        }
    }
}

/// `new_dealer`: registers the caller and, when it has no dealer yet, adds
/// one (state 0, accepting the caller as miner). Gives the number of
/// dealers.
pub open spec fn new_dealer_spec(s: NftState, ctx: CallContext) -> (NftState, u64) {
    let (s1, addr) = s.reg_address(ctx.caller);
    let s2 = if s1.idx_dealer(addr) == NOT_FIND {
        NftState {
            dealers: s1.dealers.push(
                DealerModel {
                    state: 0,
                    addr,
                    miners: seq![addr],
                    markups: Seq::empty(),
                    max_markups: Seq::empty(),
                    tokens: Seq::empty(),
                },
            ),
            ..s1
        }
    } else {
        s1
    };
    (s2, s2.dealers.len() as u64)
}

impl ENonFungibleTokens {
    /// The caller, who must own each of `token_ids`, lists them with the
    /// dealer of `addr` at markup `markup`; `markup` is also the highest
    /// markup of a token the dealer did not sell yet (see
    /// `Dealer::set_markup`).
    pub fn add_dealer(&mut self, ctx: &CallContext, token_ids: Vec<u64>, addr: &Address, markup: u16) -> (r: Result<
        (),
        NftError,
    >)
        requires
            old(self)@.wf(),
        ensures
            settles(old(self)@, final(self)@, r, add_dealer_spec(old(self)@, *ctx, token_ids@, *addr, markup)),
            old(self)@.wf() ==> final(self)@.wf(),
    {
        let saved = self.snapshot();
        let r = self.add_dealer_steps(ctx, &token_ids, addr, markup);
        if r.is_err() {
            *self = saved;
        }
        r
    }

    /// The steps of `add_dealer`, leaving partial changes on failure.
    fn add_dealer_steps(&mut self, ctx: &CallContext, token_ids: &Vec<u64>, addr: &Address, markup: u16) -> (r: Result<
        (),
        NftError,
    >)
        requires
            old(self)@.wf(),
        ensures
            reaches(final(self)@, r, add_dealer_spec(old(self)@, *ctx, token_ids@, *addr, markup)),
            r is Ok ==> final(self)@.wf(),
    {
        let owner_idx_addr = self.set_addresses(&ctx.caller);
        let dealer_idx = self.get_idx_dealer(self.get_idx_addresses(addr));
        if !(dealer_idx != NOT_FIND) {
            return Err(NftError::E33UnknownDealer);
        }
        let mut dealer = self.load_dealer(dealer_idx)?;
        proof {
            assert(self@.dealers[dealer_idx - 1].wf());
        }
        self.check_owned(owner_idx_addr, token_ids)?;
        let ids = crate::token::copy_ids(token_ids);
        dealer.set_markup(ids, markup, markup);
        let stored = self.store_dealer(dealer_idx, dealer);
        assert(stored is Ok);
        return Ok(());
    }

    /// Checks that every token of `ids` exists and is owned by the address
    /// at position `owner`.
    fn check_owned(&self, owner: u64, ids: &Vec<u64>) -> (r: Result<(), NftError>)
        ensures
            r == all_owned_by(self@, owner, ids@),
    {
        let ghost goal = all_owned_by(self@, owner, ids@);
        assert(ids@.skip(0) =~= ids@);
        let n = ids.len();
        let mut i: usize = 0;
        while i < n
            invariant
                n == ids@.len(),
                i <= n,
                goal == all_owned_by(self@, owner, ids@),
                all_owned_by(self@, owner, ids@.skip(i as int)) == goal,
            decreases n - i,
        {
            let ghost rest = ids@.skip(i as int);
            assert(rest[0] == ids@[i as int]);
            assert(rest.drop_first() =~= ids@.skip(i + 1));
            let loaded = self.load_token(ids[i]);
            match loaded {
                Err(e) => {
                    return Err(e);
                },
                Ok(token) => {
                    if !(token.owner == owner) {
                        return Err(NftError::E21OnlyOwnerAddsDealer);
                    }
                },
            }
            i = i + 1;
        }
        assert(ids@.skip(n as int) =~= Seq::<u64>::empty());
        Ok(())
    }

    /// Checks that every token of `ids` exists and that `markup` is within
    /// the highest markup `dealer` holds for it.
    fn check_markups(&self, dealer: &Dealer, ids: &Vec<u64>, markup: u16) -> (r: Result<(), NftError>)
        requires
            dealer@.readable(),
        ensures
            r == all_markups_in_range(self@, dealer@, ids@, markup),
    {
        let ghost goal = all_markups_in_range(self@, dealer@, ids@, markup);
        assert(ids@.skip(0) =~= ids@);
        let n = ids.len();
        let mut i: usize = 0;
        while i < n
            invariant
                n == ids@.len(),
                i <= n,
                dealer@.readable(),
                goal == all_markups_in_range(self@, dealer@, ids@, markup),
                all_markups_in_range(self@, dealer@, ids@.skip(i as int), markup) == goal,
            decreases n - i,
        {
            let ghost rest = ids@.skip(i as int);
            assert(rest[0] == ids@[i as int]);
            assert(rest.drop_first() =~= ids@.skip(i + 1));
            let token_id = ids[i];
            let loaded = self.load_token(token_id);
            match loaded {
                Err(e) => {
                    return Err(e);
                },
                Ok(_token) => {
                    let (_current, max_markup) = dealer.find_markup(token_id);
                    if !(markup <= max_markup) {
                        return Err(NftError::E89MarkupOutOfRange);
                    }
                },
            }
            i = i + 1;
        }
        assert(ids@.skip(n as int) =~= Seq::<u64>::empty());
        Ok(())
    }

    /// The caller's dealer sets markup `markup` on `token_ids`; each token
    /// must exist and `markup` must not exceed the highest markup the dealer
    /// holds for it. `markup` is also the highest markup of a token the
    /// dealer did not sell yet (see `Dealer::set_markup`).
    pub fn price(&mut self, ctx: &CallContext, token_ids: Vec<u64>, markup: u16) -> (r: Result<(), NftError>)
        requires
            old(self)@.wf(),
        ensures
            settles(old(self)@, final(self)@, r, price_spec(old(self)@, *ctx, token_ids@, markup)),
            old(self)@.wf() ==> final(self)@.wf(),
    {
        let dealer_idx = self.get_idx_dealer(self.get_idx_addresses(&ctx.caller));
        let mut dealer = self.load_dealer(dealer_idx)?;
        proof {
            assert(self@.dealers[dealer_idx - 1].wf());
        }
        self.check_markups(&dealer, &token_ids, markup)?;
        let ids = crate::token::copy_ids(&token_ids);
        dealer.set_markup(ids, markup, markup);
        let stored = self.store_dealer(dealer_idx, dealer);
        assert(stored is Ok);
        return Ok(());
    }

    /// The owner of token `token_id` takes it off every dealer.
    pub fn clear_dealer(&mut self, ctx: &CallContext, token_id: u64) -> (r: Result<(), NftError>)
        requires
            old(self)@.wf(),
        ensures
            settles(old(self)@, final(self)@, r, clear_dealer_spec(old(self)@, *ctx, token_id)),
            final(self)@.wf(),
    {
        let token = self.load_token(token_id)?;
        let caller = ctx.caller;
        if !(token_id <= self.get_total_minted()) {
            return Err(NftError::E12TokenDoesNotExist);
        }
        if !(self.get_addresses(token.owner)? == caller) {
            return Err(NftError::E23OnlyOwnerRemovesDealer);
        }
        let ghost s0 = self@;
        let n = self.dealers_map.len();
        let mut j: usize = 0;
        while j < n
            invariant
                n == s0.dealers.len(),
                j <= n,
                s0.wf(),
                self@ == (NftState { dealers: self@.dealers, ..s0 }),
                self@.dealers.len() == n,
                forall|k: int| 0 <= k < j ==> #[trigger] self@.dealers[k] == s0.dealers[k].without_token(token_id),
                forall|k: int| j <= k < n ==> #[trigger] self@.dealers[k] == s0.dealers[k],
            decreases n - j,
        {
            assert(s0.dealers[j as int].wf());
            assert(self.dealers_map@[j as int]@ == self@.dealers[j as int]);
            let cleared = self.dealers_map[j].without_token(token_id);
            let ghost before = self@.dealers;
            self.dealers_map.set(j, cleared);
            assert(self@.dealers =~= before.update(j as int, s0.dealers[j as int].without_token(token_id)));
            assert(self@ =~= (NftState { dealers: self@.dealers, ..s0 }));
            j = j + 1;
        }
        assert(self@.dealers =~= without_token_everywhere(s0, token_id).dealers);
        assert forall|k: int| 0 <= k < self@.dealers.len() implies (#[trigger] self@.dealers[k]).wf() by {
            lemma_kept_entries(s0.dealers[k], token_id, s0.dealers[k].tokens.len());
        }
        return Ok(());
    }

    /// The caller's dealer accepts `miner_addr`.
    pub fn add_miner(&mut self, ctx: &CallContext, miner_addr: &Address) -> (r: Result<(), NftError>)
        ensures
            settles(old(self)@, final(self)@, r, add_miner_spec(old(self)@, *ctx, *miner_addr)),
            old(self)@.wf() ==> final(self)@.wf(),
    {
        let saved = self.snapshot();
        let r = self.add_miner_steps(ctx, miner_addr);
        if r.is_err() {
            *self = saved;
        }
        r
    }

    /// The steps of `add_miner`, leaving partial changes on failure.
    fn add_miner_steps(&mut self, ctx: &CallContext, miner_addr: &Address) -> (r: Result<(), NftError>)
        ensures
            reaches(final(self)@, r, add_miner_spec(old(self)@, *ctx, *miner_addr)),
            r is Ok && old(self)@.wf() ==> final(self)@.wf(),
    {
        let caller = self.set_addresses(&ctx.caller);
        let idx_dealer = self.get_idx_dealer(caller);
        if !(idx_dealer != NOT_FIND) {
            return Err(NftError::E55DealerNotListed);
        }
        let mut dealer = self.load_dealer(idx_dealer)?;
        let m = self.set_addresses(miner_addr);
        dealer.miners.push(m);
        let stored = self.store_dealer(idx_dealer, dealer);
        assert(stored is Ok);
        return Ok(());
    }

    /// The caller's dealer no longer accepts `miner_addr`.
    pub fn del_miner(&mut self, ctx: &CallContext, miner_addr: &Address) -> (r: Result<(), NftError>)
        ensures
            settles(old(self)@, final(self)@, r, del_miner_spec(old(self)@, *ctx, *miner_addr)),
            old(self)@.wf() ==> final(self)@.wf(),
    {
        let idx_dealer = self.get_idx_dealer(self.get_idx_addresses(&ctx.caller));
        let idx_miner_addr = self.get_idx_addresses(miner_addr);
        let mut dealer = self.load_dealer(idx_dealer)?;
        let ghost d0 = dealer@;
        let mut kept: Vec<u64> = Vec::new();
        let n = dealer.miners.len();
        let mut i: usize = 0;
        while i < n
            invariant
                n == d0.miners.len(),
                dealer@ == d0,
                i <= n,
                kept@ == without(d0.miners.subrange(0, i as int), idx_miner_addr),
            decreases n - i,
        {
            let ghost prefix = d0.miners.subrange(0, i + 1);
            assert(prefix.drop_last() =~= d0.miners.subrange(0, i as int));
            let addr = dealer.miners[i];
            if addr != idx_miner_addr {
                kept.push(addr);
            }
            i = i + 1;
        }
        assert(d0.miners.subrange(0, n as int) =~= d0.miners);
        dealer.miners = kept;
        let stored = self.store_dealer(idx_dealer, dealer);
        assert(stored is Ok);
        return Ok(());
    }

    /// The caller's dealer gets state `state`.
    pub fn dealer_state(&mut self, ctx: &CallContext, state: u8) -> (r: Result<(), NftError>)
        ensures
            settles(old(self)@, final(self)@, r, dealer_state_spec(old(self)@, *ctx, state)),
            old(self)@.wf() ==> final(self)@.wf(),
    {
        let addr = self.get_idx_addresses(&ctx.caller);
        let idx = self.get_idx_dealer(addr);
        if !(idx != NOT_FIND) {
            return Err(NftError::DealerNotListed);
        }
        let mut dealer = self.load_dealer(idx)?;
        dealer.state = state;
        let stored = self.store_dealer(idx, dealer);
        assert(stored is Ok);
        return Ok(());
    }

    /// Registers the caller and, when it has no dealer yet, adds one (state
    /// 0, accepting the caller as miner); returns the number of dealers.
    pub fn new_dealer(&mut self, ctx: &CallContext) -> (r: Result<u64, NftError>)
        ensures
            r == Ok::<u64, NftError>(new_dealer_spec(old(self)@, *ctx).1),
            final(self)@ == new_dealer_spec(old(self)@, *ctx).0,
            old(self)@.wf() ==> final(self)@.wf(),
    {
        let addr = self.set_addresses(&ctx.caller);
        let dealer_idx = self.get_idx_dealer(addr);
        if dealer_idx == NOT_FIND {
            let mut new_dealer = Dealer {
                state: 0,
                addr: addr,
                miners: Vec::new(),
                markups: Vec::new(),
                max_markups: Vec::new(),
                tokens: Vec::new(),
            };
            new_dealer.miners.push(addr);
            self.dealers_map.push(new_dealer);
            assert(self@.dealers =~= new_dealer_spec(old(self)@, *ctx).0.dealers);
        }
        return Ok(self.dealers_map.len() as u64);
    }
}

} // verus!
