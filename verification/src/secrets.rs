//! What an owner learns from a token: its secret on opening, and the answer
//! it gives to a vote.
use vstd::prelude::*;
use crate::address::Address;
use crate::ownership::{perform_burn_spec, send_money_spec};
use crate::state::{reaches, settles, CallContext, ENonFungibleTokens, NftError, NftState, PayReason};
use crate::token::TokenModel;
use crate::bytes::bytes_equal;
use crate::words::{lost, lost_word, won, won_word};
use crate::{FIND_SECRET, RENT, SELF_DESTRUCTION};

verus! {

/// `answer`: the owner of a live token records `response`; a gift the token
/// carries is paid to the owner and cleared.
pub open spec fn answer_spec(s: NftState, ctx: CallContext, token_id: u64, response: u8) -> Result<
    (NftState, ()),
    NftError,
> {
    if !(token_id <= s.total_minted()) {
        Err(NftError::E12TokenDoesNotExist)
    } else {
        match s.token(token_id) {
            None => Err(NftError::IndexOutOfRange),
            Some(t) => if t.burnt_at(ctx.timestamp) {
                Err(NftError::E68TokenBurnt)
            } else {
                match s.address(t.owner) {
                    None => Err(NftError::IndexOutOfRange),
                    Some(o) => if ctx.caller != o {
                        Err(NftError::E10OnlyOwner)
                    } else {
                        let paid = if t.gift > 0 {
                            match send_money_spec(s, t.money, o, t.gift as u128, PayReason::PayForGift) {
                                Err(e) => Err(e),
                                Ok((s1, _)) => Ok((s1, TokenModel { gift: 0, ..t })),
                            }
                        } else {
                            Ok((s, t))
                        };
                        match paid {
                            Err(e) => Err(e),
                            Ok((s1, t1)) => Ok(
                                (s1.with_token(token_id, TokenModel { resp: response, ..t1 }), ()),
                            ),
                        }
                    },
                }
            },
        }
    }
}

/// The gift step of `open`: a token with a gift pays it to its owner
/// (`owner`) unless the secret must be found and `found` is false; the token
/// is stored without its gift, and an empty secret reads "Gagné". Without a
/// gift, an empty secret reads "Perdu". Gives the storage, the token and
/// the secret.
pub open spec fn open_payout(
    s: NftState,
    token_id: u64,
    t: TokenModel,
    owner: Address,
    secret: Seq<u8>,
    found: bool,
) -> Result<(NftState, TokenModel, Seq<u8>), NftError> {
    if t.gift > 0 {
        if t.properties & FIND_SECRET == 0 || found {
            match send_money_spec(s, t.money, owner, t.gift as u128, PayReason::PayForGift) {
                Err(e) => Err(e),
                Ok((s1, _)) => {
                    let t1 = TokenModel { gift: 0, ..t };
                    Ok(
                        (
                            s1.with_token(token_id, t1),
                            t1,
                            if secret.len() == 0 {
                                won_word()
                            } else {
                                secret
                            },
                        ),
                    )
                },
            }
        } else {
            Ok((s, t, secret))
        }
    } else {
        Ok(
            (
                s,
                t,
                if secret.len() == 0 {
                    lost_word()
                } else {
                    secret
                },
            ),
        )
    }
}

/// The last step of `open`: a self-destroying token is burnt; a rented one
/// goes back to its miner, who becomes its owner again.
pub open spec fn open_finish(s: NftState, token_id: u64, t: TokenModel) -> Result<
    (NftState, ()),
    NftError,
> {
    if t.properties & SELF_DESTRUCTION > 0 {
        match perform_burn_spec(s, token_id, t) {
            Err(e) => Err(e),
            Ok((s1, _)) => Ok((s1, ())),
        }
    } else if t.properties & RENT > 0 {
        Ok((s.with_token(token_id, TokenModel { owner: t.miner, ..t }), ()))
    } else {
        Ok((s, ()))
    }
}

/// `open`: the owner of a live token that holds a secret or a gift gets the
/// secret. When the secret must be found, the result is "Gagné" if
/// `response` equals it and "Perdu" otherwise.
pub open spec fn open_spec(s: NftState, ctx: CallContext, token_id: u64, response: Seq<u8>) -> Result<
    (NftState, Seq<u8>),
    NftError,
> {
    if !(token_id <= s.total_minted()) {
        Err(NftError::E12TokenDoesNotExist)
    } else {
        match s.token(token_id) {
            None => Err(NftError::IndexOutOfRange),
            Some(t) => if t.burnt_at(ctx.timestamp) {
                Err(NftError::E23TokenBurnt)
            } else {
                match s.address(t.owner) {
                    None => Err(NftError::IndexOutOfRange),
                    Some(o) => if ctx.caller != o {
                        Err(NftError::E10OnlyOwner)
                    } else {
                        match s.string(t.secret) {
                            None => Err(NftError::IndexOutOfRange),
                            Some(secret) => if !(secret.len() > 0 || t.gift > 0) {
                                Err(NftError::E11NoSecret)
                            } else {
                                let found = secret == response;
                                match open_payout(s, token_id, t, o, secret, found) {
                                    Err(e) => Err(e),
                                    Ok((s1, t1, secret1)) => {
                                        let revealed = if t.properties & FIND_SECRET > 0 {
                                            if found {
                                                won_word()
                                            } else {
                                                lost_word()
                                            }
                                        } else {
                                            secret1
                                        };
                                        match open_finish(s1, token_id, t1) {
                                            Err(e) => Err(e),
                                            Ok((s2, _)) => Ok((s2, revealed)),
                                        }
                                    },
                                }
                            },
                        }
                    },
                }
            },
        }
    }
}

/// `get_votes`: ten counters, one per answer, meant to count the answers on
/// the tokens of `filter_miner`. The count starts at token 0, which no list
/// has, so the call fails as soon as any token exists.
pub open spec fn votes_spec(s: NftState) -> Result<Seq<u8>, NftError> {
    if s.total_minted() == 0 {
        Ok(Seq::new(10, |i: int| 0u8))
    } else {
        Err(NftError::IndexOutOfRange)
    }
}

impl ENonFungibleTokens {
    /// The owner of live token `token_id` records `response`; a gift the
    /// token carries is paid to the owner.
    pub fn answer(&mut self, ctx: &CallContext, token_id: u64, response: u8) -> (r: Result<(), NftError>)
        ensures
            settles(old(self)@, final(self)@, r, answer_spec(old(self)@, *ctx, token_id, response)),
            old(self)@.wf() ==> final(self)@.wf(),
    {
        if !(token_id <= self.get_total_minted()) {
            return Err(NftError::E12TokenDoesNotExist);
        }
        let mut token = self.load_token(token_id)?;
        if token.is_burn(ctx.timestamp) {
            return Err(NftError::E68TokenBurnt);
        }
        let owner_addr = self.get_addresses(token.owner)?;
        if !(ctx.caller == owner_addr) {
            return Err(NftError::E10OnlyOwner);
        }
        if token.gift > 0 {
            self.send_money(token.money, &owner_addr, token.gift as u128, PayReason::PayForGift)?;
            token.gift = 0;
        }
        token.resp = response;
        let stored = self.store_token(token_id, token);
        assert(stored is Ok);
        return Ok(());
    }

    /// Returns the secret of live token `token_id` to its owner. A gift is
    /// paid to the owner unless the secret must be found and `response`
    /// differs from it. When the secret must be found, the result is "Gagné"
    /// or "Perdu". A self-destroying token is then burnt; a rented token goes
    /// back to its miner.
    pub fn open(&mut self, ctx: &CallContext, token_id: u64, response: &Vec<u8>) -> (r: Result<Vec<u8>, NftError>)
        ensures
            settles(
                old(self)@,
                final(self)@,
                crate::state::view_result(r),
                open_spec(old(self)@, *ctx, token_id, response@),
            ),
            old(self)@.wf() ==> final(self)@.wf(),
    {
        let saved = self.snapshot();
        let r = self.open_steps(ctx, token_id, response);
        if r.is_err() {
            *self = saved;
        }
        r
    }

    /// The steps of `open`, leaving partial changes on failure.
    fn open_steps(&mut self, ctx: &CallContext, token_id: u64, response: &Vec<u8>) -> (r: Result<Vec<u8>, NftError>)
        ensures
            reaches(final(self)@, crate::state::view_result(r), open_spec(old(self)@, *ctx, token_id, response@)),
    {
        if !(token_id <= self.get_total_minted()) {
            return Err(NftError::E12TokenDoesNotExist);
        }
        let mut token = self.load_token(token_id)?;
        if token.is_burn(ctx.timestamp) {
            return Err(NftError::E23TokenBurnt);
        }
        let caller = ctx.caller;
        let owner_addr = self.get_addresses(token.owner)?;
        if !(caller == owner_addr) {
            return Err(NftError::E10OnlyOwner);
        }
        let mut secret = self.get_str(token.secret)?;
        if !(secret.len() > 0 || token.gift > 0) {
            return Err(NftError::E11NoSecret);
        }
        let eq = bytes_equal(secret.as_slice(), response.as_slice());
        if token.gift > 0 {
            if token.properties & FIND_SECRET == 0 || eq {
                let owner_again = self.get_addresses(token.owner)?;
                self.send_money(token.money, &owner_again, token.gift as u128, PayReason::PayForGift)?;
                token.gift = 0;
                let stored = self.store_token(token_id, token.copy());
                assert(stored is Ok);
                if secret.len() == 0 {
                    secret = won();
                }
            }
        } else {
            if secret.len() == 0 {
                secret = lost();
            }
        }
        if token.properties & FIND_SECRET > 0 {
            if eq {
                secret = won();
            } else {
                secret = lost();
            }
        }
        if token.properties & SELF_DESTRUCTION > 0 {
            self.perform_burn(token_id, &mut token)?;
        } else {
            if token.properties & RENT > 0 {
                token.owner = token.miner;
                let stored = self.store_token(token_id, token.copy());
                assert(stored is Ok);
            }
        }
        return Ok(secret);
    }

    /// Ten counters, one per answer, meant to count the answers on the tokens
    /// whose miner is `filter_miner`; the count reads token 0 first, which
    /// fails whenever a token exists.
    pub fn get_votes(&self, filter_miner: Address) -> (r: Result<Vec<u8>, NftError>)
        ensures
            crate::state::view_result(r) == votes_spec(self@),
    {
        let mut results: Vec<u8> = Vec::new();
        let mut k: u8 = 0;
        while k < 10
            invariant
                k <= 10,
                results@ == Seq::new(k as nat, |i: int| 0u8),
            decreases 10 - k,
        {
            results.push(0u8);
            k = k + 1;
            assert(results@ =~= Seq::new(k as nat, |i: int| 0u8));
        }
        let total = self.get_total_minted();
        let mut idx: u64 = 0;
        while idx < total
            invariant
                idx == 0,
                total == self@.total_minted(),
                results@ == Seq::new(10, |i: int| 0u8),
            decreases total - idx,
        {
            let token = self.load_token(idx)?;
            if self.get_addresses(token.miner)? == filter_miner {
                let slot = token.resp as usize;
                let v = results[slot] + 1;
                results.set(slot, v);
            }
            idx = idx + 1;
        }
        return Ok(results);
    }
}

} // verus!
