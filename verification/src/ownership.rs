//! Who owns a token and who may act on it: approvals, transfers, burning,
//! and the payments these order.
use vstd::prelude::*;
use crate::address::Address;
use crate::state::{reaches, settles, CallContext, ENonFungibleTokens, NftError, NftState, PayReason, Transfer};
use crate::token::{Token, TokenModel};
use crate::{CAN_TRANSFERT, MINER_CAN_BURN, ZERO_ADDR};

verus! {

broadcast use vstd::std_specs::hash::group_hash_axioms;

/// Ordering a payment of `amount` of the money at 1-based position
/// `identifier` to `dest`.
pub open spec fn send_money_spec(s: NftState, identifier: u16, dest: Address, amount: u128, reason: PayReason) -> Result<
    (NftState, ()),
    NftError,
> {
    match s.money(identifier) {
        None => Err(NftError::IndexOutOfRange),
        Some(m) => Ok((s.pay(m, dest, amount, reason), ())),
    }
}

/// `approve`: the owner of token `token_id` lets `approved` transfer it.
pub open spec fn approve_spec(s: NftState, caller: Address, token_id: u64, approved: Address) -> Result<
    (NftState, ()),
    NftError,
> {
    match s.token(token_id) {
        None => Err(NftError::IndexOutOfRange),
        Some(t) => if !(token_id <= s.total_minted()) {
            Err(NftError::E06TokenDoesNotExist)
        } else {
            match s.address(t.owner) {
                None => Err(NftError::IndexOutOfRange),
                Some(o) => if caller != o {
                    Err(NftError::E07OnlyOwnerApproves)
                } else {
                    Ok((NftState { approvals: s.approvals.insert(token_id, approved), ..s }, ()))
                },
            }
        },
    }
}

/// `revoke`: the owner of token `token_id` withdraws its approval.
pub open spec fn revoke_spec(s: NftState, caller: Address, token_id: u64) -> Result<(NftState, ()), NftError> {
    if !(token_id <= s.total_minted()) {
        Err(NftError::E08TokenDoesNotExist)
    } else {
        match s.token(token_id) {
            None => Err(NftError::IndexOutOfRange),
            Some(t) => match s.address(t.owner) {
                None => Err(NftError::IndexOutOfRange),
                Some(o) => if caller != o {
                    Err(NftError::E09OnlyOwnerRevokes)
                } else {
                    Ok((NftState { approvals: s.approvals.remove(token_id), ..s }, ()))
                },
            },
        }
    }
}

/// `transfer`: a transferable token goes to `to` when its owner, or the
/// account approved for it, asks; from anyone else the call succeeds and
/// changes nothing.
pub open spec fn transfer_spec(s: NftState, caller: Address, token_id: u64, to: Address) -> Result<
    (NftState, ()),
    NftError,
> {
    if !(token_id <= s.total_minted()) {
        Err(NftError::E12TokenDoesNotExist)
    } else {
        match s.token(token_id) {
            None => Err(NftError::IndexOutOfRange),
            Some(t) => if t.properties & CAN_TRANSFERT == 0 {
                Err(NftError::E13NotTransferable)
            } else {
                match s.address(t.owner) {
                    None => Err(NftError::IndexOutOfRange),
                    Some(o) => if caller == o || (s.approvals.contains_key(token_id) && caller
                        == s.approvals[token_id]) {
                        let (s1, n) = s.reg_address(to);
                        Ok((s1.with_token(token_id, TokenModel { owner: n, ..t }), ()))
                    } else {
                        Ok((s, ()))
                    },
                }
            },
        }
    }
}

/// A burnt token: owner and miner are the zero address.
pub open spec fn burnt(t: TokenModel) -> TokenModel {
    TokenModel { miner: ZERO_ADDR, owner: ZERO_ADDR, ..t }
}

/// `perform_burn`: the gift, if any, goes back to the miner, then the token
/// (stored under `token_id`) loses its owner and miner.
pub open spec fn perform_burn_spec(s: NftState, token_id: u64, t: TokenModel) -> Result<
    (NftState, TokenModel),
    NftError,
> {
    let refunded = if t.gift > 0 {
        match s.address(t.miner) {
            None => Err(NftError::IndexOutOfRange),
            Some(m) => send_money_spec(s, t.money, m, t.gift as u128, PayReason::MinerRefund),
        }
    } else {
        Ok((s, ()))
    };
    match refunded {
        Err(e) => Err(e),
        Ok((s1, _)) => if s1.token(token_id) is Some {
            Ok((s1.with_token(token_id, burnt(t)), burnt(t)))
        } else {
            Err(NftError::IndexOutOfRange)
        },
    }
}

/// Burning one token on behalf of `caller`.
pub open spec fn burn_one_spec(s: NftState, caller: Address, token_id: u64) -> Result<(NftState, ()), NftError> {
    if !(token_id <= s.total_minted()) {
        Err(NftError::E15TokenDoesNotExist)
    } else {
        match s.token(token_id) {
            None => Err(NftError::IndexOutOfRange),
            Some(t) => match s.address(t.owner) {
                None => Err(NftError::IndexOutOfRange),
                Some(o) => {
                    let allowed = if caller == o {
                        Ok(true)
                    } else {
                        match s.address(t.miner) {
                            None => Err(NftError::IndexOutOfRange),
                            Some(m) => Ok(caller == m && t.properties & MINER_CAN_BURN > 0),
                        }
                    };
                    match allowed {
                        Err(e) => Err(e),
                        Ok(false) => Err(NftError::E16BurnNotAllowed),
                        Ok(true) => match perform_burn_spec(s, token_id, t) {
                            Err(e) => Err(e),
                            Ok((s1, _)) => Ok((s1, ())),
                        },
                    }
                },
            },
        }
    }
}

/// `burn`: the tokens are burnt one after the other; the first refusal
/// fails the whole call.
pub open spec fn burn_spec(s: NftState, caller: Address, ids: Seq<u64>) -> Result<(NftState, ()), NftError>
    decreases ids.len(),
{
    if ids.len() == 0 {
        Ok((s, ()))
    } else {
        match burn_one_spec(s, caller, ids[0]) {
            Err(e) => Err(e),
            Ok((s1, _)) => burn_spec(s1, caller, ids.drop_first()),
        }
    }
}

impl ENonFungibleTokens {
    /// Whether token `token_id` has no approved account.
    pub fn approval_is_empty(&self, token_id: u64) -> (r: bool)
        ensures
            r == !self@.approvals.contains_key(token_id),
    {
        !self.approvals.contains_key(&token_id)
    }

    /// The account approved for token `token_id`; an empty approval does not
    /// read as an address.
    pub fn get_approval(&self, token_id: u64) -> (r: Result<Address, NftError>)
        ensures
            r == if self@.approvals.contains_key(token_id) {
                Ok::<Address, NftError>(self@.approvals[token_id])
            } else {
                Err::<Address, NftError>(NftError::BadStoredLength)
            },
    {
        match self.approvals.get(&token_id) {
            Some(a) => Ok(*a),
            None => Err(NftError::BadStoredLength),
        }
    }

    /// Approves `approved_address` for token `token_id`.
    pub fn set_approval(&mut self, token_id: u64, approved_address: &Address)
        ensures
            final(self)@ == (NftState { approvals: old(self)@.approvals.insert(token_id, *approved_address), ..old(self)@ }),
    {
        self.approvals.insert(token_id, *approved_address);
    }

    /// Removes the approval of token `token_id`.
    pub fn clear_approval(&mut self, token_id: u64)
        ensures
            final(self)@ == (NftState { approvals: old(self)@.approvals.remove(token_id), ..old(self)@ }),
    {
        self.approvals.remove(&token_id);
    }

    /// Orders a payment of `amount` of the money at 1-based position
    /// `identifier` to `dest`.
    pub fn send_money(&mut self, identifier: u16, dest: &Address, amount: u128, reason: PayReason) -> (r: Result<(), NftError>)
        ensures
            settles(old(self)@, final(self)@, r, send_money_spec(old(self)@, identifier, *dest, amount, reason)),
            old(self)@.wf() ==> final(self)@.wf(),
    {
        let money = self.load_money(identifier)?;
        let ghost before = self@;
        self.outbox.push(Transfer { money, to: *dest, amount, reason });
        assert(self@ =~= before.pay(money@, *dest, amount, reason));
        Ok(())
    }

    /// Approves `approved_address` to transfer token `token_id` on behalf of
    /// its owner. Only the owner of the token may call this function.
    pub fn approve(&mut self, ctx: &CallContext, token_id: u64, approved_address: Address) -> (r: Result<(), NftError>)
        ensures
            settles(old(self)@, final(self)@, r, approve_spec(old(self)@, ctx.caller, token_id, approved_address)),
            old(self)@.wf() ==> final(self)@.wf(),
    {
        let token = self.load_token(token_id)?;
        if !(token_id <= self.get_total_minted()) {
            return Err(NftError::E06TokenDoesNotExist);
        }
        if ctx.caller != self.get_addresses(token.owner)? {
            return Err(NftError::E07OnlyOwnerApproves);
        }
        self.set_approval(token_id, &approved_address);
        Ok(())
    }

    /// Clears the approval of token `token_id`.
    pub fn perform_revoke_approval(&mut self, token_id: u64)
        ensures
            final(self)@ == (NftState { approvals: old(self)@.approvals.remove(token_id), ..old(self)@ }),
    {
        self.clear_approval(token_id);
    }

    /// Revokes the approval of token `token_id`. Only the owner of the token
    /// may call this function.
    pub fn revoke(&mut self, ctx: &CallContext, token_id: u64) -> (r: Result<(), NftError>)
        ensures
            settles(old(self)@, final(self)@, r, revoke_spec(old(self)@, ctx.caller, token_id)),
            old(self)@.wf() ==> final(self)@.wf(),
    {
        if !(token_id <= self.get_total_minted()) {
            return Err(NftError::E08TokenDoesNotExist);
        }
        let token = self.load_token(token_id)?;
        if ctx.caller != self.get_addresses(token.owner)? {
            return Err(NftError::E09OnlyOwnerRevokes);
        }
        if !self.approval_is_empty(token_id) {
            self.perform_revoke_approval(token_id);
        } else {
            assert(self@.approvals.remove(token_id) =~= self@.approvals);
        }
        Ok(())
    }

    /// Transfers token `token_id` to `to` when the caller is its owner or the
    /// account approved for it.
    pub fn transfer(&mut self, ctx: &CallContext, token_id: u64, to: Address) -> (r: Result<(), NftError>)
        ensures
            settles(old(self)@, final(self)@, r, transfer_spec(old(self)@, ctx.caller, token_id, to)),
            old(self)@.wf() ==> final(self)@.wf(),
    {
        if !(token_id <= self.get_total_minted()) {
            return Err(NftError::E12TokenDoesNotExist);
        }
        let mut token = self.load_token(token_id)?;
        if !(token.properties & CAN_TRANSFERT > 0) {
            return Err(NftError::E13NotTransferable);
        }
        let caller = ctx.caller;
        let owner = self.get_addresses(token.owner)?;
        if caller == owner {
            token.owner = self.set_addresses(&to);
            let stored = self.store_token(token_id, token);
            assert(stored is Ok);
            return Ok(());
        } else if !self.approval_is_empty(token_id) {
            let approved_address = self.get_approval(token_id)?;
            if caller == approved_address {
                token.owner = self.set_addresses(&to);
                let stored = self.store_token(token_id, token);
                assert(stored is Ok);
                return Ok(());
            }
        }
        return Ok(());
    }

    /// Burns `token` (stored under `token_id`): its gift, if any, goes back
    /// to its miner, then its owner and miner become the zero address. When
    /// it fails, at most the refund has been ordered.
    pub fn perform_burn(&mut self, token_id: u64, token: &mut Token) -> (r: Result<bool, NftError>)
        ensures
            match perform_burn_spec(old(self)@, token_id, old(token)@) {
                Ok((s, t)) => final(self)@ == s && final(token)@ == t && r == Ok::<bool, NftError>(true),
                Err(e) => r == Err::<bool, NftError>(e) && final(self)@ == (NftState {
                    outbox: final(self)@.outbox,
                    ..old(self)@
                }),
            },
            final(self)@.dealers == old(self)@.dealers,
            final(self)@.ipfs == old(self)@.ipfs,
    {
        if token.gift > 0 {
            let miner_addr = self.get_addresses(token.miner)?;
            self.send_money(token.money, &miner_addr, token.gift as u128, PayReason::MinerRefund)?;
        }
        token.miner = ZERO_ADDR;
        token.owner = ZERO_ADDR;
        let t = token.copy();
        self.store_token(token_id, t)?;
        return Ok(true);
    }

    /// One step of `burn`.
    fn burn_one(&mut self, caller: Address, token_id: u64) -> (r: Result<(), NftError>)
        ensures
            reaches(final(self)@, r, burn_one_spec(old(self)@, caller, token_id)),
            final(self)@.dealers == old(self)@.dealers,
            final(self)@.ipfs == old(self)@.ipfs,
    {
        if !(token_id <= self.get_total_minted()) {
            return Err(NftError::E15TokenDoesNotExist);
        }
        let mut token = self.load_token(token_id)?;
        let allowed = if caller == self.get_addresses(token.owner)? {
            true
        } else {
            caller == self.get_addresses(token.miner)? && (token.properties & MINER_CAN_BURN > 0)
        };
        if !allowed {
            return Err(NftError::E16BurnNotAllowed);
        }
        self.perform_burn(token_id, &mut token)?;
        Ok(())
    }

    /// Burns each of `token_ids` in turn, leaving partial changes on failure.
    fn burn_all(&mut self, caller: Address, token_ids: &Vec<u64>) -> (r: Result<(), NftError>)
        ensures
            reaches(final(self)@, r, burn_spec(old(self)@, caller, token_ids@)),
            final(self)@.dealers == old(self)@.dealers,
            final(self)@.ipfs == old(self)@.ipfs,
    {
        let ghost goal = burn_spec(old(self)@, caller, token_ids@);
        assert(token_ids@.skip(0) =~= token_ids@);
        let n = token_ids.len();
        let mut i: usize = 0;
        let mut res: Result<(), NftError> = Ok(());
        while res.is_ok() && i < n
            invariant
                n == token_ids@.len(),
                i <= n,
                res is Ok ==> burn_spec(self@, caller, token_ids@.skip(i as int)) == goal,
                res is Err ==> reaches(self@, res, goal),
                self@.dealers == old(self)@.dealers,
                self@.ipfs == old(self)@.ipfs,
            decreases (n - i) as int + if res is Ok { 1int } else { 0int },
        {
            let ghost rest = token_ids@.skip(i as int);
            assert(rest[0] == token_ids@[i as int]);
            assert(rest.drop_first() =~= token_ids@.skip(i + 1));
            match self.burn_one(caller, token_ids[i]) {
                Ok(()) => {
                    i = i + 1;
                },
                Err(e) => {
                    res = Err(e);
                },
            }
        }
        if res.is_ok() {
            assert(token_ids@.skip(n as int) =~= Seq::<u64>::empty());
            assert(burn_spec(self@, caller, Seq::<u64>::empty()) == Ok::<(NftState, ()), NftError>((self@, ())));
            return Ok(());
        }
        res
    }

    /// Burns the tokens `token_ids`, one after the other, by giving them the
    /// zero address as owner and miner; each must be the caller's, or have
    /// the caller as miner and allow its miner to burn it.
    pub fn burn(&mut self, ctx: &CallContext, token_ids: Vec<u64>) -> (r: Result<(), NftError>)
        ensures
            settles(old(self)@, final(self)@, r, burn_spec(old(self)@, ctx.caller, token_ids@)),
            old(self)@.wf() ==> final(self)@.wf(),
    {
        let saved = self.snapshot();
        let r = self.burn_all(ctx.caller, &token_ids);
        if r.is_err() {
            *self = saved;
        }
        r
    }
}

} // verus!
