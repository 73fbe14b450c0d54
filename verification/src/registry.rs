//! Reading and writing the storage lists, and the registries of addresses,
//! strings and moneys.
use vstd::prelude::*;
use crate::address::Address;
use crate::bytes::{bytes_copy, bytes_equal};
use crate::dealer::Dealer;
use crate::search::{first_match, lemma_first_match_is, lemma_first_match_none};
use crate::state::{dealer_of, eq_addr, eq_bytes, ENonFungibleTokens, NftError, NftState, Transfer};
use crate::token::Token;
use crate::{index_or_not_find, succ_wrapping_exec, NOT_FIND};

verus! {

/// `Ok` of the value where there is one, and otherwise the error of a read
/// outside a storage list.
pub open spec fn or_out_of_range<A>(o: Option<A>) -> Result<A, NftError> {
    match o {
        Some(a) => Ok(a),
        None => Err(NftError::IndexOutOfRange),
    }
}

/// The first position of `a` in `v`, as a search returns it.
fn position_address(v: &Vec<Address>, a: &Address) -> (r: usize)
    ensures
        r == index_or_not_find(first_match(v@, eq_addr(*a))),
        r != NOT_FIND ==> r < v@.len() && first_match(v@, eq_addr(*a)) == r,
        r == NOT_FIND ==> first_match(v@, eq_addr(*a)) == -1,
{
    let n = v.len();
    let mut i: usize = 0;
    while i < n
        invariant
            n == v@.len(),
            i <= n,
            forall|j: int| 0 <= j < i ==> !eq_addr(*a)(#[trigger] v@[j]),
        decreases n - i,
    {
        if v[i] == *a {
            proof {
                lemma_first_match_is(v@, eq_addr(*a), i as int);
            }
            return i;
        }
        i = i + 1;
    }
    proof {
        lemma_first_match_none(v@, eq_addr(*a));
    }
    NOT_FIND
}

/// The first position of `b` in `v`, as a search returns it.
fn position_bytes(v: &Vec<Vec<u8>>, b: &Vec<u8>) -> (r: usize)
    ensures
        r == index_or_not_find(first_match(v@.map_values(|x: Vec<u8>| x@), eq_bytes(b@))),
        r != NOT_FIND ==> r < v@.len() && first_match(v@.map_values(|x: Vec<u8>| x@), eq_bytes(b@)) == r,
        r == NOT_FIND ==> first_match(v@.map_values(|x: Vec<u8>| x@), eq_bytes(b@)) == -1,
{
    let ghost s = v@.map_values(|x: Vec<u8>| x@);
    let n = v.len();
    let mut i: usize = 0;
    while i < n
        invariant
            n == v@.len(),
            s == v@.map_values(|x: Vec<u8>| x@),
            i <= n,
            forall|j: int| 0 <= j < i ==> !eq_bytes(b@)(#[trigger] s[j]),
        decreases n - i,
    {
        if bytes_equal(v[i].as_slice(), b.as_slice()) {
            proof {
                lemma_first_match_is(s, eq_bytes(b@), i as int);
            }
            return i;
        }
        i = i + 1;
    }
    proof {
        lemma_first_match_none(s, eq_bytes(b@));
    }
    NOT_FIND
}

impl Transfer {
    /// A payment order equal to this one.
    pub fn copy(&self) -> (r: Transfer)
        ensures
            r@ == self@,
    {
        Transfer { money: bytes_copy(self.money.as_slice()), to: self.to, amount: self.amount, reason: self.reason }
    }
}

/// A copy of a list of byte strings.
fn copy_byte_strings(v: &Vec<Vec<u8>>) -> (r: Vec<Vec<u8>>)
    ensures
        r@.map_values(|x: Vec<u8>| x@) == v@.map_values(|x: Vec<u8>| x@),
{
    let mut r: Vec<Vec<u8>> = Vec::new();
    let n = v.len();
    let mut i: usize = 0;
    while i < n
        invariant
            n == v@.len(),
            i <= n,
            r@.len() == i,
            forall|j: int| 0 <= j < i ==> (#[trigger] r@[j])@ == v@[j]@,
        decreases n - i,
    {
        r.push(bytes_copy(v[i].as_slice()));
        i = i + 1;
    }
    assert(r@.map_values(|x: Vec<u8>| x@) =~= v@.map_values(|x: Vec<u8>| x@));
    r
}

impl ENonFungibleTokens {
    /// A storage equal to this one, to restore when a call fails.
    pub fn snapshot(&self) -> (r: ENonFungibleTokens)
        ensures
            r@ == self@,
    {
        let mut tokens: Vec<Token> = Vec::new();
        let mut i: usize = 0;
        while i < self.tokens_map.len()
            invariant
                i <= self.tokens_map@.len(),
                tokens@.len() == i,
                forall|j: int| 0 <= j < i ==> (#[trigger] tokens@[j])@ == self.tokens_map@[j]@,
            decreases self.tokens_map@.len() - i,
        {
            tokens.push(self.tokens_map[i].copy());
            i = i + 1;
        }
        let mut addresses: Vec<Address> = Vec::new();
        let mut i: usize = 0;
        while i < self.addresses.len()
            invariant
                i <= self.addresses@.len(),
                addresses@ == self.addresses@.subrange(0, i as int),
            decreases self.addresses@.len() - i,
        {
            addresses.push(self.addresses[i]);
            i = i + 1;
            assert(addresses@ =~= self.addresses@.subrange(0, i as int));
        }
        let mut dealers: Vec<Dealer> = Vec::new();
        let mut i: usize = 0;
        while i < self.dealers_map.len()
            invariant
                i <= self.dealers_map@.len(),
                dealers@.len() == i,
                forall|j: int| 0 <= j < i ==> (#[trigger] dealers@[j])@ == self.dealers_map@[j]@,
            decreases self.dealers_map@.len() - i,
        {
            dealers.push(self.dealers_map[i].copy());
            i = i + 1;
        }
        let mut ipfs: Vec<(Address, u128)> = Vec::new();
        let mut i: usize = 0;
        while i < self.ipfs_map.len()
            invariant
                i <= self.ipfs_map@.len(),
                ipfs@ == self.ipfs_map@.subrange(0, i as int),
            decreases self.ipfs_map@.len() - i,
        {
            let (a, v) = self.ipfs_map[i];
            ipfs.push((a, v));
            i = i + 1;
            assert(ipfs@ =~= self.ipfs_map@.subrange(0, i as int));
        }
        let mut outbox: Vec<Transfer> = Vec::new();
        let mut i: usize = 0;
        while i < self.outbox.len()
            invariant
                i <= self.outbox@.len(),
                outbox@.len() == i,
                forall|j: int| 0 <= j < i ==> (#[trigger] outbox@[j])@ == self.outbox@[j]@,
            decreases self.outbox@.len() - i,
        {
            outbox.push(self.outbox[i].copy());
            i = i + 1;
        }
        assert(tokens@.map_values(|t: Token| t@) =~= self.tokens_map@.map_values(|t: Token| t@));
        assert(self.addresses@.subrange(0, self.addresses@.len() as int) =~= self.addresses@);
        assert(dealers@.map_values(|d: Dealer| d@) =~= self.dealers_map@.map_values(|d: Dealer| d@));
        assert(self.ipfs_map@.subrange(0, self.ipfs_map@.len() as int) =~= self.ipfs_map@);
        assert(outbox@.map_values(|t: Transfer| t@) =~= self.outbox@.map_values(|t: Transfer| t@));
        let r = ENonFungibleTokens {
            tokens_map: tokens,
            addresses,
            esdt_map: copy_byte_strings(&self.esdt_map),
            dealers_map: dealers,
            strs: copy_byte_strings(&self.strs),
            approvals: self.approvals.clone(),
            ipfs_map: ipfs,
            outbox,
        };
        assert(r@ =~= self@);
        r
    }

    /// Number of tokens, the placeholder of `init` included.
    pub fn get_total_minted(&self) -> (r: u64)
        ensures
            r == self@.total_minted(),
    {
        return self.tokens_map.len() as u64;
    }

    /// Registers `new_addr` in the address registry if it is not there yet,
    /// and returns its position.
    pub fn set_addresses(&mut self, new_addr: &Address) -> (r: u64)
        ensures
            (final(self)@, r) == old(self)@.reg_address(*new_addr),
    {
        let idx = position_address(&self.addresses, new_addr);
        if idx == NOT_FIND {
            let len = self.addresses.len();
            self.addresses.push(*new_addr);
            assert(self@ =~= old(self)@.reg_address(*new_addr).0);
            return len as u64;
        }
        return idx as u64;
    }

    /// The address at position `idx` of the address registry.
    pub fn get_addresses(&self, idx: u64) -> (r: Result<Address, NftError>)
        ensures
            r == or_out_of_range(self@.address(idx)),
    {
        let i = succ_wrapping_exec(idx as usize);
        if i == 0 || i > self.addresses.len() {
            return Err(NftError::IndexOutOfRange);
        }
        Ok(self.addresses[i - 1])
    }

    /// The first position of `new_addr` in the address registry, or
    /// `NOT_FIND`.
    pub fn get_idx_addresses(&self, new_addr: &Address) -> (r: u64)
        ensures
            r == self@.idx_address(*new_addr),
    {
        let idx = position_address(&self.addresses, new_addr);
        return idx as u64;
    }

    /// The 1-based position of the first dealer of the address at position
    /// `idx_dealer_addr`, or `NOT_FIND` when there is none (what its callers
    /// test for).
    pub fn get_idx_dealer(&self, idx_dealer_addr: u64) -> (r: usize)
        ensures
            r == self@.idx_dealer(idx_dealer_addr),
    {
        let ghost s = self@.dealers;
        let n = self.dealers_map.len();
        let mut i: usize = 0;
        while i < n
            invariant
                n == self.dealers_map@.len(),
                s == self@.dealers,
                i <= n,
                forall|j: int| 0 <= j < i ==> !dealer_of(idx_dealer_addr)(#[trigger] s[j]),
            decreases n - i,
        {
            if self.dealers_map[i].addr == idx_dealer_addr {
                proof {
                    lemma_first_match_is(s, dealer_of(idx_dealer_addr), i as int);
                }
                return i + 1;
            }
            i = i + 1;
        }
        proof {
            lemma_first_match_none(s, dealer_of(idx_dealer_addr));
        }
        NOT_FIND
    }

    /// The string at position `idx` of the string registry.
    pub fn get_str(&self, idx: u64) -> (r: Result<Vec<u8>, NftError>)
        ensures
            match r {
                Ok(v) => self@.string(idx) == Some(v@),
                Err(e) => self@.string(idx) is None && e == NftError::IndexOutOfRange,
            },
    {
        let i = succ_wrapping_exec(idx as usize);
        if i == 0 || i > self.strs.len() {
            return Err(NftError::IndexOutOfRange);
        }
        Ok(bytes_copy(self.strs[i - 1].as_slice()))
    }

    /// The first position of `vec` in the string registry, or `NOT_FIND`.
    pub fn get_idx_str(&self, vec: &Vec<u8>) -> (r: usize)
        ensures
            r == self@.idx_str(vec@),
    {
        position_bytes(&self.strs, vec)
    }

    /// Registers the string `vec` if it is not there yet, and returns its
    /// position.
    pub fn set_str(&mut self, vec: &Vec<u8>) -> (r: u64)
        ensures
            (final(self)@, r) == old(self)@.reg_str(vec@),
    {
        let idx = position_bytes(&self.strs, vec);
        if idx == NOT_FIND {
            let len = self.strs.len();
            self.strs.push(bytes_copy(vec.as_slice()));
            assert(self@ =~= old(self)@.reg_str(vec@).0);
            return len as u64;
        }
        return idx as u64;
    }

    /// Registers the money `new_token` if it is not there yet, and returns
    /// its 1-based position, cut to 16 bits.
    pub fn set_esdt(&mut self, new_token: &Vec<u8>) -> (r: u16)
        ensures
            (final(self)@, r) == old(self)@.reg_esdt(new_token@),
    {
        let mut idx = position_bytes(&self.esdt_map, new_token);
        if idx == NOT_FIND {
            idx = self.esdt_map.len();
            self.esdt_map.push(bytes_copy(new_token.as_slice()));
            assert(self@ =~= old(self)@.reg_esdt(new_token@).0);
        }
        return #[verifier::truncate] (succ_wrapping_exec(idx) as u16);
    }

    /// The token of id `id`.
    pub fn load_token(&self, id: u64) -> (r: Result<Token, NftError>)
        ensures
            match r {
                Ok(t) => self@.token(id) == Some(t@),
                Err(e) => self@.token(id) is None && e == NftError::IndexOutOfRange,
            },
    {
        let i = id as usize;
        if i == 0 || i > self.tokens_map.len() {
            return Err(NftError::IndexOutOfRange);
        }
        Ok(self.tokens_map[i - 1].copy())
    }

    /// Replaces the token of id `id` by `token`.
    pub fn store_token(&mut self, id: u64, token: Token) -> (r: Result<(), NftError>)
        ensures
            old(self)@.token(id) is Some ==> r is Ok && final(self)@ == old(self)@.with_token(id, token@),
            old(self)@.token(id) is None ==> r == Err::<(), NftError>(NftError::IndexOutOfRange)
                && final(self)@ == old(self)@,
    {
        let i = id as usize;
        if i == 0 || i > self.tokens_map.len() {
            return Err(NftError::IndexOutOfRange);
        }
        self.tokens_map.set(i - 1, token);
        assert(self@ =~= old(self)@.with_token(id, token@));
        Ok(())
    }

    /// The money at 1-based position `i`.
    pub fn load_money(&self, i: u16) -> (r: Result<Vec<u8>, NftError>)
        ensures
            match r {
                Ok(v) => self@.money(i) == Some(v@),
                Err(e) => self@.money(i) is None && e == NftError::IndexOutOfRange,
            },
    {
        let j = i as usize;
        if j == 0 || j > self.esdt_map.len() {
            return Err(NftError::IndexOutOfRange);
        }
        Ok(bytes_copy(self.esdt_map[j - 1].as_slice()))
    }

    /// The dealer at 1-based position `i`.
    pub fn load_dealer(&self, i: usize) -> (r: Result<Dealer, NftError>)
        ensures
            match r {
                Ok(d) => self@.dealer(i) == Some(d@),
                Err(e) => self@.dealer(i) is None && e == NftError::IndexOutOfRange,
            },
    {
        if i == 0 || i > self.dealers_map.len() {
            return Err(NftError::IndexOutOfRange);
        }
        Ok(self.dealers_map[i - 1].copy())
    }

    /// Replaces the dealer at 1-based position `i` by `dealer`.
    pub fn store_dealer(&mut self, i: usize, dealer: Dealer) -> (r: Result<(), NftError>)
        ensures
            old(self)@.dealer(i) is Some ==> r is Ok && final(self)@ == (NftState {
                dealers: old(self)@.dealers.update(i - 1, dealer@),
                ..old(self)@
            }),
            old(self)@.dealer(i) is None ==> r == Err::<(), NftError>(NftError::IndexOutOfRange)
                && final(self)@ == old(self)@,
    {
        if i == 0 || i > self.dealers_map.len() {
            return Err(NftError::IndexOutOfRange);
        }
        self.dealers_map.set(i - 1, dealer);
        assert(self@ =~= NftState { dealers: old(self)@.dealers.update(i - 1, dealer@), ..old(self)@ });
        Ok(())
    }
}

} // verus!
