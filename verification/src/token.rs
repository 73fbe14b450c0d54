//! A token: its price, owner, miner, money and the references to its
//! strings, and when it counts as burnt.
use vstd::prelude::*;
use crate::ZERO_ADDR;

verus! {

/// A token. `description`, `secret` and `collection` are positions in the
/// string registry; `owner`, `miner` and `creator` are positions in the
/// address registry; `money` is a 1-based position in the money registry.
pub struct Token {
    pub price: u32,
    pub description: u64,
    pub secret: u64,
    pub collection: u64,
    pub gift: u16,
    pub resp: u8,
    pub owner: u64,
    pub miner: u64,
    pub creator: u64,
    pub properties: u16,
    pub miner_ratio: u16,
    pub money: u16,
    pub limit: u8,
    pub status: u8,
    pub deadline: u64,
    /// Ids of the tokens whose kind a buyer must already own.
    pub required: Vec<u64>,
}

/// The value of a token, with the required ids as a sequence.
#[verifier::ext_equal]
pub struct TokenModel {
    pub price: u32,
    pub description: u64,
    pub secret: u64,
    pub collection: u64,
    pub gift: u16,
    pub resp: u8,
    pub owner: u64,
    pub miner: u64,
    pub creator: u64,
    pub properties: u16,
    pub miner_ratio: u16,
    pub money: u16,
    pub limit: u8,
    pub status: u8,
    pub deadline: u64,
    pub required: Seq<u64>,
}

impl TokenModel {
    /// A token is burnt at time `now` unless it has an owner other than the
    /// zero address and its deadline is still ahead.
    pub open spec fn burnt_at(self, now: u64) -> bool {
        !(self.owner != ZERO_ADDR && self.deadline > now)
    }
}

impl View for Token {
    type V = TokenModel;

    open spec fn view(&self) -> TokenModel {
        TokenModel {
            price: self.price,
            description: self.description,
            secret: self.secret,
            collection: self.collection,
            gift: self.gift,
            resp: self.resp,
            owner: self.owner,
            miner: self.miner,
            creator: self.creator,
            properties: self.properties,
            miner_ratio: self.miner_ratio,
            money: self.money,
            limit: self.limit,
            status: self.status,
            deadline: self.deadline,
            required: self.required@,
        }
    }
}

/// A copy of a vector of ids.
pub fn copy_ids(v: &Vec<u64>) -> (r: Vec<u64>)
    ensures
        r@ == v@,
{
    let mut r: Vec<u64> = Vec::new();
    let n = v.len();
    let mut i: usize = 0;
    while i < n
        invariant
            n == v@.len(),
            i <= n,
            r@ == v@.subrange(0, i as int),
        decreases n - i,
    {
        r.push(v[i]);
        i = i + 1;
        assert(r@ =~= v@.subrange(0, i as int));
    }
    assert(v@.subrange(0, n as int) =~= v@);
    r
}

impl Token {
    /// Whether the token is burnt at time `now`: it is, unless it has an
    /// owner other than the zero address and its deadline is still ahead.
    pub fn is_burn(&self, now: u64) -> (r: bool)
        ensures
            r == self@.burnt_at(now),
    {
        if self.owner != ZERO_ADDR && self.deadline > now {
            return false;
        }
        return true;
    }

    /// A token equal to this one.
    pub fn copy(&self) -> (r: Token)
        ensures
            r@ == self@,
    {
        Token {
            price: self.price,
            description: self.description,
            secret: self.secret,
            collection: self.collection,
            gift: self.gift,
            resp: self.resp,
            owner: self.owner,
            miner: self.miner,
            creator: self.creator,
            properties: self.properties,
            miner_ratio: self.miner_ratio,
            money: self.money,
            limit: self.limit,
            status: self.status,
            deadline: self.deadline,
            required: copy_ids(&self.required),
        }
    }
}

} // verus!
