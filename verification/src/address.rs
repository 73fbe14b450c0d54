//! Account addresses: 32 bytes, held as four big-endian 64-bit words.
use vstd::prelude::*;
use crate::bytes::{u64_be, push_u64_be};

verus! {

/// An account address. Its 32 bytes are the big-endian bytes of the four
/// words, in order.
#[derive(Clone, Copy, Debug, PartialEq, Eq, Structural)]
pub struct Address(pub u64, pub u64, pub u64, pub u64);

impl Address {
    /// The zero address, as a value.
    pub open spec fn zero_spec() -> Address {
        Address(0, 0, 0, 0)
    }

    /// The 32 bytes of the address.
    pub open spec fn bytes(self) -> Seq<u8> {
        u64_be(self.0) + u64_be(self.1) + u64_be(self.2) + u64_be(self.3)
    }

    /// The address whose 32 bytes are all zero.
    pub fn zero() -> (r: Address)
        ensures
            r == Address::zero_spec(),
    {
        Address(0, 0, 0, 0)
    }

    /// Whether all 32 bytes are zero.
    pub fn is_zero(&self) -> (r: bool)
        ensures
            r == (*self == Address::zero_spec()),
    {
        self.0 == 0 && self.1 == 0 && self.2 == 0 && self.3 == 0
    }

    /// Appends the 32 bytes of the address to `out`.
    pub fn push_bytes(&self, out: &mut Vec<u8>)
        ensures
            final(out)@ == old(out)@ + self.bytes(),
    {
        push_u64_be(out, self.0);
        push_u64_be(out, self.1);
        push_u64_be(out, self.2);
        push_u64_be(out, self.3);
        assert(final(out)@ =~= old(out)@ + self.bytes());
    }

    /// The 32 bytes of the address.
    pub fn to_vec(&self) -> (r: Vec<u8>)
        ensures
            r@ == self.bytes(),
    {
        let mut r: Vec<u8> = Vec::new();
        self.push_bytes(&mut r);
        assert(r@ =~= self.bytes());
        r
    }
}

} // verus!
