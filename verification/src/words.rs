//! The fixed byte strings the contract uses, and the rules for money names.
use vstd::prelude::*;

verus! {

/// "EGLD", the name of the chain's own money.
pub open spec fn egld_name() -> Seq<u8> {
    seq![69u8, 71, 76, 68]
}

/// "Gagné" in UTF-8: what a winning token reveals.
pub open spec fn won_word() -> Seq<u8> {
    seq![71u8, 97, 103, 110, 195, 169]
}

/// "Perdu": what a losing token reveals.
pub open spec fn lost_word() -> Seq<u8> {
    seq![80u8, 101, 114, 100, 117]
}

/// "@id@": a secret replaced by the token's id.
pub open spec fn id_marker() -> Seq<u8> {
    seq![64u8, 105, 100, 64]
}

/// "description": the only field `update` changes.
pub open spec fn description_word() -> Seq<u8> {
    seq![100u8, 101, 115, 99, 114, 105, 112, 116, 105, 111, 110]
}

/// "Start": the first string of the registry.
pub open spec fn start_word() -> Seq<u8> {
    seq![83u8, 116, 97, 114, 116]
}

/// "EGLD".
pub fn egld() -> (r: Vec<u8>)
    ensures
        r@ == egld_name(),
{
    let r = vec![69u8, 71, 76, 68];
    assert(r@ =~= egld_name());
    r
}

/// "Gagné".
pub fn won() -> (r: Vec<u8>)
    ensures
        r@ == won_word(),
{
    let r = vec![71u8, 97, 103, 110, 195, 169];
    assert(r@ =~= won_word());
    r
}

/// "Perdu".
pub fn lost() -> (r: Vec<u8>)
    ensures
        r@ == lost_word(),
{
    let r = vec![80u8, 101, 114, 100, 117];
    assert(r@ =~= lost_word());
    r
}

/// "@id@".
pub fn id_marker_bytes() -> (r: Vec<u8>)
    ensures
        r@ == id_marker(),
{
    let r = vec![64u8, 105, 100, 64];
    assert(r@ =~= id_marker());
    r
}

/// "description".
pub fn description_bytes() -> (r: Vec<u8>)
    ensures
        r@ == description_word(),
{
    let r = vec![100u8, 101, 115, 99, 114, 105, 112, 116, 105, 111, 110];
    assert(r@ =~= description_word());
    r
}

/// "Start".
pub fn start_bytes() -> (r: Vec<u8>)
    ensures
        r@ == start_word(),
{
    let r = vec![83u8, 116, 97, 114, 116];
    assert(r@ =~= start_word());
    r
}

/// Whether the money named `m` is the chain's own money.
pub fn is_egld(m: &[u8]) -> (r: bool)
    ensures
        r == (m@ == egld_name()),
{
    if m.len() != 4 {
        return false;
    }
    let r = m[0] == 69u8 && m[1] == 71u8 && m[2] == 76u8 && m[3] == 68u8;
    assert(r ==> m@ =~= egld_name());
    r
}

/// An upper-case ASCII letter or a digit.
pub open spec fn upper_or_digit(b: u8) -> bool {
    (65 <= b <= 90) || (48 <= b <= 57)
}

/// A lower-case ASCII letter or a digit.
pub open spec fn lower_or_digit(b: u8) -> bool {
    (97 <= b <= 122) || (48 <= b <= 57)
}

/// A token identifier: a ticker of 3 to 10 upper-case letters or digits,
/// a dash, and 6 lower-case letters or digits.
pub open spec fn valid_esdt_identifier(s: Seq<u8>) -> bool {
    &&& 10 <= s.len() <= 17
    &&& forall|i: int| 0 <= i < s.len() - 7 ==> upper_or_digit(#[trigger] s[i])
    &&& s[s.len() - 7] == 45u8
    &&& forall|i: int| s.len() - 6 <= i < s.len() ==> lower_or_digit(#[trigger] s[i])
}

/// Whether `name` is a well-formed token identifier.
pub fn is_valid_esdt_identifier(name: &[u8]) -> (r: bool)
    ensures
        r == valid_esdt_identifier(name@),
{
    let length = name.len();
    if length < 10 || length > 17 {
        return false;
    }
    let ticker_len = length - 7;
    let mut i: usize = 0;
    while i < ticker_len
        invariant
            length == name@.len(),
            ticker_len == length - 7,
            10 <= length <= 17,
            i <= ticker_len,
            forall|j: int| 0 <= j < i ==> upper_or_digit(#[trigger] name@[j]),
        decreases ticker_len - i,
    {
        let c = name[i];
        if !((65 <= c && c <= 90) || (48 <= c && c <= 57)) {
            return false;
        }
        i = i + 1;
    }
    if name[ticker_len] != 45u8 {
        return false;
    }
    let mut k: usize = length - 6;
    while k < length
        invariant
            length == name@.len(),
            10 <= length <= 17,
            length - 6 <= k <= length,
            forall|j: int| length - 6 <= j < k ==> lower_or_digit(#[trigger] name@[j]),
        decreases length - k,
    {
        let c = name[k];
        if !((97 <= c && c <= 122) || (48 <= c && c <= 57)) {
            return false;
        }
        k = k + 1;
    }
    true
}

} // verus!
