use enft::adder::{Adder, AdderStorage};
use enft::address::Address;
use enft::bytes::{
    bytes_eq_ignore_ascii_case, bytes_equal, bytes_to_ascii_uppercase, push_u16_be, push_u32_be,
    push_u64_be, push_usize_be,
};
use enft::dealer::Dealer;
use enft::token::Token;
use enft::words::{is_egld, is_valid_esdt_identifier};
use enft::{NOT_FIND, ZERO_ADDR};

fn token_with(owner: u64, deadline: u64) -> Token {
    Token {
        price: 0,
        description: 0,
        secret: 0,
        collection: 0,
        gift: 0,
        resp: 0,
        owner,
        miner: 0,
        creator: 0,
        properties: 0,
        miner_ratio: 0,
        money: 1,
        limit: 0,
        status: 0,
        deadline,
        required: Vec::new(),
    }
}

#[test]
fn adder_init_sets_sum_owner_and_count() {
    let owner = Address(1, 2, 3, 4);
    let a = AdderStorage::init(owner, 40);
    assert_eq!(a.get_sum(), 40);
    assert_eq!(a.contract_owner(), owner);
    assert_eq!(a.get_dealer_count(), 0);
}

#[test]
fn adder_add_accumulates() {
    let owner = Address(1, 2, 3, 4);
    let mut a = AdderStorage::init(owner, 40);
    a.add(2);
    a.add(-10);
    assert_eq!(a.get_sum(), 32);
}

#[test]
fn adder_accepts_its_owner() {
    let owner = Address(1, 2, 3, 4);
    let mut a = AdderStorage::init(owner, 40);
    a.add(2);
    assert_eq!(a.get_sum(), 42);
    assert_eq!(a.contract_owner(), owner);
}

#[test]
fn address_bytes_are_big_endian_words() {
    let a = Address(0x0102030405060708, 0, 0, 0xff);
    let b = a.to_vec();
    assert_eq!(b.len(), 32);
    assert_eq!(&b[0..8], &[1, 2, 3, 4, 5, 6, 7, 8]);
    assert_eq!(b[31], 0xff);
    assert!(Address::zero().is_zero());
    assert!(!a.is_zero());
}

#[test]
fn big_endian_encodings() {
    let mut v = Vec::new();
    push_u16_be(&mut v, 0x0102);
    push_u32_be(&mut v, 0x03040506);
    push_u64_be(&mut v, 0x0708090a0b0c0d0e);
    assert_eq!(v, vec![1, 2, 3, 4, 5, 6, 7, 8, 9, 10, 11, 12, 13, 14]);
    let mut w = Vec::new();
    push_usize_be(&mut w, 5);
    assert_eq!(w.len(), std::mem::size_of::<usize>());
    assert_eq!(*w.last().unwrap(), 5);
}

#[test]
fn ascii_case_helpers() {
    assert!(bytes_eq_ignore_ascii_case(b"@ID@", b"@id@"));
    assert!(!bytes_eq_ignore_ascii_case(b"@id", b"@id@"));
    assert!(!bytes_eq_ignore_ascii_case(b"@ix@", b"@id@"));
    assert_eq!(bytes_to_ascii_uppercase(b"aZ9{z"), b"AZ9{Z".to_vec());
    assert!(bytes_equal(b"abc", b"abc"));
    assert!(!bytes_equal(b"abc", b"abd"));
}

#[test]
fn money_names() {
    assert!(is_egld(b"EGLD"));
    assert!(!is_egld(b"egld"));
    assert!(is_valid_esdt_identifier(b"WEGLD-bd4d79"));
    assert!(is_valid_esdt_identifier(b"ABC-123456"));
    assert!(!is_valid_esdt_identifier(b"EGLD"));
    assert!(!is_valid_esdt_identifier(b"abc-123456"));
    assert!(!is_valid_esdt_identifier(b"ABC_123456"));
    assert!(!is_valid_esdt_identifier(b"ABC-12345F"));
    assert!(!is_valid_esdt_identifier(b"ABCDEFGHIJK-123456"));
}

#[test]
fn token_is_burn() {
    assert!(!token_with(2, 10).is_burn(9));
    assert!(token_with(2, 10).is_burn(10));
    assert!(token_with(ZERO_ADDR, 10).is_burn(0));
}

#[test]
fn dealer_new_and_zero() {
    let d = Dealer::new(ZERO_ADDR);
    assert_eq!(d.state, 1);
    assert!(d.is_zero());
    assert!(d.tokens.is_empty() && d.miners.is_empty());
    assert!(!Dealer::new(7).is_zero());
}

#[test]
fn dealer_add_token_then_find_markup() {
    let mut d = Dealer::new(3);
    assert_eq!(d.find_markup(5), (0, 0));
    assert_eq!(d.get_idx(5), NOT_FIND);
    assert!(d.add_token(5, 10, 20));
    assert!(!d.add_token(5, 11, 21));
    assert_eq!(d.get_idx(5), 0);
    assert_eq!(d.find_markup(5), (10, 20));
}

#[test]
fn dealer_set_markup_updates_adds_and_stops() {
    let mut d = Dealer::new(3);
    d.add_token(5, 10, 20);
    // 5 is below its highest markup: updated; 6 is new: added.
    assert!(d.set_markup(vec![5, 6], 15, 30));
    assert_eq!(d.find_markup(5), (15, 20));
    assert_eq!(d.find_markup(6), (15, 30));
    // 25 is not below 5's highest markup (20): stops, 7 is not added, 6 kept.
    assert!(!d.set_markup(vec![6, 5, 7], 25, 40));
    assert_eq!(d.find_markup(6), (25, 30));
    assert_eq!(d.find_markup(5), (15, 20));
    assert_eq!(d.find_markup(7), (0, 0));
}

#[test]
fn dealer_set_markup_keeps_lists_and_old_tokens_first() {
    let mut d = Dealer::new(3);
    d.add_token(5, 10, 20);
    d.add_token(8, 1, 2);
    d.set_markup(vec![9, 5, 9, 4], 12, 50);
    assert_eq!(d.tokens, vec![5, 8, 9, 4]);
    assert_eq!(d.markups.len(), d.tokens.len());
    assert_eq!(d.max_markups, vec![20, 2, 50, 50]);
    assert_eq!(d.state, 1);
    assert_eq!(d.addr, 3);
    assert!(d.miners.is_empty());
}
