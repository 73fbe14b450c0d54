use enft::address::Address;
use enft::dealer::Dealer;
use enft::state::{CallContext, ENonFungibleTokens, NftError, PayReason};
use enft::{
    CAN_RESELL, CAN_TRANSFERT, DIRECT_SELL, FIND_SECRET, FOR_SALE, MINER_CAN_BURN, ONE_WINNER, RENT,
    SECRET_VOTE, SELF_DESTRUCTION, ZERO_ADDR,
};

const SC: Address = Address(9, 9, 9, 9);
const ALICE: Address = Address(0, 0, 0, 0xa);
const BOB: Address = Address(0, 0, 0, 0xb);
const CAROL: Address = Address(0, 0, 0, 0xc);
const NOW: u64 = 500;

fn ctx(caller: Address) -> CallContext {
    CallContext { caller, timestamp: NOW, payment: 0 }
}

fn paying(caller: Address, payment: u128) -> CallContext {
    CallContext { caller, timestamp: NOW, payment }
}

fn egld() -> Vec<u8> {
    b"EGLD".to_vec()
}

/// Alice mints `count` tokens of her own with the given properties, secret,
/// price and gift (paying the gifts).
fn mint_by_alice(
    c: &mut ENonFungibleTokens,
    count: u64,
    properties: u16,
    secret: &[u8],
    price: u32,
    gift: u16,
) -> Result<Vec<u64>, NftError> {
    c.mint(
        &paying(ALICE, gift as u128 * count as u128),
        count,
        &b"col".to_vec(),
        &b"desc".to_vec(),
        0,
        &secret.to_vec(),
        price,
        0,
        properties,
        ALICE,
        ALICE,
        ALICE,
        0,
        gift,
        1000,
        0,
        &egld(),
    )
}

fn fresh() -> ENonFungibleTokens {
    ENonFungibleTokens::init(SC)
}

#[test]
fn init_registers_contract_zero_money_start_dealer_and_placeholder() {
    let c = fresh();
    assert_eq!(c.addresses, vec![SC, Address::zero()]);
    assert_eq!(c.esdt_map, vec![egld()]);
    assert_eq!(c.strs, vec![b"Start".to_vec()]);
    assert_eq!(c.dealers_map.len(), 1);
    assert_eq!(c.dealers_map[0].addr, ZERO_ADDR);
    assert_eq!(c.dealers_map[0].state, 1);
    assert_eq!(c.get_total_minted(), 1);
    assert_eq!(c.tokens_map[0].owner, ZERO_ADDR);
    assert!(c.outbox.is_empty());
}

#[test]
fn address_registry_read_back() {
    let mut c = fresh();
    let i = c.set_addresses(&ALICE);
    assert_eq!(i, 2);
    assert_eq!(c.set_addresses(&ALICE), 2);
    assert_eq!(c.addresses.len(), 3);
    assert_eq!(c.get_addresses(i), Ok(ALICE));
    assert_eq!(c.get_idx_addresses(&ALICE), 2);
    assert_eq!(c.get_idx_addresses(&BOB), enft::NOT_FIND as u64);
    assert_eq!(c.get_addresses(3), Err(NftError::IndexOutOfRange));
    assert_eq!(c.get_addresses(u64::MAX), Err(NftError::IndexOutOfRange));
}

#[test]
fn string_and_money_registries_read_back() {
    let mut c = fresh();
    let i = c.set_str(&b"hello".to_vec());
    assert_eq!(i, 1);
    assert_eq!(c.set_str(&b"hello".to_vec()), 1);
    assert_eq!(c.get_str(i), Ok(b"hello".to_vec()));
    assert_eq!(c.get_idx_str(&b"Start".to_vec()), 0);
    assert_eq!(c.get_idx_str(&b"nope".to_vec()), enft::NOT_FIND);
    assert_eq!(c.get_str(9), Err(NftError::IndexOutOfRange));
    assert_eq!(c.set_esdt(&egld()), 1);
    assert_eq!(c.set_esdt(&b"WEGLD-bd4d79".to_vec()), 2);
    assert_eq!(c.load_money(2), Ok(b"WEGLD-bd4d79".to_vec()));
    assert_eq!(c.load_money(0), Err(NftError::IndexOutOfRange));
}

#[test]
fn mint_creates_owned_tokens() {
    let mut c = fresh();
    let ids = mint_by_alice(&mut c, 2, CAN_TRANSFERT, b"s3cret", 100, 0).unwrap();
    assert_eq!(ids, vec![2, 3]);
    assert_eq!(c.get_total_minted(), 3);
    for id in ids {
        let t = c.load_token(id).unwrap();
        assert_eq!(c.get_addresses(t.owner), Ok(ALICE));
        assert_eq!(c.get_addresses(t.miner), Ok(ALICE));
        assert_eq!(c.get_str(t.description), Ok(b"desc".to_vec()));
        assert_eq!(c.get_str(t.collection), Ok(b"col".to_vec()));
        assert_eq!(c.get_str(t.secret), Ok(b"s3cret".to_vec()));
        assert_eq!(t.deadline, 1000 + NOW);
        assert_eq!(t.money, 1);
        assert_eq!(t.price, 100);
    }
    assert_eq!(c.get_idx_token_by_desc_and_addr(&b"desc".to_vec(), &ALICE), 1);
}

#[test]
fn mint_with_id_secret_uses_the_token_id() {
    let mut c = fresh();
    let ids = mint_by_alice(&mut c, 1, 0, b"@Id@", 0, 0).unwrap();
    let t = c.load_token(ids[0]).unwrap();
    // the token is minted at position 1, whose big-endian bytes are the secret
    assert_eq!(c.get_str(t.secret), Ok(vec![0, 0, 0, 0, 0, 0, 0, 1]));
}

#[test]
fn mint_one_winner_spreads_the_gift() {
    let mut c = fresh();
    // with ONE_WINNER the payment is not checked against the gifts
    let ids = c
        .mint(&ctx(ALICE), 2, &b"c".to_vec(), &b"d".to_vec(), 0, &b"s".to_vec(), 0, 0, ONE_WINNER, ALICE, ALICE, ALICE, 0, 7, 0, 0, &egld())
        .unwrap();
    // positions 1 and 2: 2 % 2 == 0 wins; the secret of the next token is "Gagné"
    let first = c.load_token(ids[0]).unwrap();
    let second = c.load_token(ids[1]).unwrap();
    assert_eq!(first.gift, 0);
    assert_eq!(second.gift, 7);
    assert_eq!(c.get_str(first.secret), Ok(b"s".to_vec()));
    assert_eq!(c.get_str(second.secret), Ok(b"Perdu".to_vec()));
}

#[test]
fn mint_refusals() {
    let mut c = fresh();
    let d = b"d".to_vec();
    let e = Vec::new();
    let r = c.mint(&ctx(ALICE), 1, &d, &e, 0, &d, 0, 0, 0, ALICE, ALICE, ALICE, 0, 0, 0, 0, &egld());
    assert_eq!(r, Err(NftError::E02EmptyDescription));
    let r = c.mint(&ctx(ALICE), 1, &d, &d, 0, &d, 0, 0, 0, ALICE, ALICE, ALICE, 10001, 0, 0, 0, &egld());
    assert_eq!(r, Err(NftError::E04MinerRatio));
    let r = c.mint(&ctx(ALICE), 1, &d, &d, 0, &d, 0, 0, 0, ALICE, ALICE, ALICE, 0, 0, 0, 0, &b"abc".to_vec());
    assert_eq!(r, Err(NftError::E65InvalidMoney));
    let r = c.mint(&paying(ALICE, 5), 1, &d, &d, 0, &d, 0, 0, 0, ALICE, BOB, ALICE, 0, 5, 0, 0, &egld());
    assert_eq!(r, Err(NftError::E88GiftNeedsMiner));
    let r = c.mint(&paying(ALICE, 4), 1, &d, &d, 0, &d, 0, 0, 0, ALICE, ALICE, ALICE, 0, 5, 0, 0, &egld());
    assert_eq!(r, Err(NftError::E05PaymentMismatch));
    let r = c.mint(&ctx(ALICE), 1, &d, &d, 99, &d, 0, 0, 0, ALICE, ALICE, ALICE, 0, 0, 0, 0, &egld());
    assert_eq!(r, Err(NftError::E88RequiredTokenMissing));
    // nothing was stored
    assert_eq!(c.get_total_minted(), 1);
    assert_eq!(c.addresses.len(), 2);
    // an ESDT money is accepted and registered
    let r = c.mint(&ctx(ALICE), 1, &d, &d, 0, &d, 0, 0, 0, ALICE, ALICE, ALICE, 0, 0, 0, 0, &b"WEGLD-bd4d79".to_vec());
    assert_eq!(r, Ok(vec![2]));
    assert_eq!(c.load_token(2).unwrap().money, 2);
}

#[test]
fn owner_transfers_token() {
    let mut c = fresh();
    let id = mint_by_alice(&mut c, 1, CAN_TRANSFERT, b"s", 0, 0).unwrap()[0];
    assert_eq!(c.transfer(&ctx(ALICE), id, BOB), Ok(()));
    let t = c.load_token(id).unwrap();
    assert_eq!(c.get_addresses(t.owner), Ok(BOB));
    // from anyone else the call changes nothing
    assert_eq!(c.transfer(&ctx(ALICE), id, CAROL), Ok(()));
    assert_eq!(c.get_addresses(c.load_token(id).unwrap().owner), Ok(BOB));
}

#[test]
fn transfer_refusals() {
    let mut c = fresh();
    let id = mint_by_alice(&mut c, 1, 0, b"s", 0, 0).unwrap()[0];
    assert_eq!(c.transfer(&ctx(ALICE), id, BOB), Err(NftError::E13NotTransferable));
    assert_eq!(c.transfer(&ctx(ALICE), 99, BOB), Err(NftError::E12TokenDoesNotExist));
    assert_eq!(c.transfer(&ctx(ALICE), 0, BOB), Err(NftError::IndexOutOfRange));
}

#[test]
fn approved_account_transfers_then_revoke_stops_it() {
    let mut c = fresh();
    let id = mint_by_alice(&mut c, 1, CAN_TRANSFERT, b"s", 0, 0).unwrap()[0];
    assert_eq!(c.approve(&ctx(BOB), id, CAROL), Err(NftError::E07OnlyOwnerApproves));
    assert_eq!(c.approve(&ctx(ALICE), id, CAROL), Ok(()));
    assert!(!c.approval_is_empty(id));
    assert_eq!(c.get_approval(id), Ok(CAROL));
    assert_eq!(c.transfer(&ctx(CAROL), id, BOB), Ok(()));
    assert_eq!(c.get_addresses(c.load_token(id).unwrap().owner), Ok(BOB));
    // the new owner revokes: Carol can no longer move it
    assert_eq!(c.revoke(&ctx(ALICE), id), Err(NftError::E09OnlyOwnerRevokes));
    assert_eq!(c.revoke(&ctx(BOB), id), Ok(()));
    assert!(c.approval_is_empty(id));
    assert_eq!(c.get_approval(id), Err(NftError::BadStoredLength));
    assert_eq!(c.transfer(&ctx(CAROL), id, CAROL), Ok(()));
    assert_eq!(c.get_addresses(c.load_token(id).unwrap().owner), Ok(BOB));
    assert_eq!(c.revoke(&ctx(BOB), 99), Err(NftError::E08TokenDoesNotExist));
    assert_eq!(c.approve(&ctx(BOB), 99, CAROL), Err(NftError::IndexOutOfRange));
}

#[test]
fn burn_destroys_and_refunds_gift() {
    let mut c = fresh();
    let id = mint_by_alice(&mut c, 1, 0, b"s", 0, 5).unwrap()[0];
    assert_eq!(c.burn(&ctx(BOB), vec![id]), Err(NftError::E16BurnNotAllowed));
    assert_eq!(c.burn(&ctx(ALICE), vec![99]), Err(NftError::E15TokenDoesNotExist));
    assert_eq!(c.burn(&ctx(ALICE), vec![id]), Ok(()));
    let t = c.load_token(id).unwrap();
    assert_eq!(t.owner, ZERO_ADDR);
    assert_eq!(t.miner, ZERO_ADDR);
    assert!(t.is_burn(0));
    assert_eq!(c.outbox.len(), 1);
    assert_eq!(c.outbox[0].to, ALICE);
    assert_eq!(c.outbox[0].amount, 5);
    assert_eq!(c.outbox[0].money, egld());
    assert_eq!(c.outbox[0].reason, PayReason::MinerRefund);
    assert_eq!(PayReason::MinerRefund.comment(), b"Miner refund".to_vec());
}

#[test]
fn burn_failure_reverts_earlier_burns() {
    let mut c = fresh();
    let ids = mint_by_alice(&mut c, 2, 0, b"s", 0, 0).unwrap();
    // the second burn of the same token is refused: the whole call fails
    assert_eq!(c.burn(&ctx(ALICE), vec![ids[0], ids[0]]), Err(NftError::E16BurnNotAllowed));
    assert_eq!(c.get_addresses(c.load_token(ids[0]).unwrap().owner), Ok(ALICE));
}

#[test]
fn miner_burns_when_allowed() {
    let mut c = fresh();
    let id = mint_by_alice(&mut c, 1, CAN_TRANSFERT | MINER_CAN_BURN, b"s", 0, 0).unwrap()[0];
    c.transfer(&ctx(ALICE), id, BOB).unwrap();
    assert_eq!(c.burn(&ctx(ALICE), vec![id]), Ok(()));
    assert_eq!(c.load_token(id).unwrap().owner, ZERO_ADDR);
}

#[test]
fn setstate_puts_on_and_off_sale() {
    let mut c = fresh();
    let ids = mint_by_alice(&mut c, 2, CAN_RESELL, b"s", 0, 0).unwrap();
    assert_eq!(c.setstate(&ctx(ALICE), ids.clone(), 1), Ok(2));
    assert!(c.load_token(ids[0]).unwrap().properties & FOR_SALE != 0);
    assert_eq!(c.setstate(&ctx(ALICE), ids.clone(), 1), Ok(0));
    assert_eq!(c.setstate(&ctx(ALICE), vec![ids[1]], 0), Ok(1));
    assert!(c.load_token(ids[1]).unwrap().properties & FOR_SALE == 0);
    assert_eq!(c.setstate(&ctx(BOB), vec![ids[0]], 0), Err(NftError::E17OnlyOwnerChangesState));
    assert_eq!(c.setstate(&ctx(ALICE), vec![99], 0), Err(NftError::E12TokenDoesNotExist));
}

#[test]
fn setstate_refusal_reverts() {
    let mut c = fresh();
    let with = mint_by_alice(&mut c, 1, CAN_RESELL, b"s", 0, 0).unwrap()[0];
    let without = mint_by_alice(&mut c, 1, 0, b"s", 0, 0).unwrap()[0];
    let addresses = c.addresses.len();
    assert_eq!(c.setstate(&ctx(ALICE), vec![with, without], 1), Err(NftError::E18NotResellable));
    assert!(c.load_token(with).unwrap().properties & FOR_SALE == 0);
    assert_eq!(c.addresses.len(), addresses);
    // a caller seen for the first time is not registered by a failed call
    assert_eq!(c.setstate(&ctx(CAROL), vec![with], 0), Err(NftError::E17OnlyOwnerChangesState));
    assert_eq!(c.addresses.len(), addresses);
}

#[test]
fn buy_direct_pays_owner_and_transfers() {
    let mut c = fresh();
    let id = mint_by_alice(&mut c, 1, CAN_RESELL | DIRECT_SELL, b"s", 100, 0).unwrap()[0];
    assert_eq!(c.buy(&paying(BOB, 150), id, Address::zero()), Err(NftError::E30NotForSale));
    c.setstate(&ctx(ALICE), vec![id], 1).unwrap();
    assert_eq!(c.buy(&paying(ALICE, 150), id, Address::zero()), Err(NftError::E29AlreadyOwned));
    assert_eq!(c.buy(&paying(BOB, 99), id, Address::zero()), Err(NftError::E33PaymentTooLow));
    assert_eq!(c.buy(&paying(BOB, 150), id, CAROL), Err(NftError::E55UnknownSeller));
    assert_eq!(c.buy(&paying(BOB, 150), id, Address::zero()), Ok(id));
    let t = c.load_token(id).unwrap();
    assert_eq!(c.get_addresses(t.owner), Ok(BOB));
    assert_eq!(t.properties & FOR_SALE, 0);
    assert_eq!(c.outbox.len(), 1);
    assert_eq!(c.outbox[0].to, ALICE);
    assert_eq!(c.outbox[0].amount, 150);
    assert_eq!(c.outbox[0].reason, PayReason::OwnerPay);
}

#[test]
fn buy_without_direct_sale_needs_a_dealer() {
    let mut c = fresh();
    let id = mint_by_alice(&mut c, 1, CAN_RESELL, b"s", 100, 0).unwrap()[0];
    c.setstate(&ctx(ALICE), vec![id], 1).unwrap();
    assert_eq!(c.buy(&paying(BOB, 150), id, Address::zero()), Err(NftError::E31DirectSellForbidden));
}

#[test]
fn buy_through_a_dealer_pays_commission() {
    let mut c = fresh();
    let id = mint_by_alice(&mut c, 1, CAN_RESELL, b"s", 1, 0).unwrap()[0];
    c.setstate(&ctx(ALICE), vec![id], 1).unwrap();
    assert_eq!(c.new_dealer(&ctx(CAROL)), Ok(2));
    assert_eq!(c.add_dealer(&ctx(ALICE), vec![id], &CAROL, 1), Ok(()));
    let carol_dealer = c.get_idx_dealer(c.get_idx_addresses(&CAROL));
    assert_eq!(c.dealers_map[carol_dealer - 1].find_markup(id), (1, 1));
    let commission: u128 = 10000000000000000;
    assert_eq!(c.buy(&paying(BOB, commission - 1), id, CAROL), Err(NftError::NegativeAmount));
    assert_eq!(c.buy(&paying(BOB, commission + 1), id, CAROL), Ok(id));
    assert_eq!(c.outbox.len(), 2);
    assert_eq!(c.outbox[0].to, CAROL);
    assert_eq!(c.outbox[0].amount, commission);
    assert_eq!(c.outbox[0].reason, PayReason::DealerPay);
    assert_eq!(c.outbox[1].to, ALICE);
    assert_eq!(c.outbox[1].amount, 1);
}

#[test]
fn buy_checks_required_tokens_and_limit() {
    let mut c = fresh();
    let key = mint_by_alice(&mut c, 1, CAN_TRANSFERT, b"s", 0, 0).unwrap()[0];
    let d = b"gated".to_vec();
    let gated = c
        .mint(&ctx(ALICE), 2, &b"col".to_vec(), &d, key, &b"s".to_vec(), 0, 0, CAN_RESELL | DIRECT_SELL, ALICE, ALICE, ALICE, 0, 0, 1000, 2, &egld())
        .unwrap();
    c.setstate(&ctx(ALICE), gated.clone(), 1).unwrap();
    assert_eq!(c.buy(&paying(BOB, 0), gated[0], Address::zero()), Err(NftError::E66MissingRequiredTokens));
    c.transfer(&ctx(ALICE), key, BOB).unwrap();
    assert_eq!(c.buy(&paying(BOB, 0), gated[0], Address::zero()), Ok(gated[0]));
    // Bob now holds two tokens of the collection, the limit
    let bob = c.get_idx_addresses(&BOB);
    let col = c.get_idx_str(&b"col".to_vec()) as u64;
    assert_eq!(c.count_by_collection(bob, ZERO_ADDR, col, NOW), 2);
    assert_eq!(c.buy(&paying(BOB, 0), gated[1], Address::zero()), Err(NftError::E67CollectionLimit));
    assert!(c.owner_has_required_token(bob, c.get_idx_str(&d) as u64, c.get_idx_addresses(&ALICE)));
}

#[test]
fn clone_copies_a_token() {
    let mut c = fresh();
    let id = mint_by_alice(&mut c, 1, 0, b"s", 3, 0).unwrap()[0];
    assert_eq!(c.clone(&ctx(BOB), id, 2, BOB), Err(NftError::E88OnlyMinerClones));
    c.set_addresses(&BOB);
    assert_eq!(c.clone(&ctx(ALICE), id, 2, BOB), Ok(vec![3, 4]));
    let t = c.load_token(4).unwrap();
    assert_eq!(c.get_addresses(t.owner), Ok(BOB));
    assert_eq!(t.price, 3);
}

#[test]
fn clone_with_gift_needs_payment() {
    let mut c = fresh();
    let id = mint_by_alice(&mut c, 1, 0, b"s", 0, 2).unwrap()[0];
    assert_eq!(c.clone(&paying(ALICE, 3), id, 2, BOB), Err(NftError::E05PaymentMismatch));
    assert_eq!(c.clone(&paying(ALICE, 4), id, 2, BOB), Ok(vec![3, 4]));
}

#[test]
fn update_changes_the_description() {
    let mut c = fresh();
    let id = mint_by_alice(&mut c, 1, CAN_RESELL | CAN_TRANSFERT, b"s", 0, 0).unwrap()[0];
    assert_eq!(c.update(&ctx(ALICE), id, &b"DESCRIPTION".to_vec(), &b"new".to_vec()), Ok(()));
    assert_eq!(c.get_str(c.load_token(id).unwrap().description), Ok(b"new".to_vec()));
    assert_eq!(c.update(&ctx(ALICE), id, &b"title".to_vec(), &b"other".to_vec()), Ok(()));
    assert_eq!(c.get_str(c.load_token(id).unwrap().description), Ok(b"new".to_vec()));
    assert_eq!(c.update(&ctx(ALICE), 99, &b"description".to_vec(), &b"x".to_vec()), Err(NftError::UpdateTokenDoesNotExist));
    assert_eq!(c.update(&ctx(BOB), id, &b"description".to_vec(), &b"x".to_vec()), Err(NftError::E10OnlyOwner));
    c.setstate(&ctx(ALICE), vec![id], 1).unwrap();
    assert_eq!(c.update(&ctx(ALICE), id, &b"description".to_vec(), &b"x".to_vec()), Err(NftError::E52OnSale));
    c.setstate(&ctx(ALICE), vec![id], 0).unwrap();
    c.transfer(&ctx(ALICE), id, BOB).unwrap();
    assert_eq!(c.update(&ctx(BOB), id, &b"description".to_vec(), &b"x".to_vec()), Err(NftError::OnlyMinerUpdates));
}

#[test]
fn answer_records_and_pays_gift() {
    let mut c = fresh();
    let id = mint_by_alice(&mut c, 1, CAN_TRANSFERT, b"s", 0, 4).unwrap()[0];
    c.transfer(&ctx(ALICE), id, BOB).unwrap();
    assert_eq!(c.answer(&ctx(ALICE), id, 3), Err(NftError::E10OnlyOwner));
    assert_eq!(c.answer(&ctx(BOB), id, 3), Ok(()));
    let t = c.load_token(id).unwrap();
    assert_eq!(t.resp, 3);
    assert_eq!(t.gift, 0);
    assert_eq!(c.outbox.len(), 1);
    assert_eq!(c.outbox[0].to, BOB);
    assert_eq!(c.outbox[0].amount, 4);
    assert_eq!(c.outbox[0].reason, PayReason::PayForGift);
    assert_eq!(c.answer(&ctx(BOB), 99, 3), Err(NftError::E12TokenDoesNotExist));
    let late = CallContext { caller: BOB, timestamp: 2000, payment: 0 };
    assert_eq!(c.answer(&late, id, 1), Err(NftError::E68TokenBurnt));
}

#[test]
fn answer_pays_the_gift_once() {
    let mut c = fresh();
    let id = mint_by_alice(&mut c, 1, CAN_TRANSFERT, b"s", 0, 4).unwrap()[0];
    c.transfer(&ctx(ALICE), id, BOB).unwrap();
    assert_eq!(c.answer(&ctx(BOB), id, 3), Ok(()));
    assert_eq!(c.outbox.len(), 1);
    assert_eq!(c.answer(&ctx(BOB), id, 5), Ok(()));
    assert_eq!(c.outbox.len(), 1);
    let t = c.load_token(id).unwrap();
    assert_eq!(t.resp, 5);
    assert_eq!(t.gift, 0);
}

#[test]
fn setstate_twice_changes_nothing_more() {
    let mut c = fresh();
    let ids = mint_by_alice(&mut c, 2, CAN_RESELL, b"s", 0, 0).unwrap();
    let twice = vec![ids[0], ids[1], ids[0]];
    assert_eq!(c.setstate(&ctx(ALICE), twice.clone(), 1), Ok(2));
    let before: Vec<u16> = ids.iter().map(|i| c.load_token(*i).unwrap().properties).collect();
    let addresses = c.addresses.len();
    assert_eq!(c.setstate(&ctx(ALICE), twice.clone(), 1), Ok(0));
    let after: Vec<u16> = ids.iter().map(|i| c.load_token(*i).unwrap().properties).collect();
    assert_eq!(before, after);
    assert_eq!(c.addresses.len(), addresses);
}

#[test]
fn open_reveals_the_secret() {
    let mut c = fresh();
    let id = mint_by_alice(&mut c, 1, 0, b"s3cret", 0, 0).unwrap()[0];
    assert_eq!(c.open(&ctx(BOB), id, &Vec::new()), Err(NftError::E10OnlyOwner));
    assert_eq!(c.open(&ctx(ALICE), id, &Vec::new()), Ok(b"s3cret".to_vec()));
    let empty = mint_by_alice(&mut c, 1, 0, b"", 0, 0).unwrap()[0];
    assert_eq!(c.open(&ctx(ALICE), empty, &Vec::new()), Err(NftError::E11NoSecret));
    let late = CallContext { caller: ALICE, timestamp: 5000, payment: 0 };
    assert_eq!(c.open(&late, id, &Vec::new()), Err(NftError::E23TokenBurnt));
}

#[test]
fn open_find_secret_says_won_or_lost() {
    let mut c = fresh();
    let id = mint_by_alice(&mut c, 1, FIND_SECRET, b"abc", 0, 6).unwrap()[0];
    assert_eq!(c.open(&ctx(ALICE), id, &b"x".to_vec()), Ok(b"Perdu".to_vec()));
    assert!(c.outbox.is_empty());
    assert_eq!(c.open(&ctx(ALICE), id, &b"abc".to_vec()), Ok("Gagné".as_bytes().to_vec()));
    assert_eq!(c.outbox.len(), 1);
    assert_eq!(c.outbox[0].amount, 6);
    assert_eq!(c.load_token(id).unwrap().gift, 0);
}

#[test]
fn open_self_destruction_burns() {
    let mut c = fresh();
    let id = mint_by_alice(&mut c, 1, SELF_DESTRUCTION, b"abc", 0, 0).unwrap()[0];
    assert_eq!(c.open(&ctx(ALICE), id, &Vec::new()), Ok(b"abc".to_vec()));
    assert_eq!(c.load_token(id).unwrap().owner, ZERO_ADDR);
}

#[test]
fn open_rent_returns_token_to_miner() {
    let mut c = fresh();
    let id = mint_by_alice(&mut c, 1, RENT | CAN_TRANSFERT, b"abc", 0, 0).unwrap()[0];
    c.transfer(&ctx(ALICE), id, BOB).unwrap();
    assert_eq!(c.open(&ctx(BOB), id, &Vec::new()), Ok(b"abc".to_vec()));
    assert_eq!(c.get_addresses(c.load_token(id).unwrap().owner), Ok(ALICE));
}

#[test]
fn open_rent_returns_a_non_transferable_token_too() {
    let mut c = fresh();
    let id = mint_by_alice(&mut c, 1, RENT | CAN_TRANSFERT, b"abc", 0, 0).unwrap()[0];
    c.transfer(&ctx(ALICE), id, BOB).unwrap();
    let mut t = c.load_token(id).unwrap();
    t.properties = RENT;
    c.store_token(id, t).unwrap();
    assert_eq!(c.open(&ctx(BOB), id, &Vec::new()), Ok(b"abc".to_vec()));
    let after = c.load_token(id).unwrap();
    assert_eq!(c.get_addresses(after.owner), Ok(ALICE));
    assert_eq!(after.owner, after.miner);
}

#[test]
fn dealers_register_and_accept_miners() {
    let mut c = fresh();
    assert_eq!(c.add_miner(&ctx(CAROL), &ALICE), Err(NftError::E55DealerNotListed));
    assert_eq!(c.dealer_state(&ctx(CAROL), 1), Err(NftError::DealerNotListed));
    assert_eq!(c.miners(CAROL), Ok(Vec::new()));
    assert_eq!(c.new_dealer(&ctx(CAROL)), Ok(2));
    assert_eq!(c.new_dealer(&ctx(CAROL)), Ok(2));
    assert_eq!(c.add_miner(&ctx(CAROL), &ALICE), Ok(()));
    let mut expected = CAROL.to_vec();
    expected.extend(ALICE.to_vec());
    assert_eq!(c.miners(CAROL), Ok(expected));
    assert_eq!(c.del_miner(&ctx(CAROL), &CAROL), Ok(()));
    assert_eq!(c.miners(CAROL), Ok(ALICE.to_vec()));
    assert_eq!(c.dealer_state(&ctx(CAROL), 1), Ok(()));
    let mut carol_bytes = CAROL.to_vec();
    carol_bytes.push(1);
    assert_eq!(c.find_dealer_by_addr(&CAROL), Ok(carol_bytes.clone()));
    assert_eq!(c.get_dealer_by_idx(2), Ok(carol_bytes.clone()));
    assert_eq!(c.get_dealers(&ALICE), Ok(carol_bytes.clone()));
    let mut all = Address::zero().to_vec();
    all.push(1);
    all.extend(carol_bytes);
    assert_eq!(c.get_all_dealers(), Ok(all));
    assert_eq!(c.get_dealer_by_idx(3), Err(NftError::IndexOutOfRange));
}

#[test]
fn add_dealer_and_price_refusals() {
    let mut c = fresh();
    let id = mint_by_alice(&mut c, 1, 0, b"s", 0, 0).unwrap()[0];
    assert_eq!(c.add_dealer(&ctx(ALICE), vec![id], &CAROL, 1), Err(NftError::E33UnknownDealer));
    c.new_dealer(&ctx(CAROL)).unwrap();
    assert_eq!(c.add_dealer(&ctx(BOB), vec![id], &CAROL, 1), Err(NftError::E21OnlyOwnerAddsDealer));
    assert_eq!(c.price(&ctx(BOB), vec![id], 1), Err(NftError::IndexOutOfRange));
    c.add_dealer(&ctx(ALICE), vec![id], &CAROL, 5).unwrap();
    // a new markup above the highest markup is refused, and nothing changes
    assert_eq!(c.price(&ctx(CAROL), vec![id], 6), Err(NftError::E89MarkupOutOfRange));
    let carol_dealer = c.get_idx_dealer(c.get_idx_addresses(&CAROL));
    assert_eq!(c.dealers_map[carol_dealer - 1].find_markup(id), (5, 5));
    // a token the dealer does not sell has no range above 0
    let other = mint_by_alice(&mut c, 1, 0, b"t", 0, 0).unwrap()[0];
    assert_eq!(c.price(&ctx(CAROL), vec![other], 1), Err(NftError::E89MarkupOutOfRange));
}

#[test]
fn price_changes_markup_within_range() {
    let mut c = fresh();
    let id = mint_by_alice(&mut c, 1, 0, b"s", 0, 0).unwrap()[0];
    c.new_dealer(&ctx(CAROL)).unwrap();
    c.add_dealer(&ctx(ALICE), vec![id], &CAROL, 5).unwrap();
    assert_eq!(c.price(&ctx(CAROL), vec![id], 4), Ok(()));
    let carol_dealer = c.get_idx_dealer(c.get_idx_addresses(&CAROL));
    assert_eq!(c.dealers_map[carol_dealer - 1].find_markup(id), (4, 5));
}

#[test]
fn clear_dealer_checks_owner() {
    let mut c = fresh();
    let id = mint_by_alice(&mut c, 1, 0, b"s", 0, 0).unwrap()[0];
    assert_eq!(c.clear_dealer(&ctx(BOB), id), Err(NftError::E23OnlyOwnerRemovesDealer));
    assert_eq!(c.clear_dealer(&ctx(ALICE), id), Ok(()));
    assert_eq!(c.clear_dealer(&ctx(ALICE), 0), Err(NftError::IndexOutOfRange));
}

#[test]
fn clear_dealer_takes_the_token_off_every_dealer() {
    let mut c = fresh();
    let ids = mint_by_alice(&mut c, 2, 0, b"s", 0, 0).unwrap();
    c.new_dealer(&ctx(CAROL)).unwrap();
    c.new_dealer(&ctx(BOB)).unwrap();
    c.add_dealer(&ctx(ALICE), ids.clone(), &CAROL, 5).unwrap();
    c.add_dealer(&ctx(ALICE), vec![ids[0]], &BOB, 3).unwrap();
    assert_eq!(c.clear_dealer(&ctx(ALICE), ids[0]), Ok(()));
    for d in c.dealers_map.iter() {
        assert!(!d.tokens.contains(&ids[0]));
        assert_eq!(d.tokens.len(), d.markups.len());
        assert_eq!(d.tokens.len(), d.max_markups.len());
    }
    let carol_dealer = c.get_idx_dealer(c.get_idx_addresses(&CAROL));
    let carol = &c.dealers_map[carol_dealer - 1];
    assert_eq!(carol.tokens, vec![ids[1]]);
    assert_eq!(carol.find_markup(ids[1]), (5, 5));
    assert_eq!(carol.find_markup(ids[0]), (0, 0));
}

#[test]
fn votes_read_token_zero_and_fail() {
    let c = fresh();
    assert_eq!(c.get_votes(ALICE), Err(NftError::IndexOutOfRange));
}

#[test]
fn small_views() {
    let c = fresh();
    assert!(!c.is_miner(ALICE));
    assert!(c.vec_equal(&b"a".to_vec(), &b"a".to_vec()));
    assert!(!c.vec_equal(&b"a".to_vec(), &b"b".to_vec()));
    assert!(!c._is_in(&c.tokens_map[0], &Vec::new()));
}

#[test]
fn token_bytes_layout() {
    let mut c = fresh();
    let id = mint_by_alice(&mut c, 1, SECRET_VOTE, b"s", 7, 0).unwrap()[0];
    let t = c.load_token(id).unwrap();
    let b = c.token_to_vec(t, 2, 3, id).unwrap();
    let w = std::mem::size_of::<usize>();
    assert_eq!(&b[0..4], &[0, 3, 0, 4]);
    assert_eq!(b[4 + w - 1], 4);
    let p = 4 + w;
    assert_eq!(&b[p..p + 4], &207u32.to_be_bytes());
    assert_eq!(&b[p + 4..p + 8], b"EGLD");
    assert_eq!(&b[p + 8..p + 40], &ALICE.to_vec()[..]);
    assert_eq!(b[p + 40], 1);
    assert_eq!(&b[p + 41..p + 43], &SECRET_VOTE.to_be_bytes());
    assert_eq!(b[p + 44], 0);
    assert_eq!(&b[p + 45..p + 49], &[0, 3, 0, 2]);
    assert_eq!(&b[b.len() - 7..], b"coldesc");
    assert_eq!(b.len(), p + 49 + 8 + 2 + 32 + 32 + 8 + 7);
    assert_eq!(&b[b.len() - 15..b.len() - 7], &id.to_be_bytes());
}

#[test]
fn tokens_lists_live_tokens() {
    let mut c = fresh();
    let ids = mint_by_alice(&mut c, 3, CAN_TRANSFERT, b"s", 0, 0).unwrap();
    c.burn(&ctx(ALICE), vec![ids[1]]).unwrap();
    let all = c.tokens(&ctx(ALICE), &Address::zero(), &Address::zero(), &Address::zero(), 10).unwrap();
    assert_eq!(all.len(), 2);
    assert_eq!(all[0], c.token_to_vec(c.load_token(ids[0]).unwrap(), 0, 0, ids[0]).unwrap());
    let limited = c.tokens(&ctx(ALICE), &Address::zero(), &Address::zero(), &Address::zero(), 2).unwrap();
    assert_eq!(limited.len(), 1);
    let of_bob = c.tokens(&ctx(ALICE), &Address::zero(), &BOB, &Address::zero(), 10).unwrap();
    assert!(of_bob.is_empty());
    // the filters were registered
    assert_eq!(c.get_idx_addresses(&BOB), 3);
}

#[test]
fn tokens_of_a_dealer() {
    let mut c = fresh();
    let id = mint_by_alice(&mut c, 1, 0, b"s", 0, 0).unwrap()[0];
    c.new_dealer(&ctx(CAROL)).unwrap();
    c.add_dealer(&ctx(ALICE), vec![id], &CAROL, 5).unwrap();
    let listed = c.tokens(&ctx(ALICE), &CAROL, &Address::zero(), &Address::zero(), 0).unwrap();
    assert_eq!(listed, vec![c.token_to_vec(c.load_token(id).unwrap(), 5, 5, id).unwrap()]);
}

#[test]
fn tokens_of_a_dealer_apply_owner_and_miner_filters() {
    let mut c = fresh();
    let ids = mint_by_alice(&mut c, 2, CAN_TRANSFERT, b"s", 0, 0).unwrap();
    c.new_dealer(&ctx(CAROL)).unwrap();
    c.add_dealer(&ctx(ALICE), ids.clone(), &CAROL, 5).unwrap();
    c.transfer(&ctx(ALICE), ids[1], BOB).unwrap();
    let zero = Address::zero();
    let of_alice = c.tokens(&ctx(ALICE), &CAROL, &ALICE, &zero, 0).unwrap();
    assert_eq!(of_alice, vec![c.token_to_vec(c.load_token(ids[0]).unwrap(), 5, 5, ids[0]).unwrap()]);
    let of_bob = c.tokens(&ctx(ALICE), &CAROL, &BOB, &zero, 0).unwrap();
    assert_eq!(of_bob, vec![c.token_to_vec(c.load_token(ids[1]).unwrap(), 5, 5, ids[1]).unwrap()]);
    let mined_by_alice = c.tokens(&ctx(ALICE), &CAROL, &zero, &ALICE, 0).unwrap();
    assert_eq!(mined_by_alice.len(), 2);
    let mined_by_bob = c.tokens(&ctx(ALICE), &CAROL, &zero, &BOB, 0).unwrap();
    assert!(mined_by_bob.is_empty());
}

#[test]
fn buy_in_esdt_pays_price_in_markup_units() {
    let mut c = fresh();
    let d = b"d".to_vec();
    let id = c
        .mint(&ctx(ALICE), 1, &d, &d, 0, &d, 2, 0, CAN_RESELL | DIRECT_SELL, ALICE, ALICE, ALICE, 0, 0, 1000, 0, &b"WEGLD-bd4d79".to_vec())
        .unwrap()[0];
    c.setstate(&ctx(ALICE), vec![id], 1).unwrap();
    assert_eq!(c.buy(&paying(BOB, 0), id, Address::zero()), Ok(id));
    assert_eq!(c.outbox.len(), 1);
    assert_eq!(c.outbox[0].money, b"WEGLD-bd4d79".to_vec());
    assert_eq!(c.outbox[0].amount, 20000000000000000);
}

#[test]
fn buy_through_a_dealer_shares_with_the_miner() {
    let mut c = fresh();
    let d = b"d".to_vec();
    let id = c
        .mint(&ctx(ALICE), 1, &d, &d, 0, &d, 0, 0, CAN_RESELL | CAN_TRANSFERT, ALICE, ALICE, ALICE, 3, 0, 1000, 0, &egld())
        .unwrap()[0];
    c.transfer(&ctx(ALICE), id, BOB).unwrap();
    c.setstate(&ctx(BOB), vec![id], 1).unwrap();
    c.new_dealer(&ctx(CAROL)).unwrap();
    c.add_dealer(&ctx(BOB), vec![id], &CAROL, 1).unwrap();
    let commission: u128 = 10000000000000000;
    assert_eq!(c.buy(&paying(SC, commission), id, CAROL), Ok(id));
    assert_eq!(c.outbox.len(), 2);
    assert_eq!(c.outbox[0].to, ALICE);
    assert_eq!(c.outbox[0].amount, 3000000000000);
    assert_eq!(c.outbox[0].reason, PayReason::MinerPay);
    assert_eq!(c.outbox[1].to, CAROL);
    assert_eq!(c.outbox[1].amount, commission - 3000000000000);
    assert_eq!(c.get_addresses(c.load_token(id).unwrap().owner), Ok(SC));
}

#[test]
fn store_then_load_token() {
    let mut c = fresh();
    let ids = mint_by_alice(&mut c, 2, 0, b"s", 1, 0).unwrap();
    let mut t = c.load_token(ids[0]).unwrap();
    t.price = 42;
    assert_eq!(c.store_token(ids[0], t), Ok(()));
    assert_eq!(c.load_token(ids[0]).unwrap().price, 42);
    assert_eq!(c.load_token(ids[1]).unwrap().price, 1);
    let t = c.load_token(ids[1]).unwrap();
    assert_eq!(c.store_token(99, t), Err(NftError::IndexOutOfRange));
}

#[test]
fn store_then_load_dealer() {
    let mut c = fresh();
    let mut d = Dealer::new(5);
    d.add_token(2, 1, 2);
    assert_eq!(c.store_dealer(1, d), Ok(()));
    let back = c.load_dealer(1).unwrap();
    assert_eq!(back.addr, 5);
    assert_eq!(back.find_markup(2), (1, 2));
    assert_eq!(c.store_dealer(2, Dealer::new(6)), Err(NftError::IndexOutOfRange));
    assert!(c.load_dealer(0).is_err());
}

#[test]
fn send_money_queues_a_payment() {
    let mut c = fresh();
    assert_eq!(c.send_money(1, &BOB, 12, PayReason::DealerPay), Ok(()));
    assert_eq!(c.outbox.len(), 1);
    assert_eq!(c.outbox[0].money, egld());
    assert_eq!(c.outbox[0].amount, 12);
    assert_eq!(c.send_money(2, &BOB, 12, PayReason::DealerPay), Err(NftError::IndexOutOfRange));
    assert_eq!(c.outbox.len(), 1);
    assert_eq!(PayReason::OwnerPay.comment(), b"owner pay".to_vec());
    assert_eq!(PayReason::PayForGift.comment(), b"pay for gift".to_vec());
}

#[test]
fn approvals_set_and_clear() {
    let mut c = fresh();
    assert!(c.approval_is_empty(2));
    c.set_approval(2, &BOB);
    assert_eq!(c.get_approval(2), Ok(BOB));
    c.perform_revoke_approval(2);
    assert!(c.approval_is_empty(2));
    c.set_approval(3, &CAROL);
    c.clear_approval(3);
    assert!(c.approval_is_empty(3));
}

#[test]
fn perform_mint_records_status_and_required_token() {
    let mut c = fresh();
    let ids = c.perform_mint(1, ALICE, BOB, CAROL, &b"c".to_vec(), &b"d".to_vec(), 1, &b"s".to_vec(), 9, 0, 0, 0, 10, 0, &egld(), 4, 100);
    assert_eq!(ids, vec![2]);
    let t = c.load_token(2).unwrap();
    assert_eq!(t.status, 4);
    assert_eq!(t.required, vec![1]);
    assert_eq!(t.deadline, 110);
    assert_eq!(c.get_addresses(t.owner), Ok(BOB));
    assert_eq!(c.get_addresses(t.miner), Ok(ALICE));
    assert_eq!(c.get_addresses(t.creator), Ok(CAROL));
}

#[test]
fn snapshot_is_equal() {
    let mut c = fresh();
    mint_by_alice(&mut c, 1, 0, b"s", 0, 0).unwrap();
    let s = c.snapshot();
    assert_eq!(s.addresses, c.addresses);
    assert_eq!(s.strs, c.strs);
    assert_eq!(s.tokens_map.len(), c.tokens_map.len());
}
