use wishlist::{AccountId, Amount, Error, Transfer, WishListItem, Wishlist, WishlistAdded};

fn alice() -> AccountId {
    AccountId::new([1u8; 20])
}

fn bob() -> AccountId {
    AccountId::new([2u8; 20])
}

fn charlie() -> AccountId {
    AccountId::new([3u8; 20])
}

fn amount(v: u64) -> Amount {
    Amount::from_u64(v)
}

fn raised_of(ledger: &Wishlist, id: u32) -> Amount {
    ledger.get_wishlist_item(id).unwrap().raised
}

#[test]
fn default_works() {
    let wishlist = Wishlist::default();
    assert_eq!(wishlist.next_item_id(), 0_u32);
}

#[test]
fn add_wishlist_value_must_match_target() {
    let mut wishlist = Wishlist::default();
    let target = amount(1000);
    let end_date = 1752797402;
    let description = String::from("Test Wishlist");

    let result = wishlist.add_wishlist_item(description, end_date, target, Amount::zero(), alice());
    assert!(result.is_err(), "Expected error for no transfer value");
    assert!(result.err() == Some(Error::InvalidContribution));

    let description = String::from("Test < 10% Wishlist");
    let result = wishlist.add_wishlist_item(description, end_date, target, amount(50), alice());
    assert!(result.is_err(), "Expected error for insufficient transfer value");
    assert!(result.err() == Some(Error::InvalidContribution));

    let description = String::from("Test >= 10% Wishlist");
    let result = wishlist.add_wishlist_item(description, end_date, target, amount(100), alice());
    assert!(result.is_ok(), "Expected successful addition of wishlist item");
    assert_eq!(wishlist.next_item_id(), 1_u32);
}

#[test]
fn add_wishlist_should_succeed() {
    let mut contract = Wishlist::default();
    let description = String::from("Add Wishlist should succeed");
    let end_date = 1752798324779;
    let target = amount(1000);

    let result = contract.add_wishlist_item(description, end_date, target, amount(115), alice());

    assert!(result.is_ok(), "is should be Ok");
    assert_eq!(result, Ok(WishlistAdded { id: 0, owner: alice() }));
    assert_eq!(contract.next_item_id(), 1_u32);
    let item = contract.get_wishlist_item(0);
    assert!(item.is_ok(), "Item should be found");
    assert_eq!(item.unwrap().raised, amount(115));
}

#[test]
fn fund_wish_should_succeed() {
    let mut wishlist = Wishlist::default();

    let _ = wishlist.add_wishlist_item(
        String::from("Wishlist Item 1"),
        1752798324779,
        amount(1000),
        amount(125),
        alice(),
    );

    let result = wishlist.fund_wish(0, Amount::zero(), alice());
    assert!(result.is_err(), "Funding will not succeed");
    assert_eq!(result.err(), Some(Error::InvalidContribution));

    let result = wishlist.fund_wish(1, amount(10), alice());
    assert!(result.is_err(), "ID must exist");
    assert_eq!(result.err(), Some(Error::WishNotFound));

    let result = wishlist.fund_wish(0, amount(10), alice());
    assert!(result.is_ok(), "Funding should succeed");
    assert_eq!(wishlist.next_item_id(), 1_u32);
    assert_eq!(raised_of(&wishlist, 0), amount(135));

    let result = wishlist.fund_wish(0, amount(10), bob());
    assert!(result.is_ok(), "Funding should succeed");
    assert_eq!(raised_of(&wishlist, 0), amount(135));
    assert_eq!(wishlist.get_wishlist_item(0).unwrap().contributors.len(), 1);
    assert_eq!(wishlist.get_wishlist_item(0).unwrap().contributors[0].0, bob());
}

#[test]
fn claim_wish_fail_for_error_conditions() {
    let mut wishlist = Wishlist::default();

    let _ = wishlist.add_wishlist_item(
        String::from("Wishlist Item"),
        1752800402,
        amount(1000),
        amount(120),
        alice(),
    );
    let _ = wishlist.fund_wish(0, amount(100), alice());

    assert!(wishlist.can_claim(0, alice(), 1752800500));
    let result = wishlist.claim_wish(0, alice(), 1752800500, true);
    assert!(result.is_err(), "Claiming wish should fail");
    assert_eq!(result.err(), Some(Error::InvalidContribution));
}

#[test]
fn claim_wish_should_succeed() {
    let mut wishlist = Wishlist::default();
    let _ = wishlist.add_wishlist_item(
        String::from("Wishlist Item"),
        1752800402,
        amount(3),
        amount(2),
        alice(),
    );

    let _ = wishlist.fund_wish(0, amount(2), alice());

    assert!(wishlist.can_claim(0, alice(), 1752800500));
    let payout = wishlist.claim_payout(0, alice(), 1752800500);
    assert_eq!(payout, Ok(Transfer { to: alice(), amount: amount(4) }));
    let result = wishlist.claim_wish(0, alice(), 1752800500, true);
    assert!(result.is_ok(), "Claiming wish should succeed");
    assert_eq!(wishlist.next_item_id(), 1_u32);
    assert_eq!(wishlist.get_wishlist_item(0).err(), Some(Error::WishNotFound));
}

#[test]
fn new_ledger_is_empty() {
    let ledger = Wishlist::new();
    assert_eq!(ledger.next_item_id(), 0);
    assert_eq!(ledger.get_wishlist_item(0).err(), Some(Error::WishNotFound));
    assert_eq!(ledger.get_contributors_raised(0), None);
}

#[test]
fn add_stores_every_field() {
    let mut ledger = Wishlist::new();
    let notice = ledger.add_wishlist_item(String::from("bike"), 77, amount(40), amount(4), bob());
    assert_eq!(notice, Ok(WishlistAdded { id: 0, owner: bob() }));
    let item = ledger.get_wishlist_item(0).unwrap();
    assert_eq!(
        item,
        WishListItem {
            id: 0,
            description: String::from("bike"),
            owner: bob(),
            target: amount(40),
            end_date: 77,
            raised: amount(4),
            contributors: Vec::new(),
        }
    );
}

#[test]
fn add_gives_identifiers_in_turn() {
    let mut ledger = Wishlist::new();
    for expected in 0..5u32 {
        let notice = ledger
            .add_wishlist_item(String::from("w"), 1, amount(10), amount(1), alice())
            .unwrap();
        assert_eq!(notice.id, expected);
        assert_eq!(ledger.next_item_id(), expected + 1);
        assert_eq!(ledger.get_wishlist_item(expected).unwrap().id, expected);
    }
}

#[test]
fn add_with_no_target_is_refused() {
    let mut ledger = Wishlist::new();
    let r = ledger.add_wishlist_item(String::from("w"), 1, Amount::zero(), amount(500), alice());
    assert_eq!(r, Err(Error::InvalidTarget));
    assert_eq!(ledger.next_item_id(), 0);
    assert_eq!(ledger.get_wishlist_item(0).err(), Some(Error::WishNotFound));
}

#[test]
fn add_asks_for_a_tenth_rounded_down() {
    let mut ledger = Wishlist::new();
    let r = ledger.add_wishlist_item(String::from("w"), 1, amount(1000), amount(99), alice());
    assert_eq!(r, Err(Error::InvalidContribution));
    let r = ledger.add_wishlist_item(String::from("w"), 1, amount(1009), amount(100), alice());
    assert!(r.is_ok());
    let r = ledger.add_wishlist_item(String::from("w"), 1, amount(1010), amount(100), alice());
    assert_eq!(r, Err(Error::InvalidContribution));
    let r = ledger.add_wishlist_item(String::from("w"), 1, amount(9), Amount::zero(), alice());
    assert!(r.is_ok());
    assert_eq!(ledger.next_item_id(), 2);
}

#[test]
fn add_compares_amounts_beyond_one_limb() {
    let mut ledger = Wishlist::new();
    // The target is ten times two to the power 64, so that a tenth of it is
    // two to the power 64.
    let target = Amount { l0: 0, l1: 10, l2: 0, l3: 0 };
    let below = Amount { l0: u64::MAX, l1: 0, l2: 0, l3: 0 };
    let tenth = Amount { l0: 0, l1: 1, l2: 0, l3: 0 };
    let r = ledger.add_wishlist_item(String::from("w"), 1, target, below, alice());
    assert_eq!(r, Err(Error::InvalidContribution));
    let r = ledger.add_wishlist_item(String::from("w"), 1, target, tenth, alice());
    assert!(r.is_ok());
    // A value with a large low limb and no high limb is below the target's tenth.
    let target = Amount { l0: 0, l1: 0, l2: 0, l3: 10 };
    let value = Amount { l0: u64::MAX, l1: u64::MAX, l2: u64::MAX, l3: 0 };
    let r = ledger.add_wishlist_item(String::from("w"), 1, target, value, alice());
    assert_eq!(r, Err(Error::InvalidContribution));
}

#[test]
fn fund_with_nothing_is_refused_for_every_caller() {
    let mut ledger = Wishlist::new();
    let _ = ledger.add_wishlist_item(String::from("w"), 1, amount(10), amount(1), alice());
    assert_eq!(ledger.fund_wish(0, Amount::zero(), alice()), Err(Error::InvalidContribution));
    assert_eq!(ledger.fund_wish(0, Amount::zero(), bob()), Err(Error::InvalidContribution));
    assert_eq!(ledger.fund_wish(9, Amount::zero(), bob()), Err(Error::InvalidContribution));
    assert_eq!(raised_of(&ledger, 0), amount(1));
}

#[test]
fn fund_twice_accumulates_in_one_entry() {
    let mut ledger = Wishlist::new();
    let _ = ledger.add_wishlist_item(String::from("w"), 1, amount(100), amount(10), alice());
    assert_eq!(ledger.fund_wish(0, amount(7), bob()), Ok(()));
    assert_eq!(ledger.fund_wish(0, amount(5), charlie()), Ok(()));
    assert_eq!(ledger.fund_wish(0, amount(8), bob()), Ok(()));
    let item = ledger.get_wishlist_item(0).unwrap();
    assert_eq!(item.contributors, vec![(bob(), amount(15)), (charlie(), amount(5))]);
    assert_eq!(item.raised, amount(10));
    assert_eq!(ledger.get_contributors_raised(0), Some(amount(20)));
}

#[test]
fn fund_carries_into_the_next_limb() {
    let mut ledger = Wishlist::new();
    let _ = ledger.add_wishlist_item(String::from("w"), 1, amount(10), amount(u64::MAX), alice());
    assert!(ledger.can_fund(0, amount(1), alice()));
    assert_eq!(ledger.fund_wish(0, amount(1), alice()), Ok(()));
    assert_eq!(raised_of(&ledger, 0), Amount { l0: 0, l1: 1, l2: 0, l3: 0 });
}

#[test]
fn fund_is_open_after_the_end_date() {
    let mut ledger = Wishlist::new();
    let _ = ledger.add_wishlist_item(String::from("w"), 0, amount(10), amount(1), alice());
    assert_eq!(ledger.fund_wish(0, amount(3), bob()), Ok(()));
    assert_eq!(ledger.get_contributors_raised(0), Some(amount(3)));
}

#[test]
fn can_fund_tells_a_sum_that_does_not_fit() {
    let mut ledger = Wishlist::new();
    let most = Amount { l0: u64::MAX, l1: u64::MAX, l2: u64::MAX, l3: u64::MAX };
    let _ = ledger.add_wishlist_item(String::from("w"), 1, amount(10), most, alice());
    assert!(!ledger.can_fund(0, amount(1), alice()));
    assert!(ledger.can_fund(0, amount(1), bob()));
    assert_eq!(ledger.fund_wish(0, most, bob()), Ok(()));
    assert!(!ledger.can_fund(0, amount(1), bob()));
    assert!(ledger.can_fund(0, amount(1), charlie()));
    assert!(ledger.can_fund(0, Amount::zero(), bob()));
    assert!(ledger.can_fund(5, amount(1), bob()));
    assert_eq!(ledger.get_wishlist_item(0).unwrap().checked_worth(), None);
    assert!(!ledger.can_pay_claim(0, alice()));
    assert!(!ledger.can_split(0, bob()));
}

#[test]
fn claim_by_another_account_is_not_found() {
    let mut ledger = Wishlist::new();
    let _ = ledger.add_wishlist_item(String::from("w"), 5, amount(3), amount(4), alice());
    assert!(ledger.can_claim(0, bob(), 0));
    assert_eq!(ledger.claim_payout(0, bob(), 0), Err(Error::WishNotFound));
    assert_eq!(ledger.claim_wish(0, bob(), 0, true), Err(Error::WishNotFound));
    assert_eq!(ledger.claim_wish(1, alice(), 9, true), Err(Error::WishNotFound));
    assert!(ledger.get_wishlist_item(0).is_ok());
}

#[test]
fn claim_before_the_end_date_is_told_apart() {
    let mut ledger = Wishlist::new();
    let _ = ledger.add_wishlist_item(String::from("w"), 5, amount(3), amount(4), alice());
    assert!(!ledger.can_claim(0, alice(), 4));
    assert!(ledger.can_claim(0, alice(), 5));
    assert!(ledger.can_claim(0, alice(), 6));
    assert!(ledger.can_claim(7, alice(), 0));
}

#[test]
fn claim_of_an_unmet_wish_keeps_it() {
    let mut ledger = Wishlist::new();
    let _ = ledger.add_wishlist_item(String::from("w"), 5, amount(30), amount(4), alice());
    let _ = ledger.fund_wish(0, amount(100), bob());
    let before = ledger.get_wishlist_item(0).unwrap();
    assert_eq!(ledger.claim_payout(0, alice(), 5), Err(Error::InvalidContribution));
    assert_eq!(ledger.claim_wish(0, alice(), 5, true), Err(Error::InvalidContribution));
    assert_eq!(ledger.get_wishlist_item(0), Ok(before));
}

#[test]
fn claim_pays_all_that_the_wish_holds() {
    let mut ledger = Wishlist::new();
    let _ = ledger.add_wishlist_item(String::from("w"), 5, amount(30), amount(30), alice());
    let _ = ledger.fund_wish(0, amount(11), bob());
    let _ = ledger.fund_wish(0, amount(12), charlie());
    assert!(ledger.can_pay_claim(0, alice()));
    assert_eq!(
        ledger.claim_payout(0, alice(), 5),
        Ok(Transfer { to: alice(), amount: amount(53) })
    );
    assert!(ledger.get_wishlist_item(0).is_ok());
}

#[test]
fn claim_with_a_failed_payment_keeps_the_wish() {
    let mut ledger = Wishlist::new();
    let _ = ledger.add_wishlist_item(String::from("w"), 5, amount(30), amount(30), alice());
    let before = ledger.get_wishlist_item(0).unwrap();
    assert_eq!(ledger.claim_wish(0, alice(), 5, false), Err(Error::InvalidContribution));
    assert_eq!(ledger.get_wishlist_item(0), Ok(before));
    assert_eq!(ledger.claim_wish(0, alice(), 5, true), Ok(()));
    assert_eq!(ledger.claim_wish(0, alice(), 5, true), Err(Error::WishNotFound));
    assert_eq!(ledger.fund_wish(0, amount(1), alice()), Err(Error::WishNotFound));
}

#[test]
fn settled_identifier_is_not_given_again() {
    let mut ledger = Wishlist::new();
    let _ = ledger.add_wishlist_item(String::from("a"), 5, amount(3), amount(3), alice());
    assert_eq!(ledger.claim_wish(0, alice(), 5, true), Ok(()));
    let notice = ledger.add_wishlist_item(String::from("b"), 5, amount(3), amount(3), bob());
    assert_eq!(notice, Ok(WishlistAdded { id: 1, owner: bob() }));
    assert_eq!(ledger.get_wishlist_item(0).err(), Some(Error::WishNotFound));
    assert_eq!(ledger.get_wishlist_item(1).unwrap().owner, bob());
    assert_eq!(ledger.next_item_id(), 2);
}

#[test]
fn split_sends_each_pledge_as_hundredths_of_the_whole() {
    let mut ledger = Wishlist::new();
    let _ = ledger.add_wishlist_item(String::from("w"), 5, amount(20), amount(2), alice());
    let _ = ledger.fund_wish(0, amount(3), bob());
    let _ = ledger.fund_wish(0, amount(4), charlie());
    assert!(ledger.can_split(0, bob()));
    let transfers = ledger.split_raised_wish(0, bob());
    assert_eq!(
        transfers,
        Ok(vec![
            Transfer { to: bob(), amount: amount(33) },
            Transfer { to: charlie(), amount: amount(44) },
        ])
    );
    assert_eq!(ledger.get_wishlist_item(0).err(), Some(Error::WishNotFound));
    assert_eq!(ledger.split_raised_wish(0, bob()).err(), Some(Error::WishNotFound));
}

#[test]
fn split_works_on_amounts_beyond_one_limb() {
    let mut ledger = Wishlist::new();
    let big = Amount { l0: 0, l1: 1, l2: 0, l3: 0 };
    let _ = ledger.add_wishlist_item(String::from("w"), 5, big, big, alice());
    let _ = ledger.fund_wish(0, big, bob());
    assert!(ledger.can_split(0, bob()));
    let transfers = ledger.split_raised_wish(0, bob());
    assert_eq!(transfers, Ok(vec![Transfer { to: bob(), amount: amount(50) }]));
}

#[test]
fn split_is_for_contributors_only() {
    let mut ledger = Wishlist::new();
    let _ = ledger.add_wishlist_item(String::from("w"), 5, amount(20), amount(2), alice());
    let _ = ledger.fund_wish(0, amount(3), bob());
    assert!(!ledger.can_split(0, alice()));
    assert!(!ledger.can_split(0, charlie()));
    assert!(ledger.can_split(0, bob()));
    assert!(ledger.can_split(3, charlie()));
    assert_eq!(ledger.split_raised_wish(3, charlie()).err(), Some(Error::WishNotFound));
    let item = ledger.get_wishlist_item(0).unwrap();
    assert!(item.is_contributor(&bob()));
    assert!(!item.is_contributor(&alice()));
    assert_eq!(item.contributors, vec![(bob(), amount(3))]);
}

#[test]
fn can_split_tells_a_product_that_does_not_fit() {
    let mut ledger = Wishlist::new();
    let large = Amount { l0: 0, l1: 0, l2: 0, l3: 1 << 62 };
    let _ = ledger.add_wishlist_item(String::from("w"), 5, amount(20), amount(2), alice());
    let _ = ledger.fund_wish(0, large, bob());
    assert_eq!(ledger.get_contributors_raised(0), Some(large));
    assert!(!ledger.can_split(0, bob()));
    assert!(ledger.can_pay_claim(0, alice()));
}

#[test]
fn accounts_are_told_apart_by_every_byte() {
    let mut bytes = [7u8; 20];
    let a = AccountId::new(bytes);
    assert!(a.same_as(&AccountId::new([7u8; 20])));
    bytes[19] = 8;
    assert!(!a.same_as(&AccountId::new(bytes)));
    bytes[19] = 7;
    bytes[0] = 6;
    assert!(!a.same_as(&AccountId::new(bytes)));
}

#[test]
fn amounts_from_small_numbers() {
    assert!(Amount::zero().is_zero());
    assert!(Amount::from_u64(0).is_zero());
    assert!(!Amount::from_u64(1).is_zero());
    assert!(!Amount { l0: 0, l1: 0, l2: 0, l3: 1 }.is_zero());
    assert_eq!(Amount::from_u64(9), Amount { l0: 9, l1: 0, l2: 0, l3: 0 });
}

#[test]
fn duplicate_is_equal() {
    let mut ledger = Wishlist::new();
    let _ = ledger.add_wishlist_item(String::from("w"), 5, amount(20), amount(2), alice());
    let _ = ledger.fund_wish(0, amount(3), bob());
    let item = ledger.get_wishlist_item(0).unwrap();
    assert_eq!(item.duplicate(), item);
    assert_eq!(item.funded(&bob(), amount(1)).contributors, vec![(bob(), amount(4))]);
    assert_eq!(item.contributors_raised(), amount(3));
    assert_eq!(item.checked_worth(), Some(amount(5)));
}

#[test]
fn amounts_from_large_numbers() {
    assert_eq!(Amount::from_u128(5), amount(5));
    assert_eq!(Amount::from_u128(1u128 << 64), Amount { l0: 0, l1: 1, l2: 0, l3: 0 });
    assert_eq!(
        Amount::from_u128(u128::MAX),
        Amount { l0: u64::MAX, l1: u64::MAX, l2: 0, l3: 0 }
    );
    assert_eq!(Amount::from_u128(u128::MAX).to_u128(), Some(u128::MAX));
    assert_eq!(Amount { l0: 3, l1: 2, l2: 0, l3: 0 }.to_u128(), Some((2u128 << 64) + 3));
    assert_eq!(Amount { l0: 0, l1: 0, l2: 1, l3: 0 }.to_u128(), None);
    assert_eq!(Amount { l0: 0, l1: 0, l2: 0, l3: 1 }.to_u128(), None);
}

#[test]
fn create_then_fund_by_owner_and_by_another() {
    let mut ledger = Wishlist::new();
    let notice = ledger.add_wishlist_item(String::from("w"), 9, amount(1000), amount(115), alice());
    assert_eq!(notice, Ok(WishlistAdded { id: 0, owner: alice() }));
    assert_eq!(ledger.next_item_id(), 1);
    assert_eq!(raised_of(&ledger, 0), amount(115));
    assert_eq!(ledger.fund_wish(0, Amount::zero(), alice()), Err(Error::InvalidContribution));
    assert_eq!(ledger.fund_wish(1, amount(10), alice()), Err(Error::WishNotFound));
    assert_eq!(ledger.fund_wish(0, amount(10), alice()), Ok(()));
    assert_eq!(raised_of(&ledger, 0), amount(125));
    assert_eq!(ledger.fund_wish(0, amount(10), bob()), Ok(()));
    let item = ledger.get_wishlist_item(0).unwrap();
    assert_eq!(item.raised, amount(125));
    assert_eq!(item.contributors, vec![(bob(), amount(10))]);
}
