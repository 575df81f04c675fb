use exchange_auth::amount::{check_reservation, Amount};
use exchange_auth::balance::{check_amounts, valid_amount, Balance, BalanceError};
use exchange_auth::error::StorageError;
use exchange_auth::order::{OrderStatus, OrderTable, Side};

fn amt(mantissa: i128, scale: u32) -> Amount {
    Amount { mantissa, scale }
}

#[test]
fn new_order_is_open() {
    let mut t = OrderTable::new();
    let o = t.create(1, Side::Buy, amt(10050, 2), amt(3, 0), 100).unwrap();
    assert_eq!(o.status, OrderStatus::Open);
    assert_eq!(o.user_id, 1);
    assert_eq!(t.find_by_id(o.id), Some(o));
}

#[test]
fn cancel_open_order_then_again_fails() {
    let mut t = OrderTable::new();
    let o = t.create(1, Side::Sell, amt(1, 0), amt(1, 0), 100).unwrap();
    let c = t.cancel_order(o.id, 1).unwrap();
    assert_eq!(c.status, OrderStatus::Cancelled);
    assert_eq!(t.cancel_order(o.id, 1), Err(StorageError::NoRowMatched));
    assert_eq!(t.find_by_id(o.id).unwrap().status, OrderStatus::Cancelled);
}

#[test]
fn cancel_filled_order_fails_and_keeps_status() {
    let mut t = OrderTable::new();
    let o = t.create(1, Side::Buy, amt(1, 0), amt(1, 0), 100).unwrap();
    assert_eq!(t.update_status(o.id, OrderStatus::Filled).unwrap().status, OrderStatus::Filled);
    assert_eq!(t.cancel_order(o.id, 1), Err(StorageError::NoRowMatched));
    assert_eq!(t.find_by_id(o.id).unwrap().status, OrderStatus::Filled);
}

#[test]
fn status_never_moves_back_to_open_or_out_of_a_final_state() {
    let mut t = OrderTable::new();
    let o = t.create(1, Side::Buy, amt(1, 0), amt(1, 0), 100).unwrap();
    assert_eq!(t.update_status(o.id, OrderStatus::Open), Err(StorageError::NoRowMatched));
    assert_eq!(t.update_status(o.id, OrderStatus::Cancelled).unwrap().status, OrderStatus::Cancelled);
    assert_eq!(t.update_status(o.id, OrderStatus::Filled), Err(StorageError::NoRowMatched));
    assert_eq!(t.update_status(o.id, OrderStatus::Open), Err(StorageError::NoRowMatched));
    assert_eq!(t.find_by_id(o.id).unwrap().status, OrderStatus::Cancelled);
}

#[test]
fn orders_created_out_of_clock_order_list_by_creation_time() {
    let mut t = OrderTable::new();
    let late = t.create(1, Side::Buy, amt(1, 0), amt(1, 0), 300).unwrap();
    let early = t.create(1, Side::Buy, amt(1, 0), amt(1, 0), 100).unwrap();
    let middle = t.create(1, Side::Sell, amt(1, 0), amt(1, 0), 200).unwrap();
    let open: Vec<u128> = t.find_open_orders().iter().map(|o| o.id).collect();
    assert_eq!(open, vec![early.id, middle.id, late.id]);
    let mine: Vec<u128> = t.find_by_user(1).iter().map(|o| o.id).collect();
    assert_eq!(mine, vec![late.id, middle.id, early.id]);
}

#[test]
fn transition_rule() {
    assert!(OrderStatus::Open.can_move_to(OrderStatus::Filled));
    assert!(OrderStatus::Open.can_move_to(OrderStatus::Cancelled));
    assert!(!OrderStatus::Open.can_move_to(OrderStatus::Open));
    assert!(!OrderStatus::Filled.can_move_to(OrderStatus::Cancelled));
}

#[test]
fn amounts_checked_before_write() {
    assert_eq!(check_amounts(amt(5, 0), amt(5, 0)), Ok(()));
    assert_eq!(check_amounts(amt(5, 0), amt(1, 29)), Err(BalanceError::AmountOutOfRange));
    assert_eq!(check_amounts(amt(5, 0), amt(-1, 0)), Err(BalanceError::ReservationOutOfRange));
}

#[test]
fn insert_new_refuses_taken_id() {
    let mut t = OrderTable::new();
    let o = t.insert_new(5, 1, Side::Buy, amt(1, 0), amt(1, 0), 10).unwrap();
    assert_eq!(o.id, 5);
    assert_eq!(t.insert_new(5, 2, Side::Sell, amt(1, 0), amt(1, 0), 11), Err(StorageError::UniqueViolation));
    assert_eq!(t.find_by_user(2), vec![]);
}

#[test]
fn cancel_by_other_user_fails() {
    let mut t = OrderTable::new();
    let o = t.create(1, Side::Buy, amt(1, 0), amt(1, 0), 100).unwrap();
    assert_eq!(t.cancel_order(o.id, 2), Err(StorageError::NoRowMatched));
    assert_eq!(t.find_by_id(o.id).unwrap().status, OrderStatus::Open);
}

#[test]
fn unknown_order_update_fails() {
    let mut t = OrderTable::new();
    assert_eq!(t.update_status(99, OrderStatus::Filled), Err(StorageError::NoRowMatched));
    assert_eq!(t.find_by_id(99), None);
}

#[test]
fn open_orders_oldest_first_and_user_orders_newest_first() {
    let mut t = OrderTable::new();
    let a = t.create(1, Side::Buy, amt(1, 0), amt(1, 0), 1).unwrap();
    let b = t.create(2, Side::Sell, amt(2, 0), amt(1, 0), 2).unwrap();
    let c = t.create(1, Side::Buy, amt(3, 0), amt(1, 0), 3).unwrap();
    t.cancel_order(b.id, 2).unwrap();
    let open: Vec<u128> = t.find_open_orders().iter().map(|o| o.id).collect();
    assert_eq!(open, vec![a.id, c.id]);
    let mine: Vec<u128> = t.find_by_user(1).iter().map(|o| o.id).collect();
    assert_eq!(mine, vec![c.id, a.id]);
    assert!(t.find_by_user(3).is_empty());
}

#[test]
fn status_text_round_trip() {
    for s in [OrderStatus::Open, OrderStatus::Filled, OrderStatus::Cancelled] {
        assert_eq!(OrderStatus::parse(s.as_str()), Some(s));
    }
    assert_eq!(OrderStatus::Cancelled.as_str(), "cancelled");
    assert_eq!(OrderStatus::parse("closed"), None);
}

#[test]
fn side_text_round_trip() {
    assert_eq!(Side::parse(Side::Buy.as_str()), Some(Side::Buy));
    assert_eq!(Side::parse("sell"), Some(Side::Sell));
    assert_eq!(Side::Sell.as_str(), "sell");
    assert_eq!(Side::parse("Buy"), None);
}

#[test]
fn reservation_compares_across_scales() {
    assert!(check_reservation(amt(150, 2), amt(15, 1)));
    assert!(!check_reservation(amt(150, 2), amt(151, 2)));
    assert!(!check_reservation(amt(150, 2), amt(-1, 0)));
    assert!(check_reservation(amt(0, 0), amt(0, 5)));
}

#[test]
fn balance_create_and_update() {
    let mut b = Balance::create(1, "BTC", amt(5, 0), 10).unwrap();
    assert_eq!(b.reserved.mantissa, 0);
    assert_eq!(b.asset, "BTC");
    assert_eq!(b.update_amounts(amt(5, 0), amt(6, 0), 11), Err(BalanceError::ReservationOutOfRange));
    assert_eq!(b.updated_at, 10);
    assert_eq!(b.update_amounts(amt(5, 0), amt(45, 1), 12), Ok(()));
    assert_eq!(b.reserved, amt(45, 1));
    assert_eq!(b.updated_at, 12);
}

#[test]
fn balance_amount_limits() {
    assert!(matches!(Balance::create(1, "BTC", amt(1, 29), 0), Err(BalanceError::AmountOutOfRange)));
    assert!(matches!(Balance::create(1, "BTC", amt(-1, 0), 0), Err(BalanceError::ReservationOutOfRange)));
    let max = 0xFFFF_FFFF_FFFF_FFFF_FFFF_FFFF_i128;
    assert!(valid_amount(amt(max, 28)));
    assert!(!valid_amount(amt(max + 1, 0)));
}
