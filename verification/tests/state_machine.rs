use infi_erp::items::{Item, ItemStatus, TransitionError};
use infi_erp::money::Money;
use infi_erp::pieces::PieceKind;

#[test]
fn new_item_is_pending_and_unplaced() {
    let item = Item::new(PieceKind::P1);
    assert_eq!(item.status(), ItemStatus::Pending);
    assert_eq!(item.piece_kind(), PieceKind::P1);
    assert!(item.order_id().is_none());
    assert!(item.warehouse().is_none());
    assert!(item.production_line().is_none());
    assert_eq!(item.get_cost().cents, 0);
}

#[test]
fn set_order_binds_the_item() {
    let item = Item::new(PieceKind::P5).set_order(Some(77));
    assert_eq!(item.order_id(), Some(77));
}

#[test]
fn produce_moves_pending_to_in_transit() {
    let item = Item::new(PieceKind::P3);
    let item = item.produce(Money::from_cents(40), "L2".to_string()).unwrap();
    assert_eq!(item.status(), ItemStatus::InTransit);
    assert_eq!(item.production_line().as_deref(), Some("L2"));
    assert!(item.warehouse().is_none());
    assert_eq!(item.get_cost().cents, 40);
}

#[test]
fn produce_refuses_non_pending() {
    let item = Item::new(PieceKind::P3)
        .produce(Money::zero(), "L1".to_string())
        .unwrap();
    let err = item.produce(Money::zero(), "L1".to_string()).unwrap_err();
    assert_eq!(err, TransitionError::NotPending);
}

#[test]
fn consume_moves_in_transit_to_consumed() {
    let item = Item::new(PieceKind::P1)
        .produce(Money::from_cents(10), "L1".to_string())
        .unwrap();
    let item = item.consume("L4".to_string()).unwrap();
    assert_eq!(item.status(), ItemStatus::Consumed);
    assert_eq!(item.production_line().as_deref(), Some("L4"));
    assert!(item.warehouse().is_none());
}

#[test]
fn consume_refuses_pending() {
    let err = Item::new(PieceKind::P1).consume("L1".to_string()).unwrap_err();
    assert_eq!(err, TransitionError::NotInTransit);
}

#[test]
fn warehouse_entry_and_exit() {
    let item = Item::new(PieceKind::P2)
        .produce(Money::from_cents(5), "L1".to_string())
        .unwrap();
    let item = item.enter_warehouse("W1".to_string()).unwrap();
    assert_eq!(item.status(), ItemStatus::InStock);
    assert_eq!(item.warehouse().as_deref(), Some("W1"));
    assert!(item.production_line().is_none());
    let item = item.exit_warehouse("L3".to_string()).unwrap();
    assert_eq!(item.status(), ItemStatus::InTransit);
    assert!(item.warehouse().is_none());
    assert_eq!(item.production_line().as_deref(), Some("L3"));
}

#[test]
fn enter_warehouse_refuses_pending() {
    let err = Item::new(PieceKind::P2)
        .enter_warehouse("W1".to_string())
        .unwrap_err();
    assert_eq!(err, TransitionError::NotInTransit);
}

#[test]
fn exit_warehouse_refuses_in_transit() {
    let item = Item::new(PieceKind::P2)
        .produce(Money::zero(), "L1".to_string())
        .unwrap();
    let err = item.exit_warehouse("L1".to_string()).unwrap_err();
    assert_eq!(err, TransitionError::NotInStock);
}

// Exit then re-entry with the same warehouse code restores the item.
#[test]
fn warehouse_round_trip_is_a_no_op() {
    let item = Item::new(PieceKind::P5)
        .produce(Money::from_cents(123), "L1".to_string())
        .unwrap()
        .enter_warehouse("W1".to_string())
        .unwrap();
    let id = item.id();
    let cost = item.get_cost();
    let out = item.exit_warehouse("L2".to_string()).unwrap();
    let back = out.enter_warehouse("W1".to_string()).unwrap();
    assert_eq!(back.id(), id);
    assert_eq!(back.status(), ItemStatus::InStock);
    assert_eq!(back.warehouse().as_deref(), Some("W1"));
    assert!(back.production_line().is_none());
    assert_eq!(back.get_cost(), cost);
}

#[test]
fn deliver_moves_in_stock_to_delivered() {
    let item = Item::new(PieceKind::P7)
        .produce(Money::zero(), "L1".to_string())
        .unwrap()
        .enter_warehouse("W2".to_string())
        .unwrap();
    let item = item.deliver().unwrap();
    assert_eq!(item.status(), ItemStatus::Delivered);
    assert!(item.warehouse().is_none());
    assert!(item.production_line().is_none());
}

#[test]
fn deliver_refuses_pending() {
    let err = Item::new(PieceKind::P7).deliver().unwrap_err();
    assert_eq!(err, TransitionError::NotInStock);
}

// The warehouse field is set exactly in stock; the line exactly in transit
// or consumed.
#[test]
fn state_field_invariant_along_a_lifecycle() {
    let item = Item::new(PieceKind::P1);
    assert!(item.warehouse().is_none() && item.production_line().is_none());
    let item = item.produce(Money::zero(), "L1".to_string()).unwrap();
    assert!(item.warehouse().is_none() && item.production_line().is_some());
    let item = item.enter_warehouse("W1".to_string()).unwrap();
    assert!(item.warehouse().is_some() && item.production_line().is_none());
    let item = item.exit_warehouse("L1".to_string()).unwrap();
    assert!(item.warehouse().is_none() && item.production_line().is_some());
    let item = item.consume("L1".to_string()).unwrap();
    assert!(item.warehouse().is_none() && item.production_line().is_some());
    assert_eq!(item.status(), ItemStatus::Consumed);
}

#[test]
fn status_names() {
    assert_eq!(ItemStatus::Pending.name(), "pending");
    assert_eq!(ItemStatus::InStock.name(), "in_stock");
    assert_eq!(ItemStatus::InTransit.name(), "in_transit");
    assert_eq!(ItemStatus::Delivered.name(), "delivered");
    assert_eq!(ItemStatus::Consumed.name(), "consumed");
}
