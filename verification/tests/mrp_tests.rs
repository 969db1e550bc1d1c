use infi_erp::money::Money;
use infi_erp::mrp::{
    plan_day_linkage, process_purchases, process_under_alocated_shipments, AlteredShipment,
    DayVariantNeedsData,
};
use infi_erp::pieces::RawMaterial;
use infi_erp::shipments::{RawMaterialDetails, UnderAllocatedShipment};
use infi_erp::suppliers::Supplier;

fn under(id: i64, extra: i64) -> UnderAllocatedShipment {
    UnderAllocatedShipment { id, extra_quantity: extra, added: None }
}

fn pending(item_id: u128, due_date: i32) -> RawMaterialDetails {
    RawMaterialDetails { item_id, order_id: 1, due_date }
}

fn supplier(id: i64, min_order: i32, unit_cents: i64, delivery: i32) -> Supplier {
    Supplier::new(id, RawMaterial::P2, min_order, Money::from_cents(unit_cents), delivery)
}

// Under-allocated shipments absorb demand greedily, in order.
#[test]
fn absorption_drains_demand_in_order() {
    let mut net: i32 = 5;
    let mut ships = vec![under(1, 2), under(2, 1), under(3, 10)];
    process_under_alocated_shipments(&mut net, &mut ships);
    assert_eq!(net, 0);
    assert_eq!(ships.len(), 3);
    assert_eq!((ships[0].id, ships[0].extra_quantity, ships[0].added), (1, 0, Some(2)));
    assert_eq!((ships[1].id, ships[1].extra_quantity, ships[1].added), (2, 0, Some(1)));
    assert_eq!((ships[2].id, ships[2].extra_quantity, ships[2].added), (3, 8, Some(2)));
}

#[test]
fn absorption_keeps_residual_demand() {
    let mut net: i32 = 7;
    let mut ships = vec![under(4, 3)];
    process_under_alocated_shipments(&mut net, &mut ships);
    assert_eq!(net, 4);
    assert_eq!(ships.len(), 1);
    assert_eq!(ships[0].added, Some(3));
}

#[test]
fn absorption_discards_untouched_shipments() {
    let mut net: i32 = 2;
    let mut ships = vec![under(1, 2), under(2, 9)];
    process_under_alocated_shipments(&mut net, &mut ships);
    assert_eq!(net, 0);
    assert_eq!(ships.len(), 1);
    assert_eq!(ships[0].id, 1);
}

// Shipment absorption: an existing shipment with six spare places takes all
// three new items; no purchase is issued.
#[test]
fn absorption_covers_demand_before_any_purchase() {
    let mut needs = DayVariantNeedsData {
        due_date: 5,
        net_req: 3,
        variant: RawMaterial::P1,
        under_allocated: vec![under(7, 6)],
        suppliers: vec![supplier(1, 1, 100, 1)],
    };
    let results = process_purchases(&mut needs, 0);
    assert!(results.purchase_order.is_none());
    assert_eq!(results.altered_shipments.len(), 1);
    assert_eq!(results.altered_shipments[0], AlteredShipment { id: 7, added: 3 });
    assert_eq!(needs.net_req, 0);

    // All three pending items link to the existing shipment; none is left.
    let items = vec![pending(100, 5), pending(101, 5), pending(102, 5)];
    let plan = plan_day_linkage(&items, 5, &results.altered_shipments, None);
    assert_eq!(plan.links.len(), 3);
    for (k, link) in plan.links.iter().enumerate() {
        assert_eq!(link.shipment_id(), 7);
        assert_eq!(link.raw_material_id(), items[k].item_id);
    }
    assert!(!plan.delete_new_shipment);
}

// Cheapest-supplier tie with minimum order quantities: one unit at two
// euros beats one hundred units at one euro each.
#[test]
fn cheapest_total_cost_wins_over_unit_price() {
    let mut needs = DayVariantNeedsData {
        due_date: 3,
        net_req: 1,
        variant: RawMaterial::P2,
        under_allocated: vec![],
        suppliers: vec![supplier(1, 100, 100, 3), supplier(2, 1, 200, 3)],
    };
    let results = process_purchases(&mut needs, 0);
    let ship = results.purchase_order.unwrap();
    assert_eq!(ship.supplier_id, 2);
    assert_eq!(ship.quantity, 1);
    assert_eq!(ship.cost.cents, 200);
    assert_eq!(ship.request_date, 0);
}

// The minimum order quantity kicks in when the demand falls short of it.
#[test]
fn minimum_order_quantity_raises_the_purchase() {
    let s = supplier(1, 10, 50, 2);
    let ship = s.shipment(3, 8);
    assert_eq!(ship.quantity, 10);
    assert_eq!(ship.cost.cents, 500);
    assert_eq!(ship.request_date, 6);
    let big = s.shipment(25, 8);
    assert_eq!(big.quantity, 25);
    assert_eq!(big.cost.cents, 1250);
}

// The purchase for a single-unit demand on day four: the cheapest timely
// supplier, requested early enough to arrive on time.
#[test]
fn purchase_for_a_single_unit_demand() {
    let mut needs = DayVariantNeedsData {
        due_date: 4,
        net_req: 1,
        variant: RawMaterial::P1,
        under_allocated: vec![],
        suppliers: vec![supplier(1, 1, 100, 2), supplier(2, 1, 300, 1)],
    };
    let results = process_purchases(&mut needs, 0);
    let ship = results.purchase_order.unwrap();
    assert_eq!(ship.supplier_id, 1);
    assert_eq!(ship.quantity, 1);
    assert_eq!(ship.request_date, 4 - 2);
    assert_eq!(ship.cost.cents, 100);
}

#[test]
fn no_purchase_for_a_past_day() {
    let mut needs = DayVariantNeedsData {
        due_date: 2,
        net_req: 4,
        variant: RawMaterial::P1,
        under_allocated: vec![],
        suppliers: vec![supplier(1, 1, 100, 1)],
    };
    let results = process_purchases(&mut needs, 5);
    assert!(results.purchase_order.is_none());
}

#[test]
fn no_purchase_without_a_timely_supplier() {
    let mut needs = DayVariantNeedsData {
        due_date: 3,
        net_req: 4,
        variant: RawMaterial::P1,
        under_allocated: vec![],
        suppliers: vec![supplier(1, 1, 100, 9)],
    };
    let results = process_purchases(&mut needs, 0);
    assert!(results.purchase_order.is_none());
}

#[test]
fn linkage_splits_between_existing_and_new_shipments() {
    let items = vec![pending(1, 4), pending(2, 9), pending(3, 4), pending(4, 4)];
    let altered = vec![AlteredShipment { id: 6, added: 2 }];
    let plan = plan_day_linkage(&items, 4, &altered, Some((31, 1)));
    // Items 1 and 3 (the first two due on day four) go to shipment 6, item
    // 4 to the new shipment; item 2 is due another day.
    assert_eq!(plan.links.len(), 3);
    assert_eq!((plan.links[0].raw_material_id(), plan.links[0].shipment_id()), (1, 6));
    assert_eq!((plan.links[1].raw_material_id(), plan.links[1].shipment_id()), (3, 6));
    assert_eq!((plan.links[2].raw_material_id(), plan.links[2].shipment_id()), (4, 31));
    assert!(!plan.delete_new_shipment);
}

// A freshly inserted shipment that receives no item is marked for
// deletion in the same transaction.
#[test]
fn unused_new_shipment_is_deleted() {
    let items = vec![pending(1, 4)];
    let altered = vec![AlteredShipment { id: 6, added: 2 }];
    let plan = plan_day_linkage(&items, 4, &altered, Some((31, 2)));
    assert_eq!(plan.links.len(), 1);
    assert_eq!(plan.links[0].shipment_id(), 6);
    assert!(plan.delete_new_shipment);
}

// A shipment never links more items than its share: the new shipment takes
// at most its residual quantity.
#[test]
fn new_shipment_takes_at_most_its_share() {
    let items = vec![pending(1, 4), pending(2, 4), pending(3, 4), pending(4, 4)];
    let altered: Vec<AlteredShipment> = vec![];
    let plan = plan_day_linkage(&items, 4, &altered, Some((31, 2)));
    assert_eq!(plan.links.len(), 2);
    assert!(plan.links.iter().all(|l| l.shipment_id() == 31));
}
