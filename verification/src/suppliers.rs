//! The static supplier catalog.

use vstd::prelude::*;

use crate::money::Money;
use crate::pieces::RawMaterial;
use crate::shipments::Shipment;

verus! {

/// A supplier of one raw material, with its terms.
#[derive(Clone, Copy, Debug, PartialEq, Eq, Structural)]
pub struct Supplier {
    pub id: i64,
    pub raw_material_kind: RawMaterial,
    pub min_order_quantity: i32,
    pub unit_price: Money,
    pub delivery_time: i32,
}

impl Supplier {
    /// Bundles a catalog row.
    pub fn new(
        id: i64,
        raw_material_kind: RawMaterial,
        min_order_quantity: i32,
        unit_price: Money,
        delivery_time: i32,
    ) -> (r: Supplier)
        ensures
            r == (Supplier { id, raw_material_kind, min_order_quantity, unit_price, delivery_time }),
    {
        Supplier { id, raw_material_kind, min_order_quantity, unit_price, delivery_time }
    }

    /// Whether an order placed now arrives within `time` days.
    pub fn can_deliver_in(&self, time: i32) -> (r: bool)
        ensures
            r == (self.delivery_time <= time),
    {
        self.delivery_time <= time
    }

    /// The quantity a shipment from this supplier must carry to cover an
    /// order: never below the minimum order quantity.
    pub open spec fn spec_shipment_quantity(self, order_quantity: int) -> int {
        if order_quantity >= self.min_order_quantity {
            order_quantity
        } else {
            self.min_order_quantity as int
        }
    }

    /// The shipment this supplier would send for an order due on a day.
    pub open spec fn spec_shipment(self, order_quantity: int, due_date: int) -> Shipment {
        Shipment {
            id: None,
            supplier_id: self.id,
            request_date: (due_date - self.delivery_time) as i32,
            quantity: self.spec_shipment_quantity(order_quantity) as i32,
            cost: Money { cents: (self.spec_shipment_quantity(order_quantity) * self.unit_price.cents) as i64 },
            arrival_date: None,
        }
    }

    /// Draws up the shipment covering an order of `order_quantity` due on
    /// `due_date`: quantity raised to the minimum order quantity when the
    /// order falls short of it, cost at the unit price, requested early
    /// enough to arrive on time.
    pub fn shipment(&self, order_quantity: i32, due_date: i32) -> (r: Shipment)
        requires
            i32::MIN <= due_date - self.delivery_time <= i32::MAX,
            i64::MIN <= self.spec_shipment_quantity(order_quantity as int) * self.unit_price.cents
                <= i64::MAX,
        ensures
            r == self.spec_shipment(order_quantity as int, due_date as int),
            r.quantity >= self.min_order_quantity,
            r.quantity >= order_quantity,
    {
        let quantity = if order_quantity >= self.min_order_quantity {
            order_quantity
        } else {
            self.min_order_quantity
        };
        let cost = (quantity as i64) * self.unit_price.cents;
        Shipment::new(self.id, due_date - self.delivery_time, quantity, Money { cents: cost })
    }
}

} // verus!
