//! Shipments of raw materials and their arrival handling.

use vstd::prelude::*;
use vstd::string::StringExecFns;

use crate::items::Item;
use crate::money::Money;
use crate::pieces::RawMaterial;

verus! {

/// A purchase order sent to a supplier.
#[derive(Clone, Copy, Debug, PartialEq, Eq, Structural)]
pub struct Shipment {
    pub id: Option<i64>,
    pub supplier_id: i64,
    pub request_date: i32,
    pub quantity: i32,
    pub cost: Money,
    pub arrival_date: Option<i32>,
}

impl Shipment {
    /// A fresh shipment, not yet stored and not yet arrived.
    pub fn new(supplier_id: i64, request_date: i32, quantity: i32, cost: Money) -> (r: Shipment)
        ensures
            r == (Shipment {
                id: None,
                supplier_id,
                request_date,
                quantity,
                cost,
                arrival_date: None,
            }),
    {
        Shipment { id: None, supplier_id, request_date, quantity, cost, arrival_date: None }
    }

    /// The shipment's cost.
    pub fn cost(&self) -> (r: Money)
        ensures
            r == self.cost,
    {
        self.cost
    }

    /// The shipment after an arrival report on a day: the arrival date is
    /// recorded once, and a repeated report changes nothing.
    pub open spec fn spec_arrived(self, date: i32) -> Shipment {
        if self.arrival_date is Some {
            self
        } else {
            Shipment { arrival_date: Some(date), ..self }
        }
    }

    /// Records the arrival day; replaying the report is a no-op.
    pub fn arrived(self, date: i32) -> (r: Shipment)
        ensures
            r == self.spec_arrived(date),
            r.arrival_date is Some,
    {
        if self.arrival_date.is_some() {
            self
        } else {
            Shipment { arrival_date: Some(date), ..self }
        }
    }
}

/// Recording an arrival twice is the same as recording it once.
pub proof fn lemma_arrival_idempotent(s: Shipment, first_day: i32, second_day: i32)
    ensures
        s.spec_arrived(first_day).spec_arrived(second_day) == s.spec_arrived(first_day),
{
}

/// An un-arrived shipment with more quantity than linked items, and how
/// much of the spare the planner took.
#[derive(Clone, Copy, Debug, PartialEq, Eq, Structural)]
pub struct UnderAllocatedShipment {
    pub id: i64,
    pub extra_quantity: i64,
    pub added: Option<i64>,
}

/// A shipment expected to arrive, as reported to the factory floor.
#[derive(Clone, Copy, Debug, PartialEq, Eq, Structural)]
pub struct ExpectedShipment {
    pub id: i64,
    pub material_type: RawMaterial,
    pub quantity: i32,
}

/// One link between a raw-material item and the shipment covering it.
#[derive(Clone, Copy, Debug, PartialEq, Eq, Structural)]
pub struct MaterialShipment {
    pub raw_material_id: u128,
    pub shipment_id: i64,
}

impl MaterialShipment {
    /// Bundles one link.
    pub fn new(raw_material_id: u128, shipment_id: i64) -> (r: MaterialShipment)
        ensures
            r == (MaterialShipment { raw_material_id, shipment_id }),
    {
        MaterialShipment { raw_material_id, shipment_id }
    }

    /// The linked item.
    pub fn raw_material_id(&self) -> (r: u128)
        ensures
            r == self.raw_material_id,
    {
        self.raw_material_id
    }

    /// The linked shipment.
    pub fn shipment_id(&self) -> (r: i64)
        ensures
            r == self.shipment_id,
    {
        self.shipment_id
    }
}

/// A pending raw-material item awaiting purchase, with the day its
/// transformation needs it.
#[derive(Clone, Copy, Debug, PartialEq, Eq, Structural)]
pub struct RawMaterialDetails {
    pub item_id: u128,
    pub order_id: u128,
    pub due_date: i32,
}

/// Applies a shipment arrival: on the first report, every linked item is
/// stored in warehouse W1 at the supplier's unit price and the shipment's
/// arrival day is recorded; a replayed report returns everything unchanged.
pub fn process_arrival(shipment: Shipment, items: Vec<Item>, date: i32, unit_price: Money) -> (r: (
    Shipment,
    Vec<Item>,
))
    ensures
        shipment.arrival_date is Some ==> r.0 == shipment && r.1@ == items@,
        shipment.arrival_date is None ==> {
            &&& r.0 == shipment.spec_arrived(date)
            &&& r.1@.len() == items@.len()
            &&& forall|k: int|
                0 <= k < items@.len() ==> {
                    let it = #[trigger] r.1@[k];
                    &&& it.id == items@[k].id
                    &&& it.piece_kind == items@[k].piece_kind
                    &&& it.order_id == items@[k].order_id
                    &&& it.status == crate::items::ItemStatus::InStock
                    &&& it.warehouse matches Some(w) && w@ == "W1"@
                    &&& it.production_line is None
                    &&& it.acc_cost == unit_price
                    &&& it.wf()
                }
        },
{
    if shipment.arrival_date.is_some() {
        return (shipment, items);
    }
    let marked = shipment.arrived(date);
    let mut stored: Vec<Item> = Vec::new();
    let mut rest = items;
    while rest.len() > 0
        invariant
            stored@.len() + rest@.len() == items@.len(),
            rest@ =~= items@.subrange(stored@.len() as int, items@.len() as int),
            forall|k: int|
                0 <= k < stored@.len() ==> {
                    let it = #[trigger] stored@[k];
                    &&& it.id == items@[k].id
                    &&& it.piece_kind == items@[k].piece_kind
                    &&& it.order_id == items@[k].order_id
                    &&& it.status == crate::items::ItemStatus::InStock
                    &&& it.warehouse matches Some(w) && w@ == "W1"@
                    &&& it.production_line is None
                    &&& it.acc_cost == unit_price
                    &&& it.wf()
                },
        decreases rest@.len(),
    {
        let it = rest.remove(0);
        let warehouse = String::from_str("W1");
        stored.push(it.arrive(warehouse, unit_price));
    }
    (marked, stored)
}

} // verus!
