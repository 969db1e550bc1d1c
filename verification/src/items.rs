//! Physical items and their state machine.
//!
//! An item is `Pending` on creation, becomes `InTransit` when produced or
//! delivered by a supplier, moves between `InStock` and `InTransit` through
//! the warehouse, is `Consumed` as the material side of a transformation,
//! and a final piece ends `Delivered`. Every other transition is refused.

use vstd::prelude::*;

use crate::ids::fresh_id;
use crate::money::Money;
use crate::pieces::PieceKind;

verus! {

/// The lifecycle states of an item.
#[derive(Clone, Copy, Debug, PartialEq, Eq, Structural)]
pub enum ItemStatus {
    Pending,
    InStock,
    InTransit,
    Delivered,
    Consumed,
}

impl ItemStatus {
    /// The status name as stored and reported.
    pub open spec fn spec_name(self) -> Seq<char> {
        match self {
            ItemStatus::Pending => "pending"@,
            ItemStatus::InStock => "in_stock"@,
            ItemStatus::InTransit => "in_transit"@,
            ItemStatus::Delivered => "delivered"@,
            ItemStatus::Consumed => "consumed"@,
        }
    }

    /// The status name as stored and reported.
    pub fn name(self) -> (r: &'static str)
        ensures
            r@ == self.spec_name(),
    {
        match self {
            ItemStatus::Pending => "pending",
            ItemStatus::InStock => "in_stock",
            ItemStatus::InTransit => "in_transit",
            ItemStatus::Delivered => "delivered",
            ItemStatus::Consumed => "consumed",
        }
    }
}

/// A state-machine operation was called on an item in the wrong state.
#[derive(Clone, Copy, Debug, PartialEq, Eq, Structural)]
pub enum TransitionError {
    NotPending,
    NotInTransit,
    NotInStock,
}

/// A physical piece, optionally bound to one order.
#[derive(Debug)]
pub struct Item {
    pub id: u128,
    pub piece_kind: PieceKind,
    pub order_id: Option<u128>,
    pub warehouse: Option<String>,
    pub production_line: Option<String>,
    pub status: ItemStatus,
    pub acc_cost: Money,
}

impl Item {
    /// The state-to-field invariant: the warehouse is set exactly when the
    /// item is in stock, and the production line exactly when it is in
    /// transit or consumed.
    pub open spec fn wf(self) -> bool {
        &&& (self.warehouse is Some <==> self.status == ItemStatus::InStock)
        &&& (self.production_line is Some <==> (self.status == ItemStatus::InTransit
            || self.status == ItemStatus::Consumed))
    }

    /// A fresh pending item of the given kind, with a new identifier.
    pub fn new(piece_kind: PieceKind) -> (r: Item)
        ensures
            r.piece_kind == piece_kind,
            r.order_id is None,
            r.warehouse is None,
            r.production_line is None,
            r.status == ItemStatus::Pending,
            r.acc_cost.cents == 0,
            r.wf(),
    {
        Item {
            id: fresh_id(),
            piece_kind,
            order_id: None,
            warehouse: None,
            production_line: None,
            status: ItemStatus::Pending,
            acc_cost: Money { cents: 0 },
        }
    }

    /// The same item bound to the given order.
    pub fn set_order(self, order_id: Option<u128>) -> (r: Item)
        ensures
            r == (Item { order_id, ..self }),
    {
        Item { order_id, ..self }
    }

    /// The item after `produce`.
    pub open spec fn spec_produce(self, cost: Money, line: String) -> Item {
        Item {
            status: ItemStatus::InTransit,
            production_line: Some(line),
            acc_cost: cost,
            ..self
        }
    }

    /// Pending -> InTransit: the item was produced on a line at a cost.
    pub fn produce(self, cost: Money, line: String) -> (r: Result<Item, TransitionError>)
        ensures
            self.status == ItemStatus::Pending ==> r == Ok::<Item, TransitionError>(
                self.spec_produce(cost, line),
            ),
            self.status != ItemStatus::Pending ==> r == Err::<Item, TransitionError>(
                TransitionError::NotPending,
            ),
            self.wf() && self.status == ItemStatus::Pending ==> self.spec_produce(
                cost,
                line,
            ).wf(),
    {
        if self.status != ItemStatus::Pending {
            return Err(TransitionError::NotPending);
        }
        Ok(Item { status: ItemStatus::InTransit, production_line: Some(line), acc_cost: cost, ..self })
    }

    /// The item after `consume`.
    pub open spec fn spec_consume(self, line: String) -> Item {
        Item { status: ItemStatus::Consumed, production_line: Some(line), warehouse: None, ..self }
    }

    /// InTransit -> Consumed: the item was used as the material side of a
    /// transformation on the given line.
    pub fn consume(self, line: String) -> (r: Result<Item, TransitionError>)
        ensures
            self.status == ItemStatus::InTransit ==> r == Ok::<Item, TransitionError>(
                self.spec_consume(line),
            ),
            self.status != ItemStatus::InTransit ==> r == Err::<Item, TransitionError>(
                TransitionError::NotInTransit,
            ),
            self.spec_consume(line).wf(),
    {
        if self.status != ItemStatus::InTransit {
            return Err(TransitionError::NotInTransit);
        }
        Ok(Item { status: ItemStatus::Consumed, production_line: Some(line), warehouse: None, ..self })
    }

    /// The item after `enter_warehouse`.
    pub open spec fn spec_enter_warehouse(self, warehouse: String) -> Item {
        Item {
            status: ItemStatus::InStock,
            warehouse: Some(warehouse),
            production_line: None,
            ..self
        }
    }

    /// InTransit -> InStock: the item was stored in a warehouse.
    pub fn enter_warehouse(self, warehouse: String) -> (r: Result<Item, TransitionError>)
        ensures
            self.status == ItemStatus::InTransit ==> r == Ok::<Item, TransitionError>(
                self.spec_enter_warehouse(warehouse),
            ),
            self.status != ItemStatus::InTransit ==> r == Err::<Item, TransitionError>(
                TransitionError::NotInTransit,
            ),
            self.spec_enter_warehouse(warehouse).wf(),
    {
        if self.status != ItemStatus::InTransit {
            return Err(TransitionError::NotInTransit);
        }
        Ok(Item {
            status: ItemStatus::InStock,
            warehouse: Some(warehouse),
            production_line: None,
            ..self
        })
    }

    /// The item after `exit_warehouse`.
    pub open spec fn spec_exit_warehouse(self, production_line: String) -> Item {
        Item {
            status: ItemStatus::InTransit,
            warehouse: None,
            production_line: Some(production_line),
            ..self
        }
    }

    /// InStock -> InTransit: the item left the warehouse for a production
    /// line.
    pub fn exit_warehouse(self, production_line: String) -> (r: Result<Item, TransitionError>)
        ensures
            self.status == ItemStatus::InStock ==> r == Ok::<Item, TransitionError>(
                self.spec_exit_warehouse(production_line),
            ),
            self.status != ItemStatus::InStock ==> r == Err::<Item, TransitionError>(
                TransitionError::NotInStock,
            ),
            self.spec_exit_warehouse(production_line).wf(),
    {
        if self.status != ItemStatus::InStock {
            return Err(TransitionError::NotInStock);
        }
        Ok(Item {
            status: ItemStatus::InTransit,
            warehouse: None,
            production_line: Some(production_line),
            ..self
        })
    }

    /// The item after `deliver`.
    pub open spec fn spec_deliver(self) -> Item {
        Item { status: ItemStatus::Delivered, warehouse: None, production_line: None, ..self }
    }

    /// InStock -> Delivered: a final piece left the factory.
    pub fn deliver(self) -> (r: Result<Item, TransitionError>)
        ensures
            self.status == ItemStatus::InStock ==> r == Ok::<Item, TransitionError>(
                self.spec_deliver(),
            ),
            self.status != ItemStatus::InStock ==> r == Err::<Item, TransitionError>(
                TransitionError::NotInStock,
            ),
            self.spec_deliver().wf(),
    {
        if self.status != ItemStatus::InStock {
            return Err(TransitionError::NotInStock);
        }
        Ok(Item { status: ItemStatus::Delivered, warehouse: None, production_line: None, ..self })
    }

    /// The item as a supplier shipment leaves it: in stock in warehouse W1,
    /// costing the supplier's unit price.
    pub open spec fn spec_arrive(self, warehouse: String, unit_price: Money) -> Item {
        Item {
            status: ItemStatus::InStock,
            warehouse: Some(warehouse),
            production_line: None,
            acc_cost: unit_price,
            ..self
        }
    }

    /// Stores the item as arrived from a supplier: in stock in the given
    /// warehouse, at the supplier's unit price.
    pub fn arrive(self, warehouse: String, unit_price: Money) -> (r: Item)
        ensures
            r == self.spec_arrive(warehouse, unit_price),
            r.wf(),
    {
        Item {
            status: ItemStatus::InStock,
            warehouse: Some(warehouse),
            production_line: None,
            acc_cost: unit_price,
            ..self
        }
    }

    /// The item's identifier.
    pub fn id(&self) -> (r: u128)
        ensures
            r == self.id,
    {
        self.id
    }

    /// The order the item is bound to, if any.
    pub fn order_id(&self) -> (r: Option<u128>)
        ensures
            r == self.order_id,
    {
        self.order_id
    }

    /// The accumulated cost.
    pub fn get_cost(&self) -> (r: Money)
        ensures
            r == self.acc_cost,
    {
        self.acc_cost
    }

    /// The current status.
    pub fn status(&self) -> (r: ItemStatus)
        ensures
            r == self.status,
    {
        self.status
    }

    /// The piece kind, fixed for life.
    pub fn piece_kind(&self) -> (r: PieceKind)
        ensures
            r == self.piece_kind,
    {
        self.piece_kind
    }

    /// The warehouse code, set exactly while in stock.
    pub fn warehouse(&self) -> (r: &Option<String>)
        ensures
            r == self.warehouse,
    {
        &self.warehouse
    }

    /// The production line code, set exactly while in transit or consumed.
    pub fn production_line(&self) -> (r: &Option<String>)
        ensures
            r == self.production_line,
    {
        &self.production_line
    }

}

/// Leaving the warehouse for a line and then re-entering the same warehouse
/// code restores the item exactly as it was.
pub proof fn lemma_warehouse_round_trip(i: Item, line: String, w: String)
    requires
        i.wf(),
        i.status == ItemStatus::InStock,
        i.warehouse == Some(w),
    ensures
        i.spec_exit_warehouse(line).spec_enter_warehouse(w) == i,
{
}

} // verus!
