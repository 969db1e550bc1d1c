//! Client orders and their lifecycle.

use vstd::prelude::*;

use crate::ids::fresh_id;
use crate::money::Money;
use crate::pieces::FinalPiece;

verus! {

/// The lifecycle states of an order.
#[derive(Clone, Copy, Debug, PartialEq, Eq, Structural)]
pub enum OrderStatus {
    Pending,
    Scheduled,
    Producing,
    Completed,
    Delivered,
    Canceled,
}

impl OrderStatus {
    /// The status name as stored and reported.
    pub open spec fn spec_name(self) -> Seq<char> {
        match self {
            OrderStatus::Pending => "pending"@,
            OrderStatus::Scheduled => "scheduled"@,
            OrderStatus::Producing => "producing"@,
            OrderStatus::Completed => "completed"@,
            OrderStatus::Delivered => "delivered"@,
            OrderStatus::Canceled => "canceled"@,
        }
    }

    /// The status name as stored and reported.
    pub fn name(self) -> (r: &'static str)
        ensures
            r@ == self.spec_name(),
    {
        match self {
            OrderStatus::Pending => "pending",
            OrderStatus::Scheduled => "scheduled",
            OrderStatus::Producing => "producing",
            OrderStatus::Completed => "completed",
            OrderStatus::Delivered => "delivered",
            OrderStatus::Canceled => "canceled",
        }
    }
}

/// An order lifecycle operation was attempted in the wrong state.
#[derive(Clone, Copy, Debug, PartialEq, Eq, Structural)]
pub enum OrderStateError {
    NotStartable,
    NotCompleted,
}

/// A client order for a quantity of one final piece.
#[derive(Debug)]
pub struct Order {
    pub id: u128,
    pub client_id: u128,
    pub number: i32,
    pub piece: FinalPiece,
    pub quantity: i32,
    pub due_date: i32,
    pub early_penalty: Money,
    pub late_penalty: Money,
    pub status: OrderStatus,
    pub placement_day: i32,
    pub delivery_day: Option<i32>,
}

impl Order {
    /// A fresh pending order with a new identifier, placed on day zero until
    /// the caller records the placement day.
    pub fn new(
        client_id: u128,
        number: i32,
        piece: FinalPiece,
        quantity: i32,
        due_date: i32,
        early_penalty: i64,
        late_penalty: i64,
    ) -> (r: Order)
        ensures
            r.client_id == client_id,
            r.number == number,
            r.piece == piece,
            r.quantity == quantity,
            r.due_date == due_date,
            r.early_penalty.cents == early_penalty,
            r.late_penalty.cents == late_penalty,
            r.status == OrderStatus::Pending,
            r.placement_day == 0,
            r.delivery_day is None,
    {
        Order {
            id: fresh_id(),
            client_id,
            number,
            piece,
            quantity,
            due_date,
            early_penalty: Money { cents: early_penalty },
            late_penalty: Money { cents: late_penalty },
            status: OrderStatus::Pending,
            placement_day: 0,
            delivery_day: None,
        }
    }

    /// The order after the scheduler commits its blueprint graph.
    pub open spec fn spec_schedule(self, delivery_day: i32) -> Order {
        Order { status: OrderStatus::Scheduled, delivery_day: Some(delivery_day), ..self }
    }

    /// Marks the order scheduled for delivery on the given day.
    pub fn schedule(self, delivery_day: i32) -> (r: Order)
        ensures
            r == self.spec_schedule(delivery_day),
    {
        Order { status: OrderStatus::Scheduled, delivery_day: Some(delivery_day), ..self }
    }

    /// The order once production has started.
    pub open spec fn spec_production_start(self) -> Order {
        Order { status: OrderStatus::Producing, ..self }
    }

    /// Scheduled -> Producing; calling it again while producing changes
    /// nothing, so replays of the production feed are harmless.
    pub fn production_start(self) -> (r: Result<Order, OrderStateError>)
        ensures
            self.status == OrderStatus::Scheduled || self.status == OrderStatus::Producing
                ==> r == Ok::<Order, OrderStateError>(self.spec_production_start()),
            !(self.status == OrderStatus::Scheduled || self.status == OrderStatus::Producing)
                ==> r == Err::<Order, OrderStateError>(OrderStateError::NotStartable),
    {
        match self.status {
            OrderStatus::Scheduled => Ok(Order { status: OrderStatus::Producing, ..self }),
            OrderStatus::Producing => Ok(Order { status: OrderStatus::Producing, ..self }),
            _ => Err(OrderStateError::NotStartable),
        }
    }

    /// The order after the client confirms delivery on a day.
    pub open spec fn spec_confirm_delivery(self, day: i32) -> Order {
        Order { status: OrderStatus::Delivered, delivery_day: Some(day), ..self }
    }

    /// Completed -> Delivered, recording the delivery day.
    pub fn confirm_delivery(self, day: i32) -> (r: Result<Order, OrderStateError>)
        ensures
            self.status == OrderStatus::Completed ==> r == Ok::<Order, OrderStateError>(
                self.spec_confirm_delivery(day),
            ),
            self.status != OrderStatus::Completed ==> r == Err::<Order, OrderStateError>(
                OrderStateError::NotCompleted,
            ),
    {
        if let OrderStatus::Completed = self.status {
            Ok(Order { status: OrderStatus::Delivered, delivery_day: Some(day), ..self })
        } else {
            Err(OrderStateError::NotCompleted)
        }
    }

    /// The ordered piece kind.
    pub fn piece(&self) -> (r: crate::pieces::PieceKind)
        ensures
            r == self.piece.spec_as_piece_kind(),
    {
        self.piece.as_piece_kind()
    }

    /// The ordered quantity.
    pub fn quantity(&self) -> (r: i32)
        ensures
            r == self.quantity,
    {
        self.quantity
    }

    /// The order identifier.
    pub fn id(&self) -> (r: u128)
        ensures
            r == self.id,
    {
        self.id
    }

    /// The day the order is due.
    pub fn due_date(&self) -> (r: i32)
        ensures
            r == self.due_date,
    {
        self.due_date
    }

    /// The current lifecycle status.
    pub fn status(&self) -> (r: OrderStatus)
        ensures
            r == self.status,
    {
        self.status
    }
}

/// The production feed met an order in a state it cannot handle.
#[derive(Clone, Copy, Debug, PartialEq, Eq, Structural)]
pub enum ProductionFeedError {
    /// A pending order cannot own scheduled transformations.
    PendingOrder,
    /// The order is past production.
    UnsupportedStatus,
}

/// Which orders the production feed must flip to producing: of the orders
/// behind the handed-out transformations, each order once, those still
/// scheduled; orders already producing are passed over, and any other
/// state is refused.
pub open spec fn spec_orders_to_start(entries: Seq<(u128, OrderStatus)>, seen: Seq<u128>)
    -> Result<Seq<u128>, ProductionFeedError>
    decreases entries.len(),
{
    if entries.len() == 0 {
        Ok(Seq::<u128>::empty())
    } else {
        let (id, status) = entries[0];
        if seen.contains(id) {
            spec_orders_to_start(entries.drop_first(), seen)
        } else {
            match status {
                OrderStatus::Pending => Err(ProductionFeedError::PendingOrder),
                OrderStatus::Scheduled => match spec_orders_to_start(
                    entries.drop_first(),
                    seen.push(id),
                ) {
                    Ok(rest) => Ok(seq![id] + rest),
                    Err(e) => Err(e),
                },
                OrderStatus::Producing => spec_orders_to_start(entries.drop_first(), seen.push(id)),
                _ => Err(ProductionFeedError::UnsupportedStatus),
            }
        }
    }
}

/// Whether a value occurs in the list.
fn contains_id(v: &Vec<u128>, x: u128) -> (r: bool)
    ensures
        r == v@.contains(x),
{
    let mut i: usize = 0;
    while i < v.len()
        invariant
            0 <= i <= v@.len(),
            forall|j: int| 0 <= j < i ==> v@[j] != x,
        decreases v@.len() - i,
    {
        if v[i] == x {
            return true;
        }
        i += 1;
    }
    proof {
        assert(!v@.contains(x)) by {
            if v@.contains(x) {
                let j = choose|j: int| 0 <= j < v@.len() && v@[j] == x;
            }
        }
    }
    false
}

/// Decides which orders the production feed flips to producing, given the
/// order behind each handed-out transformation with its current status.
pub fn orders_to_start(entries: &Vec<(u128, OrderStatus)>) -> (r: Result<
    Vec<u128>,
    ProductionFeedError,
>)
    ensures
        match r {
            Ok(v) => spec_orders_to_start(entries@, Seq::<u128>::empty()) == Ok::<
                Seq<u128>,
                ProductionFeedError,
            >(v@),
            Err(e) => spec_orders_to_start(entries@, Seq::<u128>::empty()) == Err::<
                Seq<u128>,
                ProductionFeedError,
            >(e),
        },
{
    let mut seen: Vec<u128> = Vec::new();
    let mut result: Vec<u128> = Vec::new();
    let mut i: usize = 0;
    proof {
        assert(entries@.subrange(0, entries@.len() as int) =~= entries@);
        match spec_orders_to_start(entries@, Seq::<u128>::empty()) {
            Ok(rest) => {
                assert(Seq::<u128>::empty() + rest =~= rest);
            },
            Err(_) => {},
        }
    }
    while i < entries.len()
        invariant
            0 <= i <= entries@.len(),
            spec_orders_to_start(entries@, Seq::<u128>::empty()) == (match spec_orders_to_start(
                entries@.subrange(i as int, entries@.len() as int),
                seen@,
            ) {
                Ok(rest) => Ok::<Seq<u128>, ProductionFeedError>(result@ + rest),
                Err(e) => Err::<Seq<u128>, ProductionFeedError>(e),
            }),
        decreases entries@.len() - i,
    {
        let (id, status) = entries[i];
        proof {
            let tail = entries@.subrange(i as int, entries@.len() as int);
            assert(tail[0] == entries@[i as int]);
            assert(tail.drop_first() =~= entries@.subrange(i as int + 1, entries@.len() as int));
        }
        let ghost result0 = result@;
        if !contains_id(&seen, id) {
            match status {
                OrderStatus::Pending => {
                    return Err(ProductionFeedError::PendingOrder);
                },
                OrderStatus::Scheduled => {
                    seen.push(id);
                    result.push(id);
                    proof {
                        match spec_orders_to_start(
                            entries@.subrange(i as int + 1, entries@.len() as int),
                            seen@,
                        ) {
                            Ok(rest) => {
                                assert(result0 + (seq![id] + rest) =~= result@ + rest);
                            },
                            Err(_) => {},
                        }
                    }
                },
                OrderStatus::Producing => {
                    seen.push(id);
                },
                _ => {
                    return Err(ProductionFeedError::UnsupportedStatus);
                },
            }
        }
        i += 1;
    }
    proof {
        assert(entries@.subrange(entries@.len() as int, entries@.len() as int) =~= Seq::<
            (u128, OrderStatus),
        >::empty());
        match spec_orders_to_start(
            entries@.subrange(entries@.len() as int, entries@.len() as int),
            seen@,
        ) {
            Ok(rest) => {
                assert(result@ + rest =~= result@);
            },
            Err(_) => {},
        }
    }
    Ok(result)
}

/// A completed order offered for delivery.
#[derive(Debug)]
pub struct Delivery {
    pub id: u128,
    pub piece: FinalPiece,
    pub quantity: i32,
}

/// An order as ingested from a client, before a database identity exists.
#[derive(Debug, PartialEq)]
pub struct ClientOrder {
    pub client_name: String,
    pub order_number: i32,
    pub work_piece: FinalPiece,
    pub quantity: i32,
    pub due_date: i32,
    pub late_penalty: i64,
    pub early_penalty: i64,
}

impl ClientOrder {
    /// Bundles the ingested fields.
    pub fn new(
        client_name: String,
        order_number: i32,
        work_piece: FinalPiece,
        quantity: i32,
        due_date: i32,
        late_penalty: i64,
        early_penalty: i64,
    ) -> (r: ClientOrder)
        ensures
            r.client_name == client_name,
            r.order_number == order_number,
            r.work_piece == work_piece,
            r.quantity == quantity,
            r.due_date == due_date,
            r.late_penalty == late_penalty,
            r.early_penalty == early_penalty,
    {
        ClientOrder {
            client_name,
            order_number,
            work_piece,
            quantity,
            due_date,
            late_penalty,
            early_penalty,
        }
    }

    /// The pending order this ingested record stands for, once the client's
    /// identifier is known.
    pub fn to_order(&self, client_id: u128) -> (r: Order)
        ensures
            r.client_id == client_id,
            r.number == self.order_number,
            r.piece == self.work_piece,
            r.quantity == self.quantity,
            r.due_date == self.due_date,
            r.early_penalty.cents == self.early_penalty,
            r.late_penalty.cents == self.late_penalty,
            r.status == OrderStatus::Pending,
            r.delivery_day is None,
    {
        Order::new(
            client_id,
            self.order_number,
            self.work_piece,
            self.quantity,
            self.due_date,
            self.early_penalty,
            self.late_penalty,
        )
    }
}

} // verus!
