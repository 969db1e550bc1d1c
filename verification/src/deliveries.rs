//! Delivery bookkeeping: delivery states, delivery lines, and the
//! statistics recorded when a final piece leaves the factory.

use vstd::prelude::*;

use crate::pieces::FinalPiece;

verus! {

/// The lifecycle of one delivery.
#[derive(Clone, Copy, Debug, PartialEq, Eq, Structural)]
pub enum DeliveryStatus {
    Pending,
    Scheduled,
    Delivered,
    Cancelled,
}

impl DeliveryStatus {
    /// The status name as stored.
    pub open spec fn spec_name(self) -> Seq<char> {
        match self {
            DeliveryStatus::Pending => "pending"@,
            DeliveryStatus::Scheduled => "scheduled"@,
            DeliveryStatus::Delivered => "delivered"@,
            DeliveryStatus::Cancelled => "cancelled"@,
        }
    }

    /// The status name as stored.
    pub fn name(self) -> (r: &'static str)
        ensures
            r@ == self.spec_name(),
    {
        match self {
            DeliveryStatus::Pending => "pending",
            DeliveryStatus::Scheduled => "scheduled",
            DeliveryStatus::Delivered => "delivered",
            DeliveryStatus::Cancelled => "cancelled",
        }
    }
}

/// The delivery lines pieces leave on.
#[derive(Clone, Copy, Debug, PartialEq, Eq, Structural)]
pub enum DeliveryLines {
    DL1,
    DL2,
    DL3,
    DL4,
}

/// One delivery event: which line carried how many of which piece, for
/// which order.
#[derive(Debug)]
pub struct DeliveryStatistics {
    pub line: DeliveryLines,
    pub piece: FinalPiece,
    pub quantity: i32,
    pub associated_order_id: u128,
}

impl DeliveryStatistics {
    /// Bundles one delivery event.
    pub fn new(
        line: DeliveryLines,
        piece: FinalPiece,
        quantity: i32,
        associated_order_id: u128,
    ) -> (r: DeliveryStatistics)
        ensures
            r.line == line,
            r.piece == piece,
            r.quantity == quantity,
            r.associated_order_id == associated_order_id,
    {
        DeliveryStatistics { line, piece, quantity, associated_order_id }
    }
}

} // verus!
