//! Core planning logic of a simulated manufacturing ERP.
//!
//! The library models orders, items, recipes, transformations, shipments and
//! suppliers as plain values, and verifies the order explosion, the backward
//! scheduler, the material requirements planner and the item state machine.
//! Database access, HTTP and UDP live outside the library and exchange plain
//! values with it.

pub mod blueprint;
pub mod channels;
pub mod deliveries;
mod ids;
pub mod items;
pub mod listing;
pub mod money;
pub mod mrp;
pub mod numbers;
pub mod orders;
pub mod parser;
pub mod pieces;
pub mod raw_orders;
pub mod recipes;
pub mod scheduling;
pub mod settings;
pub mod shipments;
pub mod startup;
pub mod suppliers;
pub mod transformations;

use vstd::prelude::*;

verus! {

/// One simulated day holds 60 simulated seconds of factory capacity
/// for a single item.
pub const TIME_IN_DAY: i64 = 60;

} // verus!
