//! Plain records for the order listing interface.

use vstd::prelude::*;

use crate::money::Money;

verus! {

/// One order as the listing shows it.
#[derive(Debug)]
pub struct OrderDetails {
    pub client_name: String,
    pub order_number: i32,
    pub piece_name: String,
    pub quantity: i32,
    pub due_date: i32,
    pub late_penalty: Money,
    pub early_penalty: Money,
}

/// The key of an order to delete.
#[derive(Debug)]
pub struct DeleteOrder {
    pub client_name: String,
    pub order_number: i32,
}

/// The order listing handed to the rendered page.
#[derive(Debug)]
pub struct OrdersTable {
    pub orders: Vec<OrderDetails>,
}

} // verus!
