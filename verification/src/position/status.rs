//! The orders and the fill state of one instrument.

use crate::position::order::Order;
use crate::position::side::Side;
use std::collections::VecDeque;
use vstd::prelude::*;

verus! {

pub struct Status {
    pub orders: VecDeque<Order>,
    pub size: i64,
    pub average_entry_price: Option<i64>,
    pub side: Side,
}

impl Status {
    /// The status of an instrument with one order and nothing filled.
    pub fn new(order: Order) -> (r: Self)
        ensures
            r.orders@ == seq![order],
            r.size == 0,
            r.average_entry_price.is_none(),
            r.side == Side::Flat,
    {
        let mut orders: VecDeque<Order> = VecDeque::new();
        orders.push_back(order);
        assert(orders@ =~= seq![order]);
        Status { orders, size: 0, average_entry_price: None, side: Side::Flat }
    }
}

} // verus!
