//! Order status values and their string forms. Parsing is case-insensitive
//! and fail-closed: an unrecognized status string is rejected before any
//! authorization decision is made.

use crate::text::{eq_ignore_ascii_case, lower_seq_matches};
use vstd::prelude::*;

verus! {

#[derive(Clone, Copy, PartialEq, Eq, Structural, Debug)]
pub enum OrderStatus {
    Pending,
    Processing,
    Shipped,
    Delivered,
    Cancelled,
}

pub open spec fn parse_status(s: Seq<char>) -> Option<OrderStatus> {
    if lower_seq_matches(s, "pending"@) {
        Some(OrderStatus::Pending)
    } else if lower_seq_matches(s, "processing"@) {
        Some(OrderStatus::Processing)
    } else if lower_seq_matches(s, "shipped"@) {
        Some(OrderStatus::Shipped)
    } else if lower_seq_matches(s, "delivered"@) {
        Some(OrderStatus::Delivered)
    } else if lower_seq_matches(s, "cancelled"@) {
        Some(OrderStatus::Cancelled)
    } else {
        None
    }
}

/// The canonical lower-case name of a status.
pub open spec fn status_name(st: OrderStatus) -> Seq<char> {
    match st {
        OrderStatus::Pending => "pending"@,
        OrderStatus::Processing => "processing"@,
        OrderStatus::Shipped => "shipped"@,
        OrderStatus::Delivered => "delivered"@,
        OrderStatus::Cancelled => "cancelled"@,
    }
}

impl OrderStatus {
    pub fn from_str(s: &str) -> (r: Option<OrderStatus>)
        ensures
            r == parse_status(s@),
    {
        if eq_ignore_ascii_case(s, "pending") {
            Some(OrderStatus::Pending)
        } else if eq_ignore_ascii_case(s, "processing") {
            Some(OrderStatus::Processing)
        } else if eq_ignore_ascii_case(s, "shipped") {
            Some(OrderStatus::Shipped)
        } else if eq_ignore_ascii_case(s, "delivered") {
            Some(OrderStatus::Delivered)
        } else if eq_ignore_ascii_case(s, "cancelled") {
            Some(OrderStatus::Cancelled)
        } else {
            None
        }
    }

    pub fn name(&self) -> (r: String)
        ensures
            r@ == status_name(*self),
    {
        match self {
            OrderStatus::Pending => "pending".to_owned(),
            OrderStatus::Processing => "processing".to_owned(),
            OrderStatus::Shipped => "shipped".to_owned(),
            OrderStatus::Delivered => "delivered".to_owned(),
            OrderStatus::Cancelled => "cancelled".to_owned(),
        }
    }
}

} // verus!
