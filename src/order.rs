use vstd::prelude::*;

verus! {

/// The code of an ascending scan on the wire.
pub const ORDER_ASCENDING: i32 = 1;

/// The code of a descending scan on the wire.
pub const ORDER_DESCENDING: i32 = 2;

/// The direction of a scan.
#[derive(Clone, Copy, Debug, PartialEq, Eq, Structural)]
pub enum Order {
    Ascending,
    Descending,
}

pub open spec fn order_code(o: Order) -> i32 {
    match o {
        Order::Ascending => ORDER_ASCENDING,
        Order::Descending => ORDER_DESCENDING,
    }
}

pub open spec fn order_of_code(code: i32) -> Option<Order> {
    if code == ORDER_ASCENDING {
        Some(Order::Ascending)
    } else if code == ORDER_DESCENDING {
        Some(Order::Descending)
    } else {
        None
    }
}

impl Order {
    /// The integer that stands for this order on the wire.
    pub fn to_code(self) -> (r: i32)
        ensures
            r == order_code(self),
    {
        match self {
            Order::Ascending => ORDER_ASCENDING,
            Order::Descending => ORDER_DESCENDING,
        }
    }

    /// The order that a wire integer stands for; any other integer is none.
    pub fn from_code(code: i32) -> (r: Option<Order>)
        ensures
            r == order_of_code(code),
    {
        if code == ORDER_ASCENDING {
            Some(Order::Ascending)
        } else if code == ORDER_DESCENDING {
            Some(Order::Descending)
        } else {
            None
        }
    }
}

} // verus!
