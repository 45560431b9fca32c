use vstd::prelude::*;
use crate::text::str_eq;

verus! {

/// A delivery order, identified by `o_id`, which is also the store row key.
#[derive(Debug, Clone, PartialEq)]
pub struct Order {
    pub o_id: String,
    pub c_id: String,
    pub r_id: String,
    pub cust_addr: String,
    pub rest_addr: String,
    pub state: String,
}

/// Mathematical model of an [`Order`]: each field as a character sequence.
pub struct OrderView {
    pub o_id: Seq<char>,
    pub c_id: Seq<char>,
    pub r_id: Seq<char>,
    pub cust_addr: Seq<char>,
    pub rest_addr: Seq<char>,
    pub state: Seq<char>,
}

impl View for Order {
    type V = OrderView;

    open spec fn view(&self) -> OrderView {
        OrderView {
            o_id: self.o_id@,
            c_id: self.c_id@,
            r_id: self.r_id@,
            cust_addr: self.cust_addr@,
            rest_addr: self.rest_addr@,
            state: self.state@,
        }
    }
}

/// Partial order record accumulated while decoding a stored row.
#[derive(Debug, Clone)]
pub struct OrderBuilder {
    pub o_id: Option<String>,
    pub c_id: Option<String>,
    pub r_id: Option<String>,
    pub cust_addr: Option<String>,
    pub rest_addr: Option<String>,
    pub state: Option<String>,
}

/// Mathematical model of an [`OrderBuilder`].
pub struct OrderBuilderView {
    pub o_id: Option<Seq<char>>,
    pub c_id: Option<Seq<char>>,
    pub r_id: Option<Seq<char>>,
    pub cust_addr: Option<Seq<char>>,
    pub rest_addr: Option<Seq<char>>,
    pub state: Option<Seq<char>>,
}

/// The view of an optional string: the characters, when present.
pub open spec fn opt_str_view(o: Option<String>) -> Option<Seq<char>> {
    match o {
        Some(s) => Some(s@),
        None => None,
    }
}

impl View for OrderBuilder {
    type V = OrderBuilderView;

    open spec fn view(&self) -> OrderBuilderView {
        OrderBuilderView {
            o_id: opt_str_view(self.o_id),
            c_id: opt_str_view(self.c_id),
            r_id: opt_str_view(self.r_id),
            cust_addr: opt_str_view(self.cust_addr),
            rest_addr: opt_str_view(self.rest_addr),
            state: opt_str_view(self.state),
        }
    }
}

impl Default for OrderBuilder {
    /// A builder with every field still absent.
    fn default() -> (r: OrderBuilder)
        ensures
            r@ == OrderBuilder::empty_view(),
    {
        OrderBuilder {
            o_id: None,
            c_id: None,
            r_id: None,
            cust_addr: None,
            rest_addr: None,
            state: None,
        }
    }
}

impl OrderBuilder {
    /// The model of a builder with every field absent.
    pub open spec fn empty_view() -> OrderBuilderView {
        OrderBuilderView {
            o_id: None,
            c_id: None,
            r_id: None,
            cust_addr: None,
            rest_addr: None,
            state: None,
        }
    }
}

impl OrderBuilderView {
    /// True when every mandatory field is present; `state` is not mandatory.
    pub open spec fn is_complete(self) -> bool {
        &&& self.o_id is Some
        &&& self.c_id is Some
        &&& self.r_id is Some
        &&& self.cust_addr is Some
        &&& self.rest_addr is Some
    }
}

/// The state a freshly created order carries when the stored row has none.
pub open spec fn creation_state() -> Seq<char> {
    "Created"@
}

/// What building an order from a partial record yields: an order exactly when
/// all mandatory fields are present, with `state` defaulting to the creation
/// state.
pub open spec fn order_build(b: OrderBuilderView) -> Option<OrderView> {
    if b.is_complete() {
        Some(
            OrderView {
                o_id: b.o_id.unwrap(),
                c_id: b.c_id.unwrap(),
                r_id: b.r_id.unwrap(),
                cust_addr: b.cust_addr.unwrap(),
                rest_addr: b.rest_addr.unwrap(),
                state: match b.state {
                    Some(s) => s,
                    None => creation_state(),
                },
            },
        )
    } else {
        None
    }
}

/// The view of an optional order.
pub open spec fn opt_order_view(o: Option<Order>) -> Option<OrderView> {
    match o {
        Some(v) => Some(v@),
        None => None,
    }
}

impl Order {
    /// Builds an order from a decoded row: fails exactly when a mandatory
    /// field is missing; a missing `state` falls back to the creation state.
    pub fn build(builder: OrderBuilder) -> (r: Option<Order>)
        ensures
            opt_order_view(r) == order_build(builder@),
    {
        let o_id = match builder.o_id {
            Some(v) => v,
            None => {
                return None;
            },
        };
        let c_id = match builder.c_id {
            Some(v) => v,
            None => {
                return None;
            },
        };
        let r_id = match builder.r_id {
            Some(v) => v,
            None => {
                return None;
            },
        };
        let cust_addr = match builder.cust_addr {
            Some(v) => v,
            None => {
                return None;
            },
        };
        let rest_addr = match builder.rest_addr {
            Some(v) => v,
            None => {
                return None;
            },
        };
        let state = match builder.state {
            Some(v) => v,
            None => "Created".to_owned(),
        };
        Some(Order { o_id, c_id, r_id, cust_addr, rest_addr, state })
    }
}

/// Lifecycle states an order can be pushed to.
#[derive(Debug, Clone, Copy, PartialEq, Eq, Structural)]
pub enum OrderState {
    Created,
    OutForDelivery,
    Delivered,
}

/// The textual name under which a state is stored and used as a topic name.
pub open spec fn state_name(s: OrderState) -> Seq<char> {
    match s {
        OrderState::Created => "Created"@,
        OrderState::OutForDelivery => "OutForDelivery"@,
        OrderState::Delivered => "Delivered"@,
    }
}

impl OrderState {
    /// The textual name of the state.
    pub fn name(&self) -> (r: String)
        ensures
            r@ == state_name(*self),
    {
        match self {
            OrderState::Created => "Created".to_owned(),
            OrderState::OutForDelivery => "OutForDelivery".to_owned(),
            OrderState::Delivered => "Delivered".to_owned(),
        }
    }

    /// Parses a state from its textual name.
    pub fn from_name(input: &str) -> (r: Option<OrderState>)
        ensures
            r == state_from_name(input@),
    {
        if str_eq(input, "Created") {
            Some(OrderState::Created)
        } else if str_eq(input, "OutForDelivery") {
            Some(OrderState::OutForDelivery)
        } else if str_eq(input, "Delivered") {
            Some(OrderState::Delivered)
        } else {
            None
        }
    }
}

/// Which state a textual name denotes, if any.
pub open spec fn state_from_name(s: Seq<char>) -> Option<OrderState> {
    if s == "Created"@ {
        Some(OrderState::Created)
    } else if s == "OutForDelivery"@ {
        Some(OrderState::OutForDelivery)
    } else if s == "Delivered"@ {
        Some(OrderState::Delivered)
    } else {
        None
    }
}

/// A lightweight event payload pointing at an order and the courier moving it.
#[allow(non_snake_case)]
#[derive(Debug, Clone, PartialEq)]
pub struct OrderEvent {
    pub orderId: String,
    pub courierId: String,
}

/// Mathematical model of an [`OrderEvent`].
pub struct OrderEventView {
    pub order_id: Seq<char>,
    pub courier_id: Seq<char>,
}

impl View for OrderEvent {
    type V = OrderEventView;

    open spec fn view(&self) -> OrderEventView {
        OrderEventView { order_id: self.orderId@, courier_id: self.courierId@ }
    }
}

} // verus!
