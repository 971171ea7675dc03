//! Orders and what belongs to them: items, shipping address and payment.

use vstd::prelude::*;
use crate::catalog::Size;

verus! {

/// The states of an order. An order starts as `Pending`.
#[derive(Clone, Copy, Debug, PartialEq, Eq, Structural)]
pub enum OrderStatus {
    Pending,
    Paid,
    Shipped,
    Completed,
    Cancelled,
}

impl OrderStatus {
    /// The steps that an order may take: pending to paid to shipped to
    /// completed, and pending or paid to cancelled.
    pub open spec fn spec_can_become(self, next: OrderStatus) -> bool {
        match (self, next) {
            (OrderStatus::Pending, OrderStatus::Paid) => true,
            (OrderStatus::Paid, OrderStatus::Shipped) => true,
            (OrderStatus::Shipped, OrderStatus::Completed) => true,
            (OrderStatus::Pending, OrderStatus::Cancelled) => true,
            (OrderStatus::Paid, OrderStatus::Cancelled) => true,
            _ => false,
        }
    }

    /// Whether the order has been paid for: it is paid, shipped or completed.
    pub open spec fn spec_is_settled(self) -> bool {
        self == OrderStatus::Paid || self == OrderStatus::Shipped || self == OrderStatus::Completed
    }

    /// The word under which a state is kept in the orders table.
    pub open spec fn spec_label(self) -> Seq<char> {
        match self {
            OrderStatus::Pending => "pending"@,
            OrderStatus::Paid => "paid"@,
            OrderStatus::Shipped => "shipped"@,
            OrderStatus::Completed => "completed"@,
            OrderStatus::Cancelled => "cancelled"@,
        }
    }

    pub fn label(self) -> (r: &'static str)
        ensures
            r@ == self.spec_label(),
    {
        match self {
            OrderStatus::Pending => "pending",
            OrderStatus::Paid => "paid",
            OrderStatus::Shipped => "shipped",
            OrderStatus::Completed => "completed",
            OrderStatus::Cancelled => "cancelled",
        }
    }

    #[verifier::when_used_as_spec(spec_can_become)]
    pub fn can_become(self, next: OrderStatus) -> (r: bool)
        ensures
            r == self.spec_can_become(next),
    {
        match (self, next) {
            (OrderStatus::Pending, OrderStatus::Paid) => true,
            (OrderStatus::Paid, OrderStatus::Shipped) => true,
            (OrderStatus::Shipped, OrderStatus::Completed) => true,
            (OrderStatus::Pending, OrderStatus::Cancelled) => true,
            (OrderStatus::Paid, OrderStatus::Cancelled) => true,
            _ => false,
        }
    }

    #[verifier::when_used_as_spec(spec_is_settled)]
    pub fn is_settled(self) -> (r: bool)
        ensures
            r == self.spec_is_settled(),
    {
        match self {
            OrderStatus::Paid => true,
            OrderStatus::Shipped => true,
            OrderStatus::Completed => true,
            _ => false,
        }
    }

    /// Completed and cancelled orders take no further step, and no step leads
    /// back to pending.
    pub proof fn law_final_states(self, next: OrderStatus)
        ensures
            !OrderStatus::Completed.spec_can_become(next),
            !OrderStatus::Cancelled.spec_can_become(next),
            !self.spec_can_become(OrderStatus::Pending),
            !self.spec_can_become(self),
    {
    }
}

/// The states of a payment. A payment starts as `Pending` and is `Captured`
/// when its order is paid.
#[derive(Clone, Copy, Debug, PartialEq, Eq, Structural)]
pub enum PaymentStatus {
    Pending,
    Captured,
}

impl PaymentStatus {
    /// The word under which a state is kept in the payments table.
    pub open spec fn spec_label(self) -> Seq<char> {
        match self {
            PaymentStatus::Pending => "pending"@,
            PaymentStatus::Captured => "captured"@,
        }
    }

    pub fn label(self) -> (r: &'static str)
        ensures
            r@ == self.spec_label(),
    {
        match self {
            PaymentStatus::Pending => "pending",
            PaymentStatus::Captured => "captured",
        }
    }
}

/// The order row.
#[derive(Clone, Copy, Debug, PartialEq, Eq, Structural)]
pub struct Order {
    pub id: i32,
    pub user_id: Option<i32>,
    pub total_price: i128,
    pub status: OrderStatus,
    pub online_payment: bool,
}

/// One line of an order. Its total is not kept: it is the quantity times the
/// unit price.
#[derive(Clone, Copy, Debug, PartialEq, Eq, Structural)]
pub struct OrderItem {
    pub id: i32,
    pub order_id: i32,
    pub product_id: Option<i32>,
    pub quantity: i32,
    pub price: i32,
    pub size: Size,
}

impl OrderItem {
    pub open spec fn spec_total_price(self) -> int {
        self.quantity * self.price
    }

    /// The quantity times the unit price.
    pub fn total_price(&self) -> (r: i64)
        ensures
            r == self.spec_total_price(),
    {
        line_total(self.quantity, self.price)
    }
}

/// The product of a quantity and a unit price, which always fits in 64 bits.
pub fn line_total(quantity: i32, unit_price: i32) -> (r: i64)
    ensures
        r == quantity * unit_price,
        -0x4000_0000_0000_0000 <= r <= 0x4000_0000_0000_0000,
{
    assert(-0x4000_0000_0000_0000 <= quantity * unit_price <= 0x4000_0000_0000_0000) by (
        nonlinear_arith)
        requires
            -0x8000_0000 <= quantity < 0x8000_0000,
            -0x8000_0000 <= unit_price < 0x8000_0000,
    ;
    (quantity as i64) * (unit_price as i64)
}

/// Where and to whom an order is sent.
#[derive(Debug, PartialEq, Eq)]
pub struct ShippingInfo {
    pub address: String,
    pub first_name: String,
    pub last_name: String,
    pub phone_number: String,
    pub email: String,
}

impl Clone for ShippingInfo {
    fn clone(&self) -> (r: Self)
        ensures
            r == *self,
    {
        ShippingInfo {
            address: self.address.clone(),
            first_name: self.first_name.clone(),
            last_name: self.last_name.clone(),
            phone_number: self.phone_number.clone(),
            email: self.email.clone(),
        }
    }
}

/// The shipping address row of an order.
#[derive(Debug, PartialEq, Eq)]
pub struct ShippingAddress {
    pub id: i32,
    pub order_id: i32,
    pub info: ShippingInfo,
}

/// The payment row of an order.
#[derive(Debug, PartialEq, Eq)]
pub struct Payment {
    pub id: i32,
    pub order_id: i32,
    pub method: String,
    pub status: PaymentStatus,
    pub amount: i128,
}

impl Clone for ShippingAddress {
    fn clone(&self) -> (r: Self)
        ensures
            r == *self,
    {
        ShippingAddress { id: self.id, order_id: self.order_id, info: self.info.clone() }
    }
}

impl Clone for Payment {
    fn clone(&self) -> (r: Self)
        ensures
            r == *self,
    {
        Payment {
            id: self.id,
            order_id: self.order_id,
            method: self.method.clone(),
            status: self.status,
            amount: self.amount,
        }
    }
}

/// A cart line after the catalog has been consulted: the product's name and
/// unit price stand beside what the customer asked for.
#[derive(Debug, PartialEq, Eq)]
pub struct OrderLine {
    pub product_id: i32,
    pub product_name: String,
    pub size: Size,
    pub quantity: i32,
    pub unit_price: i32,
}

impl Clone for OrderLine {
    fn clone(&self) -> (r: Self)
        ensures
            r == *self,
    {
        OrderLine {
            product_id: self.product_id,
            product_name: self.product_name.clone(),
            size: self.size,
            quantity: self.quantity,
            unit_price: self.unit_price,
        }
    }
}

/// The sum of quantity times unit price over the lines.
pub open spec fn lines_total(lines: Seq<OrderLine>) -> int
    decreases lines.len(),
{
    if lines.len() == 0 {
        0
    } else {
        lines_total(lines.drop_last()) + lines.last().quantity * lines.last().unit_price
    }
}

/// The sum of the items' totals.
pub open spec fn items_total(items: Seq<OrderItem>) -> int
    decreases items.len(),
{
    if items.len() == 0 {
        0
    } else {
        items_total(items.drop_last()) + items.last().spec_total_price()
    }
}

/// The items with every reference to one product cleared.
pub open spec fn items_without_product(items: Seq<OrderItem>, product_id: i32) -> Seq<OrderItem> {
    Seq::new(
        items.len(),
        |j: int|
            if items[j].product_id == Some(product_id) {
                OrderItem { product_id: None, ..items[j] }
            } else {
                items[j]
            },
    )
}

/// Clearing the references to a product changes no total.
pub proof fn lemma_items_without_product(items: Seq<OrderItem>, product_id: i32)
    ensures
        items_total(items_without_product(items, product_id)) == items_total(items),
    decreases items.len(),
{
    if items.len() > 0 {
        lemma_items_without_product(items.drop_last(), product_id);
        assert(items_without_product(items, product_id).drop_last() =~= items_without_product(
            items.drop_last(),
            product_id,
        ));
    }
}

/// The next free id of each of the four kinds of row that an order is made of.
#[derive(Clone, Copy, Debug, PartialEq, Eq, Structural)]
pub struct IdCounters {
    pub order: i32,
    pub item: i32,
    pub shipping: i32,
    pub payment: i32,
}

impl IdCounters {
    /// Ids start at 1.
    pub open spec fn wf(self) -> bool {
        self.order >= 1 && self.item >= 1 && self.shipping >= 1 && self.payment >= 1
    }

    /// Whether an order of `items` lines can be given its ids.
    pub open spec fn spec_can_allocate(self, items: nat) -> bool {
        &&& self.order < i32::MAX
        &&& self.shipping < i32::MAX
        &&& self.payment < i32::MAX
        &&& self.item + items <= i32::MAX
    }

    /// The counters after an order of `items` lines has taken its ids.
    pub open spec fn spec_after(self, items: nat) -> IdCounters {
        IdCounters {
            order: (self.order + 1) as i32,
            item: (self.item + items) as i32,
            shipping: (self.shipping + 1) as i32,
            payment: (self.payment + 1) as i32,
        }
    }

    /// The counters of a store that holds no order yet.
    pub fn new() -> (r: IdCounters)
        ensures
            r == (IdCounters { order: 1, item: 1, shipping: 1, payment: 1 }),
            r.wf(),
    {
        IdCounters { order: 1, item: 1, shipping: 1, payment: 1 }
    }

    pub fn can_allocate(&self, items: usize) -> (r: bool)
        ensures
            r == self.spec_can_allocate(items as nat),
    {
        self.order < i32::MAX && self.shipping < i32::MAX && self.payment < i32::MAX
            && items <= 0xFFFF_FFFF && (self.item as i64) + (items as i64) <= i32::MAX as i64
    }

    pub fn after(&self, items: usize) -> (r: IdCounters)
        requires
            self.spec_can_allocate(items as nat),
        ensures
            r == self.spec_after(items as nat),
            self.wf() ==> r.wf(),
    {
        IdCounters {
            order: self.order + 1,
            item: ((self.item as i64) + (items as i64)) as i32,
            shipping: self.shipping + 1,
            payment: self.payment + 1,
        }
    }
}

/// An order with all that belongs to it: its items, its shipping address and
/// its payment.
#[derive(Debug, PartialEq, Eq)]
pub struct OrderGraph {
    pub order: Order,
    pub items: Vec<OrderItem>,
    pub shipping: ShippingAddress,
    pub payment: Payment,
}

impl Clone for OrderGraph {
    fn clone(&self) -> (r: Self)
        ensures
            r@ == self@,
    {
        let items = self.items.clone();
        assert(items@ =~= self.items@);
        OrderGraph {
            order: self.order,
            items,
            shipping: self.shipping.clone(),
            payment: self.payment.clone(),
        }
    }
}

/// An order graph as a value: the items as a sequence.
pub struct OrderGraphView {
    pub order: Order,
    pub items: Seq<OrderItem>,
    pub shipping: ShippingAddress,
    pub payment: Payment,
}

impl View for OrderGraph {
    type V = OrderGraphView;

    open spec fn view(&self) -> OrderGraphView {
        OrderGraphView {
            order: self.order,
            items: self.items@,
            shipping: self.shipping,
            payment: self.payment,
        }
    }
}

impl OrderGraphView {
    /// The order's total is the sum of its items' totals, the payment is for
    /// that amount, every row belongs to the order, and a paid order has its
    /// payment captured.
    pub open spec fn wf(self) -> bool {
        &&& self.order.total_price == items_total(self.items)
        &&& self.payment.amount == self.order.total_price
        &&& self.shipping.order_id == self.order.id
        &&& self.payment.order_id == self.order.id
        &&& forall|i: int|
            0 <= i < self.items.len() ==> (#[trigger] self.items[i]).order_id == self.order.id
        &&& self.order.status.spec_is_settled() ==> self.payment.status == PaymentStatus::Captured
        &&& self.order.status == OrderStatus::Pending ==> self.payment.status
            == PaymentStatus::Pending
    }

    /// Every id of the graph is at least 1 and below its counter.
    pub open spec fn ids_below(self, ids: IdCounters) -> bool {
        &&& 1 <= self.order.id < ids.order
        &&& 1 <= self.shipping.id < ids.shipping
        &&& 1 <= self.payment.id < ids.payment
        &&& forall|i: int|
            0 <= i < self.items.len() ==> 1 <= (#[trigger] self.items[i]).id < ids.item
    }

    /// This graph with no item referring to the product: the items stay, and
    /// so do their quantities and prices.
    pub open spec fn without_product(self, product_id: i32) -> OrderGraphView {
        OrderGraphView { items: items_without_product(self.items, product_id), ..self }
    }

    /// This graph with the order in another state; the payment is captured
    /// when that state is `Paid`.
    pub open spec fn with_status(self, next: OrderStatus) -> OrderGraphView {
        OrderGraphView {
            order: Order { status: next, ..self.order },
            payment: Payment {
                status: if next == OrderStatus::Paid {
                    PaymentStatus::Captured
                } else {
                    self.payment.status
                },
                ..self.payment
            },
            ..self
        }
    }
}

/// One purchased item as the confirmation shows it.
#[derive(Debug, PartialEq, Eq)]
pub struct OrderItemDetails {
    pub product_name: String,
    pub quantity: i32,
    pub size: Size,
    pub total_price: i64,
}

impl Clone for OrderItemDetails {
    fn clone(&self) -> (r: Self)
        ensures
            r == *self,
    {
        OrderItemDetails {
            product_name: self.product_name.clone(),
            quantity: self.quantity,
            size: self.size,
            total_price: self.total_price,
        }
    }
}

/// What the confirmation of an order is written from: the order's id, the
/// shipping contact and the purchased items in the order of the cart.
#[derive(Debug, PartialEq, Eq)]
pub struct OrderDetails {
    pub order_id: i32,
    pub shipping: ShippingInfo,
    pub items: Vec<OrderItemDetails>,
}

impl Clone for OrderDetails {
    fn clone(&self) -> (r: Self)
        ensures
            r@ == self@,
    {
        let items = self.items.clone();
        assert(items@ =~= self.items@);
        OrderDetails { order_id: self.order_id, shipping: self.shipping.clone(), items }
    }
}

/// Order details as a value: the items as a sequence.
pub struct OrderDetailsView {
    pub order_id: i32,
    pub shipping: ShippingInfo,
    pub items: Seq<OrderItemDetails>,
}

impl View for OrderDetails {
    type V = OrderDetailsView;

    open spec fn view(&self) -> OrderDetailsView {
        OrderDetailsView { order_id: self.order_id, shipping: self.shipping, items: self.items@ }
    }
}

/// The sum of the items' totals as the confirmation shows them.
pub open spec fn details_total(items: Seq<OrderItemDetails>) -> int
    decreases items.len(),
{
    if items.len() == 0 {
        0
    } else {
        details_total(items.drop_last()) + items.last().total_price
    }
}

/// The items of an order made of `lines`, numbered from `first_id`.
pub open spec fn items_for(lines: Seq<OrderLine>, order_id: i32, first_id: int) -> Seq<OrderItem> {
    Seq::new(
        lines.len(),
        |k: int|
            OrderItem {
                id: (first_id + k) as i32,
                order_id,
                product_id: Some(lines[k].product_id),
                quantity: lines[k].quantity,
                price: lines[k].unit_price,
                size: lines[k].size,
            },
    )
}

/// The items of a confirmation for an order made of `lines`.
pub open spec fn details_for(lines: Seq<OrderLine>) -> Seq<OrderItemDetails> {
    Seq::new(
        lines.len(),
        |k: int|
            OrderItemDetails {
                product_name: lines[k].product_name,
                quantity: lines[k].quantity,
                size: lines[k].size,
                total_price: (lines[k].quantity * lines[k].unit_price) as i64,
            },
    )
}

/// The graph of a new order made of `lines`, with ids taken from `ids`.
pub open spec fn graph_for(
    lines: Seq<OrderLine>,
    shipping: ShippingInfo,
    payment_method: String,
    ids: IdCounters,
) -> OrderGraphView {
    OrderGraphView {
        order: Order {
            id: ids.order,
            user_id: None,
            total_price: lines_total(lines) as i128,
            status: OrderStatus::Pending,
            online_payment: false,
        },
        items: items_for(lines, ids.order, ids.item as int),
        shipping: ShippingAddress { id: ids.shipping, order_id: ids.order, info: shipping },
        payment: Payment {
            id: ids.payment,
            order_id: ids.order,
            method: payment_method,
            status: PaymentStatus::Pending,
            amount: lines_total(lines) as i128,
        },
    }
}

/// A sum over `n` lines is at most `n` times the largest line total, so it
/// fits in 128 bits whatever the lines are.
pub proof fn lemma_lines_total_bound(lines: Seq<OrderLine>)
    ensures
        -(lines.len() * 0x4000_0000_0000_0000) <= lines_total(lines) <= lines.len()
            * 0x4000_0000_0000_0000,
    decreases lines.len(),
{
    if lines.len() > 0 {
        lemma_lines_total_bound(lines.drop_last());
        let q = lines.last().quantity;
        let p = lines.last().unit_price;
        assert(-0x4000_0000_0000_0000 <= q * p <= 0x4000_0000_0000_0000) by (nonlinear_arith)
            requires
                -0x8000_0000 <= q < 0x8000_0000,
                -0x8000_0000 <= p < 0x8000_0000,
        ;
    }
}

/// The items made of some lines add up to what the lines add up to.
pub proof fn lemma_items_total(lines: Seq<OrderLine>, order_id: i32, first_id: int)
    ensures
        items_total(items_for(lines, order_id, first_id)) == lines_total(lines),
    decreases lines.len(),
{
    if lines.len() > 0 {
        lemma_items_total(lines.drop_last(), order_id, first_id);
        assert(items_for(lines, order_id, first_id).drop_last() =~= items_for(
            lines.drop_last(),
            order_id,
            first_id,
        ));
    }
}

/// The order that a checkout reports: the order row as it was committed and
/// what its confirmation is written from.
#[derive(Debug, PartialEq, Eq)]
pub struct OrderConfirmation {
    pub order: Order,
    pub details: OrderDetails,
}

impl Clone for OrderConfirmation {
    fn clone(&self) -> (r: Self)
        ensures
            r.order == self.order,
            r.details@ == self.details@,
    {
        OrderConfirmation { order: self.order, details: self.details.clone() }
    }
}

} // verus!
