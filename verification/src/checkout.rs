//! The checkout: from a cart to a committed order, or to a refusal that
//! leaves no trace.

use vstd::prelude::*;
use crate::catalog::Size;
use crate::error::{CheckoutError, NotificationError};
use crate::order::{
    details_for, graph_for, Order, OrderConfirmation, OrderDetailsView, OrderLine, ShippingInfo,
};
use crate::state::StoreView;
use crate::store::{CommitOutcome, Store, Transaction};

verus! {

/// One line of a cart: so many units of a product in one size.
#[derive(Clone, Copy, Debug, PartialEq, Eq, Structural)]
pub struct CartLine {
    pub product_id: i32,
    pub size: Size,
    pub quantity: i32,
}

/// Reads a cart line whose size is written as a label. A label that names no
/// size is refused with `ValidationError`.
pub fn cart_line(product_id: i32, size_label: &str, quantity: i32) -> (r: Result<
    CartLine,
    CheckoutError,
>)
    ensures
        r == match Size::spec_from_label(size_label@) {
            Some(size) => Ok::<CartLine, CheckoutError>(CartLine { product_id, size, quantity }),
            None => Err::<CartLine, CheckoutError>(CheckoutError::ValidationError),
        },
{
    match Size::from_label(size_label) {
        Some(size) => Ok(CartLine { product_id, size, quantity }),
        None => Err(CheckoutError::ValidationError),
    }
}

/// A cart line with the product's name and price beside it, if the line is
/// acceptable: it asks for at least one unit of a product that the catalog
/// holds and that has stock counters.
pub open spec fn price_line(state: StoreView, line: CartLine) -> Option<OrderLine> {
    if line.quantity <= 0 {
        None
    } else {
        match state.product(line.product_id) {
            Some(product) => if state.counter_slot(line.product_id) is Some {
                Some(
                    OrderLine {
                        product_id: line.product_id,
                        product_name: product.name,
                        size: line.size,
                        quantity: line.quantity,
                        unit_price: product.price,
                    },
                )
            } else {
                None
            },
            None => None,
        }
    }
}

/// A cart is acceptable when it is not empty and every line is acceptable.
pub open spec fn cart_valid(state: StoreView, cart: Seq<CartLine>) -> bool {
    &&& cart.len() > 0
    &&& forall|k: int| 0 <= k < cart.len() ==> price_line(state, #[trigger] cart[k]) is Some
}

/// The lines of an acceptable cart with names and prices.
pub open spec fn priced(state: StoreView, cart: Seq<CartLine>) -> Seq<OrderLine> {
    Seq::new(cart.len(), |k: int| price_line(state, cart[k]).unwrap())
}

/// What a checkout leaves in the store, or why it is refused. The cart is
/// checked against the catalog, its lines are reserved one after the other,
/// the order is added, and the commit decides whether any of it stays.
pub open spec fn checkout_state(
    state: StoreView,
    cart: Seq<CartLine>,
    shipping: ShippingInfo,
    payment_method: String,
    outcome: CommitOutcome,
) -> Result<StoreView, CheckoutError> {
    if !cart_valid(state, cart) {
        Err(CheckoutError::ValidationError)
    } else {
        match state.reserve_all(priced(state, cart)) {
            Err(e) => Err(e),
            Ok(reserved) => match reserved.place(priced(state, cart), shipping, payment_method) {
                Err(e) => Err(e),
                Ok(placed) => if outcome == CommitOutcome::Committed {
                    Ok(placed)
                } else {
                    Err(CheckoutError::PersistenceError)
                },
            },
        }
    }
}

/// The order row that a successful checkout commits.
pub open spec fn checkout_order(
    state: StoreView,
    cart: Seq<CartLine>,
    shipping: ShippingInfo,
    payment_method: String,
) -> Order {
    graph_for(priced(state, cart), shipping, payment_method, state.ids).order
}

/// Checks a cart against the catalog and puts name and price beside each
/// line. An empty cart, a line that asks for no units or fewer, and a line
/// whose product or whose counters the catalog does not hold are refused
/// with `ValidationError`.
pub fn price_cart(store: &Store, cart: &Vec<CartLine>) -> (r: Result<Vec<OrderLine>, CheckoutError>)
    ensures
        match r {
            Ok(lines) => cart_valid(store@, cart@) && lines@ == priced(store@, cart@),
            Err(e) => e == CheckoutError::ValidationError && !cart_valid(store@, cart@),
        },
{
    if cart.len() == 0 {
        return Err(CheckoutError::ValidationError);
    }
    let mut lines: Vec<OrderLine> = Vec::new();
    let mut k: usize = 0;
    while k < cart.len()
        invariant
            k <= cart@.len(),
            forall|j: int| 0 <= j < k ==> price_line(store@, #[trigger] cart@[j]) is Some,
            lines@ =~= priced(store@, cart@).take(k as int),
        decreases cart@.len() - k,
    {
        let line = cart[k];
        if line.quantity <= 0 {
            return Err(CheckoutError::ValidationError);
        }
        match store.product(line.product_id) {
            None => {
                return Err(CheckoutError::ValidationError);
            },
            Some(product) => {
                if store.stock_of(line.product_id, line.size).is_none() {
                    return Err(CheckoutError::ValidationError);
                }
                lines.push(
                    OrderLine {
                        product_id: line.product_id,
                        product_name: product.name.clone(),
                        size: line.size,
                        quantity: line.quantity,
                        unit_price: product.price,
                    },
                );
            },
        }
        k = k + 1;
    }
    proof {
        assert(priced(store@, cart@).take(cart@.len() as int) =~= priced(store@, cart@));
    }
    Ok(lines)
}

/// Reservations touch the counters and nothing else.
pub proof fn lemma_reserve_all_frame(state: StoreView, lines: Seq<OrderLine>)
    requires
        state.reserve_all(lines) is Ok,
    ensures
        state.reserve_all(lines).unwrap().categories == state.categories,
        state.reserve_all(lines).unwrap().catalog == state.catalog,
        state.reserve_all(lines).unwrap().orders == state.orders,
        state.reserve_all(lines).unwrap().ids == state.ids,
        state.reserve_all(lines).unwrap().stock.len() == state.stock.len(),
    decreases lines.len(),
{
    if lines.len() > 0 {
        lemma_reserve_all_frame(state, lines.drop_last());
    }
}

/// If the first `k` lines can be reserved and the next one cannot, the whole
/// list is refused as that line is.
pub proof fn lemma_reserve_all_refused(state: StoreView, lines: Seq<OrderLine>, k: int, upto: int)
    requires
        0 <= k < upto <= lines.len(),
        state.reserve_all(lines.take(k + 1)) is Err,
    ensures
        state.reserve_all(lines.take(upto)) == state.reserve_all(lines.take(k + 1)),
    decreases upto - k,
{
    if upto > k + 1 {
        lemma_reserve_all_refused(state, lines, k, upto - 1);
        assert(lines.take(upto).drop_last() =~= lines.take(upto - 1));
    }
}

/// A checkout that has done everything but commit: the cart is checked, the
/// units are reserved and the order is written, all inside a transaction
/// that is still open.
#[derive(Debug)]
pub struct PendingCheckout {
    tx: Transaction,
    confirmation: OrderConfirmation,
}

impl View for PendingCheckout {
    type V = StoreView;

    /// The state that the commit would make durable.
    closed spec fn view(&self) -> StoreView {
        self.tx@
    }
}

impl PendingCheckout {
    /// The state of the store before the checkout: what a failed commit
    /// leaves.
    pub closed spec fn base(&self) -> StoreView {
        self.tx.base()
    }

    /// The order that is reported once the commit has gone through.
    pub closed spec fn spec_confirmation(&self) -> OrderConfirmation {
        self.confirmation
    }

    /// The order as it will be reported if the commit goes through.
    pub fn confirmation(&self) -> (r: &OrderConfirmation)
        ensures
            *r == self.spec_confirmation(),
    {
        &self.confirmation
    }

    /// The open transaction, for reading what is to be written: the new
    /// order and the counters as they will be.
    pub fn transaction(&self) -> (r: &Transaction)
        ensures
            r@ == self@,
            r.base() == self.base(),
    {
        &self.tx
    }

    /// Gives the checkout up before any commit, as when the customer has
    /// gone: the store is as it was before the checkout.
    pub fn cancel(self) -> (r: Store)
        ensures
            r@ == self.base(),
    {
        self.tx.rollback()
    }

    /// Ends the checkout with the outcome of the commit. A commit that went
    /// through makes the order and the reservations durable and reports the
    /// order; one that failed leaves the store as it was before the checkout
    /// and is reported as `PersistenceError`.
    pub fn finish(self, outcome: CommitOutcome) -> (r: (
        Store,
        Result<OrderConfirmation, CheckoutError>,
    ))
        ensures
            outcome == CommitOutcome::Committed ==> r.0@ == self@ && r.1 == Ok::<
                OrderConfirmation,
                CheckoutError,
            >(self.spec_confirmation()),
            outcome == CommitOutcome::Failed ==> r.0@ == self.base() && r.1 == Err::<
                OrderConfirmation,
                CheckoutError,
            >(CheckoutError::PersistenceError),
    {
        let PendingCheckout { tx, confirmation } = self;
        let (store, committed) = tx.commit(outcome);
        match committed {
            Ok(()) => (store, Ok(confirmation)),
            Err(e) => (store, Err(e)),
        }
    }
}

/// Does all of a checkout but the commit. The cart is checked against the
/// catalog; then, in one transaction, each line is reserved and the order is
/// added with its items, its shipping address and a pending payment for the
/// total. A refusal gives the store back as it was.
pub fn prepare_checkout(
    store: Store,
    cart: &Vec<CartLine>,
    shipping: ShippingInfo,
    payment_method: String,
) -> (r: Result<PendingCheckout, (Store, CheckoutError)>)
    ensures
        match checkout_state(store@, cart@, shipping, payment_method, CommitOutcome::Committed) {
            Ok(state) => {
                &&& r is Ok
                &&& r.unwrap()@ == state
                &&& r.unwrap().base() == store@
                &&& r.unwrap().spec_confirmation().order == checkout_order(
                    store@,
                    cart@,
                    shipping,
                    payment_method,
                )
                &&& r.unwrap().spec_confirmation().details@ == (OrderDetailsView {
                    order_id: store@.ids.order,
                    shipping,
                    items: details_for(priced(store@, cart@)),
                })
            },
            Err(e) => r is Err && r.unwrap_err().0@ == store@ && r.unwrap_err().1 == e,
        },
{
    let ghost before = store@;
    let lines = match price_cart(&store, cart) {
        Ok(lines) => lines,
        Err(e) => {
            return Err((store, e));
        },
    };
    let mut tx = store.begin();
    let mut k: usize = 0;
    while k < lines.len()
        invariant
            k <= lines@.len(),
            tx.base() == before,
            before.reserve_all(lines@.take(k as int)) == Ok::<StoreView, CheckoutError>(tx@),
            before == store@,
            cart_valid(before, cart@),
            lines@ == priced(before, cart@),
        decreases lines@.len() - k,
    {
        let line = &lines[k];
        proof {
            assert(lines@.take(k as int + 1).drop_last() =~= lines@.take(k as int));
            assert(lines@.take(k as int + 1).last() == lines@[k as int]);
        }
        let ghost reached = tx@;
        match tx.reserve(line.product_id, line.size, line.quantity) {
            Ok(()) => {},
            Err(e) => {
                proof {
                    let upto = lines@.len() as int;
                    assert(reached.reserve(line.product_id, line.size, line.quantity) == Err::<
                        StoreView,
                        CheckoutError,
                    >(e));
                    assert(before.reserve_all(lines@.take(k as int + 1)) == Err::<
                        StoreView,
                        CheckoutError,
                    >(e));
                    lemma_reserve_all_refused(before, lines@, k as int, upto);
                    assert(lines@.take(upto) =~= lines@);
                }
                return Err((tx.rollback(), e));
            },
        }
        k = k + 1;
    }
    proof {
        assert(lines@.take(lines@.len() as int) =~= lines@);
        lemma_reserve_all_frame(before, lines@);
    }
    match tx.place_order(&lines, shipping, payment_method) {
        Ok(confirmation) => Ok(PendingCheckout { tx, confirmation }),
        Err(e) => Err((tx.rollback(), e)),
    }
}

/// Turns a cart into a committed order, or refuses it and leaves the store
/// as it was.
///
/// The cart is checked against the catalog before anything else. Then, in
/// one transaction, each line is reserved, the order is added with its
/// items, its shipping address and a pending payment for the total, and the
/// transaction is committed. `outcome` says how the commit ended in the store
/// underneath. A refusal at any step leaves no trace: neither of an order
/// nor in a counter.
pub fn checkout(
    store: &mut Store,
    cart: &Vec<CartLine>,
    shipping: ShippingInfo,
    payment_method: String,
    outcome: CommitOutcome,
) -> (r: Result<OrderConfirmation, CheckoutError>)
    ensures
        match checkout_state(old(store)@, cart@, shipping, payment_method, outcome) {
            Ok(state) => {
                &&& final(store)@ == state
                &&& r is Ok
                &&& r.unwrap().order == checkout_order(old(store)@, cart@, shipping, payment_method)
                &&& r.unwrap().details@ == (OrderDetailsView {
                    order_id: old(store)@.ids.order,
                    shipping,
                    items: details_for(priced(old(store)@, cart@)),
                })
            },
            Err(e) => r == Err::<OrderConfirmation, CheckoutError>(e) && final(store)@ == old(
                store,
            )@,
        },
{
    let mut held = Store::new();
    core::mem::swap(store, &mut held);
    match prepare_checkout(held, cart, shipping, payment_method) {
        Ok(pending) => {
            let (after, result) = pending.finish(outcome);
            *store = after;
            result
        },
        Err((unchanged, e)) => {
            *store = unchanged;
            Err(e)
        },
    }
}

/// What is left to do once the confirmation of a committed order has been
/// handed to the mailer: nothing that touches the order. The confirmation
/// comes back as it went in, with the failure to put in the log, if there
/// was one.
pub fn settle_notification(
    confirmation: OrderConfirmation,
    sent: Result<String, NotificationError>,
) -> (r: (OrderConfirmation, Option<NotificationError>))
    ensures
        r.0 == confirmation,
        r.1 == match sent {
            Ok(_) => None::<NotificationError>,
            Err(e) => Some(e),
        },
{
    match sent {
        Ok(_) => (confirmation, None),
        Err(e) => (confirmation, Some(e)),
    }
}

} // verus!
