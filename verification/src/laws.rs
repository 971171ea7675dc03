//! What holds of reservations and checkouts in every state.

use vstd::prelude::*;
use crate::catalog::Size;
use crate::checkout::{cart_valid, checkout_state, price_line, priced, CartLine};
use crate::error::CheckoutError;
use crate::order::{
    graph_for, items_total, lemma_lines_total_bound, lines_total, OrderLine, ShippingInfo,
};
use crate::state::{lemma_group_index, lemma_place_wf, lemma_product_index, StoreView};
use crate::store::CommitOutcome;

verus! {

/// Two states with the same catalog find every product in the same record.
pub proof fn lemma_same_catalog(a: StoreView, b: StoreView, id: i32)
    requires
        a.products_distinct(),
        a.catalog == b.catalog,
    ensures
        a.product(id) == b.product(id),
{
    if a.product_index(id) is Some {
        let i = a.product_index(id).unwrap();
        assert(a.has_product_at(id, i));
        assert(b.has_product_at(id, i));
        lemma_product_index(b, id, i);
    } else {
        assert forall|i: int| !b.has_product_at(id, i) by {
            assert(!a.has_product_at(id, i));
        }
    }
}

/// Two states whose size groups carry the same ids at the same places find
/// every group at the same place.
pub proof fn lemma_same_group_ids(a: StoreView, b: StoreView, id: i32)
    requires
        a.groups_distinct(),
        b.groups_distinct(),
        a.stock.len() == b.stock.len(),
        forall|i: int| 0 <= i < a.stock.len() ==> (#[trigger] a.stock[i]).id == b.stock[i].id,
    ensures
        a.group_index(id) == b.group_index(id),
{
    if a.group_index(id) is Some {
        let i = a.group_index(id).unwrap();
        assert(a.has_group_at(id, i));
        assert(a.stock[i].id == b.stock[i].id);
        assert(b.has_group_at(id, i));
        lemma_group_index(b, id, i);
    } else {
        assert forall|i: int| !b.has_group_at(id, i) by {
            assert(!a.has_group_at(id, i));
            if 0 <= i < a.stock.len() {
                assert(a.stock[i].id == b.stock[i].id);
            }
        }
    }
}

/// A reservation takes the units from one counter and leaves everything
/// else as it is: the other counters, the catalog, the orders, the ids, and
/// where each product's counters stand. No counter goes below zero.
pub proof fn law_reserve(state: StoreView, product_id: i32, size: Size, quantity: i32)
    requires
        state.wf(),
        state.reserve(product_id, size, quantity) is Ok,
    ensures
        ({
            let next = state.reserve(product_id, size, quantity).unwrap();
            let slot = state.counter_slot(product_id).unwrap();
            &&& next.wf()
            &&& next.categories == state.categories
            &&& next.catalog == state.catalog
            &&& next.orders == state.orders
            &&& next.ids == state.ids
            &&& next.stock.len() == state.stock.len()
            &&& 0 <= slot < state.stock.len()
            &&& 0 < quantity <= state.stock[slot].spec_counter(size)
            &&& next.stock[slot].spec_counter(size) == state.stock[slot].spec_counter(size)
                - quantity
            &&& forall|other: int, other_size: Size|
                0 <= other < state.stock.len() && !(other == slot && other_size == size)
                    ==> #[trigger] next.stock[other].spec_counter(other_size)
                    == state.stock[other].spec_counter(other_size)
            &&& forall|p: i32| #[trigger] next.counter_slot(p) == state.counter_slot(p)
            &&& forall|p: i32| #[trigger] next.product(p) == state.product(p)
        }),
{
    let next = state.reserve(product_id, size, quantity).unwrap();
    let slot = state.counter_slot(product_id).unwrap();
    let group = state.stock[slot];
    let group_id = state.product(product_id).unwrap().size_id.unwrap();
    assert(state.group_index(group_id) == Some(slot));
    assert(state.has_group_at(group_id, slot));
    group.law_with_counter(size, (group.spec_counter(size) - quantity) as i32, size);
    assert forall|i: int| 0 <= i < next.stock.len() implies (#[trigger] next.stock[i]).id
        == state.stock[i].id && next.stock[i].in_stock_range() by {
        assert(state.stock[i].in_stock_range());
    }
    assert(next.groups_distinct()) by {
        assert forall|i: int, j: int| 0 <= i < j < next.stock.len() implies (
        #[trigger] next.stock[i]).id != (#[trigger] next.stock[j]).id by {
            assert(state.stock[i].id != state.stock[j].id);
        }
    }
    assert forall|other: int, other_size: Size|
        0 <= other < state.stock.len() && !(other == slot && other_size == size)
            implies #[trigger] next.stock[other].spec_counter(other_size)
            == state.stock[other].spec_counter(other_size) by {
        if other == slot {
            group.law_with_counter(size, (group.spec_counter(size) - quantity) as i32, other_size);
        }
    }
    assert forall|p: i32| #[trigger] next.product(p) == state.product(p) by {
        lemma_same_catalog(state, next, p);
    }
    assert forall|p: i32| #[trigger] next.counter_slot(p) == state.counter_slot(p) by {
        lemma_same_catalog(state, next, p);
        match state.product(p) {
            Some(product) => match product.size_id {
                Some(g) => {
                    lemma_same_group_ids(state, next, g);
                },
                None => {},
            },
            None => {},
        }
    }
}

/// The units that the lines ask of one counter.
pub open spec fn units_asked(state: StoreView, lines: Seq<OrderLine>, slot: int, size: Size) -> int
    decreases lines.len(),
{
    if lines.len() == 0 {
        0
    } else {
        units_asked(state, lines.drop_last(), slot, size) + if state.counter_slot(
            lines.last().product_id,
        ) == Some(slot) && lines.last().size == size {
            lines.last().quantity as int
        } else {
            0
        }
    }
}

/// Lines that can all be reserved leave each counter lower by exactly what
/// they ask of it, and leave everything else as it is.
pub proof fn law_reserve_all(state: StoreView, lines: Seq<OrderLine>)
    requires
        state.wf(),
        state.reserve_all(lines) is Ok,
    ensures
        ({
            let next = state.reserve_all(lines).unwrap();
            &&& next.wf()
            &&& next.categories == state.categories
            &&& next.catalog == state.catalog
            &&& next.orders == state.orders
            &&& next.ids == state.ids
            &&& next.stock.len() == state.stock.len()
            &&& forall|slot: int, size: Size|
                0 <= slot < state.stock.len() ==> #[trigger] next.stock[slot].spec_counter(size)
                    == state.stock[slot].spec_counter(size) - units_asked(
                    state,
                    lines,
                    slot,
                    size,
                )
            &&& forall|slot: int, size: Size|
                0 <= slot < state.stock.len() ==> 0 <= #[trigger] units_asked(
                    state,
                    lines,
                    slot,
                    size,
                ) <= state.stock[slot].spec_counter(size)
            &&& forall|p: i32| #[trigger] next.counter_slot(p) == state.counter_slot(p)
            &&& forall|p: i32| #[trigger] next.product(p) == state.product(p)
        }),
    decreases lines.len(),
{
    if lines.len() > 0 {
        let before = state.reserve_all(lines.drop_last()).unwrap();
        let line = lines.last();
        law_reserve_all(state, lines.drop_last());
        law_reserve(before, line.product_id, line.size, line.quantity);
        let next = state.reserve_all(lines).unwrap();
        let taken = before.counter_slot(line.product_id).unwrap();
        assert(state.counter_slot(line.product_id) == Some(taken));
        assert forall|slot: int, size: Size| 0 <= slot < state.stock.len() implies (
        #[trigger] next.stock[slot].spec_counter(size)) == state.stock[slot].spec_counter(size)
            - units_asked(state, lines, slot, size) by {
            assert(before.stock[slot].spec_counter(size) == state.stock[slot].spec_counter(size)
                - units_asked(state, lines.drop_last(), slot, size));
            if !(slot == taken && size == line.size) {
                assert(next.stock[slot].spec_counter(size) == before.stock[slot].spec_counter(
                    size,
                ));
            }
        }
        assert forall|slot: int, size: Size| 0 <= slot < state.stock.len() implies 0
            <= #[trigger] units_asked(state, lines, slot, size) <= state.stock[slot].spec_counter(
            size,
        ) by {
            assert(0 <= units_asked(state, lines.drop_last(), slot, size));
            assert(next.stock[slot].spec_counter(size) == state.stock[slot].spec_counter(size)
                - units_asked(state, lines, slot, size));
            assert(next.stock[slot].in_stock_range());
        }
        assert forall|p: i32| #[trigger] next.counter_slot(p) == state.counter_slot(p) by {
            assert(next.counter_slot(p) == before.counter_slot(p));
            assert(before.counter_slot(p) == state.counter_slot(p));
        }
        assert forall|p: i32| #[trigger] next.product(p) == state.product(p) by {
            assert(next.product(p) == before.product(p));
            assert(before.product(p) == state.product(p));
        }
    } else {
        assert forall|slot: int, size: Size| 0 <= slot < state.stock.len() implies 0
            <= #[trigger] units_asked(state, lines, slot, size) <= state.stock[slot].spec_counter(
            size,
        ) by {
            assert(state.stock[slot].in_stock_range());
        }
    }
}

/// Every line asks for at least one unit of a product that has counters.
pub open spec fn lines_acceptable(state: StoreView, lines: Seq<OrderLine>) -> bool {
    forall|k: int|
        0 <= k < lines.len() ==> (#[trigger] lines[k]).quantity > 0 && state.counter_slot(
            lines[k].product_id,
        ) is Some
}

/// No counter is asked for more units than it holds.
pub open spec fn stock_suffices(state: StoreView, lines: Seq<OrderLine>) -> bool {
    forall|slot: int, size: Size|
        0 <= slot < state.stock.len() ==> #[trigger] units_asked(state, lines, slot, size)
            <= state.stock[slot].spec_counter(size)
}

/// More lines ask for no less.
pub proof fn lemma_units_asked_grow(state: StoreView, lines: Seq<OrderLine>, slot: int, size: Size)
    requires
        lines.len() > 0,
        lines.last().quantity > 0,
    ensures
        units_asked(state, lines.drop_last(), slot, size) <= units_asked(state, lines, slot, size),
{
}

/// Whether a list of acceptable lines can be reserved is a matter of sums:
/// it can be when no counter is asked for more than it holds, and
/// otherwise the refusal is `InsufficientStock`.
pub proof fn law_stock_decides(state: StoreView, lines: Seq<OrderLine>)
    requires
        state.wf(),
        lines_acceptable(state, lines),
    ensures
        state.reserve_all(lines) is Ok <==> stock_suffices(state, lines),
        state.reserve_all(lines) is Err ==> state.reserve_all(lines) == Err::<
            StoreView,
            CheckoutError,
        >(CheckoutError::InsufficientStock),
    decreases lines.len(),
{
    if lines.len() == 0 {
        assert forall|slot: int, size: Size| 0 <= slot < state.stock.len() implies (
        #[trigger] units_asked(state, lines, slot, size)) <= state.stock[slot].spec_counter(
            size,
        ) by {
            assert(state.stock[slot].in_stock_range());
        }
    } else {
        let rest = lines.drop_last();
        let line = lines.last();
        assert(lines_acceptable(state, rest)) by {
            assert forall|k: int| 0 <= k < rest.len() implies (#[trigger] rest[k]).quantity > 0
                && state.counter_slot(rest[k].product_id) is Some by {
                assert(rest[k] == lines[k]);
            }
        }
        assert(line == lines[lines.len() - 1]);
        law_stock_decides(state, rest);
        let slot = state.counter_slot(line.product_id).unwrap();
        if state.reserve_all(lines) is Ok {
            law_reserve_all(state, lines);
        }
        if stock_suffices(state, lines) {
            assert(stock_suffices(state, rest)) by {
                assert forall|other: int, size: Size| 0 <= other < state.stock.len() implies (
                #[trigger] units_asked(state, rest, other, size)) <= state.stock[other].spec_counter(
                    size,
                ) by {
                    lemma_units_asked_grow(state, lines, other, size);
                    assert(units_asked(state, lines, other, size) <= state.stock[other].spec_counter(
                        size,
                    ));
                }
            }
            law_reserve_all(state, rest);
            let before = state.reserve_all(rest).unwrap();
            assert(before.counter_slot(line.product_id) == state.counter_slot(line.product_id));
            assert(state.product(line.product_id) is Some);
            let group_id = state.product(line.product_id).unwrap().size_id.unwrap();
            assert(state.has_group_at(group_id, slot));
            assert(before.stock[slot].spec_counter(line.size) == state.stock[slot].spec_counter(
                line.size,
            ) - units_asked(state, rest, slot, line.size));
            assert(units_asked(state, lines, slot, line.size) <= state.stock[slot].spec_counter(
                line.size,
            ));
            assert(state.reserve_all(lines) is Ok);
        }
        if state.reserve_all(rest) is Ok {
            law_reserve_all(state, rest);
            let before = state.reserve_all(rest).unwrap();
            assert(before.counter_slot(line.product_id) == state.counter_slot(line.product_id));
        }
    }
}

/// The lines of an acceptable cart are acceptable, and a state that finds
/// the same products and the same counters prices the cart in the same way.
pub proof fn lemma_priced(state: StoreView, cart: Seq<CartLine>)
    requires
        cart_valid(state, cart),
    ensures
        lines_acceptable(state, priced(state, cart)),
        priced(state, cart).len() == cart.len(),
{
    let lines = priced(state, cart);
    assert forall|k: int| 0 <= k < lines.len() implies (#[trigger] lines[k]).quantity > 0
        && state.counter_slot(lines[k].product_id) is Some by {
        assert(price_line(state, cart[k]) is Some);
    }
}

/// A state that finds the same products and the same counters accepts the
/// same carts and prices them in the same way.
pub proof fn lemma_priced_alike(a: StoreView, b: StoreView, cart: Seq<CartLine>)
    requires
        forall|p: i32| #[trigger] b.counter_slot(p) == a.counter_slot(p),
        forall|p: i32| #[trigger] b.product(p) == a.product(p),
    ensures
        cart_valid(a, cart) == cart_valid(b, cart),
        cart_valid(a, cart) ==> priced(a, cart) == priced(b, cart),
{
    assert forall|k: int| 0 <= k < cart.len() implies price_line(a, #[trigger] cart[k])
        == price_line(b, cart[k]) by {
        assert(b.product(cart[k].product_id) == a.product(cart[k].product_id));
        assert(b.counter_slot(cart[k].product_id) == a.counter_slot(cart[k].product_id));
    }
    if cart_valid(a, cart) {
        assert(priced(a, cart) =~= priced(b, cart));
    }
}

/// When a checkout is refused, and how. The cart decides first, then the
/// stock, then the ids and the commit:
/// - `ValidationError` exactly when the cart is not acceptable;
/// - `InsufficientStock` exactly when the cart is acceptable and asks some
///   counter for more units than it holds;
/// - `PersistenceError` exactly when cart and stock are in order and the ids
///   have run out or the commit failed.
pub proof fn law_checkout_refusals(
    state: StoreView,
    cart: Seq<CartLine>,
    shipping: ShippingInfo,
    payment_method: String,
    outcome: CommitOutcome,
)
    requires
        state.wf(),
    ensures
        ({
            let result = checkout_state(state, cart, shipping, payment_method, outcome);
            let lines = priced(state, cart);
            &&& result == Err::<StoreView, CheckoutError>(CheckoutError::ValidationError)
                <==> !cart_valid(state, cart)
            &&& result == Err::<StoreView, CheckoutError>(CheckoutError::InsufficientStock)
                <==> cart_valid(state, cart) && !stock_suffices(state, lines)
            &&& result == Err::<StoreView, CheckoutError>(CheckoutError::PersistenceError)
                <==> cart_valid(state, cart) && stock_suffices(state, lines) && (
            !state.ids.spec_can_allocate(cart.len()) || outcome == CommitOutcome::Failed)
            &&& result is Ok <==> cart_valid(state, cart) && stock_suffices(state, lines)
                && state.ids.spec_can_allocate(cart.len()) && outcome == CommitOutcome::Committed
        }),
{
    if cart_valid(state, cart) {
        let lines = priced(state, cart);
        lemma_priced(state, cart);
        law_stock_decides(state, lines);
        if state.reserve_all(lines) is Ok {
            law_reserve_all(state, lines);
        }
    }
}

/// What a successful checkout leaves: a well-formed state with the same
/// catalog, one more order, and each counter lower by what the cart asked of
/// it. The new order is pending, its total is the sum of quantity times unit
/// price over the cart, which is the sum of its items' totals, and its
/// payment is pending for that amount.
pub proof fn law_checkout_effect(
    state: StoreView,
    cart: Seq<CartLine>,
    shipping: ShippingInfo,
    payment_method: String,
    outcome: CommitOutcome,
)
    requires
        state.wf(),
        cart.len() <= usize::MAX,
        checkout_state(state, cart, shipping, payment_method, outcome) is Ok,
    ensures
        ({
            let next = checkout_state(state, cart, shipping, payment_method, outcome).unwrap();
            let lines = priced(state, cart);
            let graph = graph_for(lines, shipping, payment_method, state.ids);
            &&& next.wf()
            &&& next.categories == state.categories
            &&& next.catalog == state.catalog
            &&& next.orders == state.orders.push(graph)
            &&& next.ids == state.ids.spec_after(cart.len())
            &&& graph.wf()
            &&& graph.order.id == state.ids.order
            &&& graph.order.total_price == lines_total(lines)
            &&& graph.order.total_price == items_total(graph.items)
            &&& graph.payment.amount == graph.order.total_price
            &&& graph.items.len() == cart.len()
            &&& next.stock.len() == state.stock.len()
            &&& forall|slot: int, size: Size|
                0 <= slot < state.stock.len() ==> #[trigger] next.stock[slot].spec_counter(size)
                    == state.stock[slot].spec_counter(size) - units_asked(
                    state,
                    lines,
                    slot,
                    size,
                )
            &&& forall|p: i32| #[trigger] next.counter_slot(p) == state.counter_slot(p)
            &&& forall|p: i32| #[trigger] next.product(p) == state.product(p)
        }),
{
    let lines = priced(state, cart);
    let reserved = state.reserve_all(lines).unwrap();
    law_reserve_all(state, lines);
    lemma_place_wf(reserved, lines, shipping, payment_method);
    lemma_lines_total_bound(lines);
    let next = reserved.place(lines, shipping, payment_method).unwrap();
    assert forall|p: i32| #[trigger] next.product(p) == state.product(p) by {
        lemma_same_catalog(reserved, next, p);
        assert(reserved.product(p) == state.product(p));
    }
    assert forall|p: i32| #[trigger] next.counter_slot(p) == state.counter_slot(p) by {
        lemma_same_catalog(reserved, next, p);
        assert(reserved.counter_slot(p) == state.counter_slot(p));
        match reserved.product(p) {
            Some(product) => match product.size_id {
                Some(g) => {
                    lemma_same_group_ids(reserved, next, g);
                },
                None => {},
            },
            None => {},
        }
    }
}

/// The last unit goes to one customer only. When a counter holds one unit
/// and two checkouts each ask for that unit, the one that comes first commits
/// and leaves the counter at zero, and the other is refused for want of
/// stock, whatever its shipping address, its payment method and the outcome
/// of its commit would have been.
pub proof fn law_last_unit(
    state: StoreView,
    line: CartLine,
    first_shipping: ShippingInfo,
    first_method: String,
    second_shipping: ShippingInfo,
    second_method: String,
    second_outcome: CommitOutcome,
)
    requires
        state.wf(),
        line.quantity == 1,
        state.stock_of(line.product_id, line.size) == Some(1i32),
        state.ids.spec_can_allocate(1),
    ensures
        ({
            let cart = seq![line];
            let first = checkout_state(
                state,
                cart,
                first_shipping,
                first_method,
                CommitOutcome::Committed,
            );
            &&& first is Ok
            &&& first.unwrap().stock_of(line.product_id, line.size) == Some(0i32)
            &&& checkout_state(first.unwrap(), cart, second_shipping, second_method, second_outcome)
                == Err::<StoreView, CheckoutError>(CheckoutError::InsufficientStock)
        }),
{
    let cart = seq![line];
    let slot = state.counter_slot(line.product_id).unwrap();
    assert(cart_valid(state, cart)) by {
        assert forall|k: int| 0 <= k < cart.len() implies price_line(state, #[trigger] cart[k])
            is Some by {
            assert(cart[k] == line);
        }
    }
    let lines = priced(state, cart);
    lemma_priced(state, cart);
    assert(lines.drop_last() =~= Seq::<OrderLine>::empty());
    assert(lines.last() == price_line(state, line).unwrap());
    assert(state.reserve_all(lines.drop_last()) == Ok::<StoreView, CheckoutError>(state));
    let group_id = state.product(line.product_id).unwrap().size_id.unwrap();
    assert(state.has_group_at(group_id, slot));
    assert(state.reserve_all(lines) is Ok);
    let first = checkout_state(state, cart, first_shipping, first_method, CommitOutcome::Committed);
    assert(first is Ok);
    law_checkout_effect(state, cart, first_shipping, first_method, CommitOutcome::Committed);
    let next = first.unwrap();
    assert(units_asked(state, lines, slot, line.size) == 1) by {
        assert(units_asked(state, lines.drop_last(), slot, line.size) == 0);
    }
    assert(next.counter_slot(line.product_id) == state.counter_slot(line.product_id));
    assert(next.stock[slot].spec_counter(line.size) == 0);
    lemma_priced_alike(state, next, cart);
    assert(priced(next, cart) == lines);
    assert(units_asked(next, lines, slot, line.size) == 1) by {
        assert(units_asked(next, lines.drop_last(), slot, line.size) == 0);
    }
    assert(!stock_suffices(next, lines));
    law_checkout_refusals(next, cart, second_shipping, second_method, second_outcome);
}

/// A checkout is not remembered: the same call made again is a new order.
/// When a checkout commits and the same checkout commits again, the store
/// holds two more orders with different ids and equal totals, and each
/// counter is lower by twice what the cart asks of it.
pub proof fn law_checkout_twice(
    state: StoreView,
    cart: Seq<CartLine>,
    shipping: ShippingInfo,
    payment_method: String,
)
    requires
        state.wf(),
        cart.len() <= usize::MAX,
        checkout_state(state, cart, shipping, payment_method, CommitOutcome::Committed) is Ok,
        checkout_state(
            checkout_state(
                state,
                cart,
                shipping,
                payment_method,
                CommitOutcome::Committed,
            ).unwrap(),
            cart,
            shipping,
            payment_method,
            CommitOutcome::Committed,
        ) is Ok,
    ensures
        ({
            let once = checkout_state(
                state,
                cart,
                shipping,
                payment_method,
                CommitOutcome::Committed,
            ).unwrap();
            let twice = checkout_state(
                once,
                cart,
                shipping,
                payment_method,
                CommitOutcome::Committed,
            ).unwrap();
            let n = state.orders.len() as int;
            let lines = priced(state, cart);
            &&& twice.wf()
            &&& twice.orders.len() == n + 2
            &&& twice.orders.take(n) == state.orders
            &&& twice.orders[n].order.id == state.ids.order
            &&& twice.orders[n + 1].order.id == state.ids.order + 1
            &&& twice.orders[n].order.total_price == lines_total(lines)
            &&& twice.orders[n + 1].order.total_price == lines_total(lines)
            &&& twice.orders[n].items.len() == cart.len()
            &&& twice.orders[n + 1].items.len() == cart.len()
            &&& forall|slot: int, size: Size|
                0 <= slot < state.stock.len() ==> #[trigger] twice.stock[slot].spec_counter(size)
                    == state.stock[slot].spec_counter(size) - 2 * units_asked(
                    state,
                    lines,
                    slot,
                    size,
                )
        }),
{
    let committed = CommitOutcome::Committed;
    let once = checkout_state(state, cart, shipping, payment_method, committed).unwrap();
    let twice = checkout_state(once, cart, shipping, payment_method, committed).unwrap();
    let lines = priced(state, cart);
    let n = state.orders.len() as int;
    law_checkout_effect(state, cart, shipping, payment_method, CommitOutcome::Committed);
    lemma_priced_alike(state, once, cart);
    law_checkout_effect(once, cart, shipping, payment_method, CommitOutcome::Committed);
    assert(twice.orders.take(n) =~= state.orders);
    assert forall|slot: int, size: Size| 0 <= slot < state.stock.len() implies (
    #[trigger] twice.stock[slot].spec_counter(size)) == state.stock[slot].spec_counter(size) - 2
        * units_asked(state, lines, slot, size) by {
        lemma_units_asked_alike(state, once, lines, slot, size);
        assert(once.stock[slot].spec_counter(size) == state.stock[slot].spec_counter(size)
            - units_asked(state, lines, slot, size));
    }
}

/// States that find the same counters for every product count the same
/// units asked.
pub proof fn lemma_units_asked_alike(
    a: StoreView,
    b: StoreView,
    lines: Seq<OrderLine>,
    slot: int,
    size: Size,
)
    requires
        forall|p: i32| #[trigger] b.counter_slot(p) == a.counter_slot(p),
    ensures
        units_asked(a, lines, slot, size) == units_asked(b, lines, slot, size),
    decreases lines.len(),
{
    if lines.len() > 0 {
        lemma_units_asked_alike(a, b, lines.drop_last(), slot, size);
        assert(b.counter_slot(lines.last().product_id) == a.counter_slot(lines.last().product_id));
    }
}

/// In every well-formed state each order adds up: its total is the sum of
/// its items' totals, each item's total is its quantity times its unit
/// price, and its payment is for the order's total.
pub proof fn law_order_totals(state: StoreView, i: int)
    requires
        state.wf(),
        0 <= i < state.orders.len(),
    ensures
        state.orders[i].order.total_price == items_total(state.orders[i].items),
        state.orders[i].payment.amount == state.orders[i].order.total_price,
        forall|j: int|
            0 <= j < state.orders[i].items.len() ==> (
            #[trigger] state.orders[i].items[j]).spec_total_price() == state.orders[i].items[j].quantity
                * state.orders[i].items[j].price,
{
    assert(state.orders[i].wf());
}

/// In every well-formed state no counter is below zero.
pub proof fn law_stock_never_negative(state: StoreView, product_id: i32, size: Size)
    requires
        state.wf(),
    ensures
        state.stock_of(product_id, size) matches Some(units) ==> units >= 0,
        forall|slot: int|
            0 <= slot < state.stock.len() ==> (#[trigger] state.stock[slot]).spec_counter(size)
                >= 0,
{
    assert forall|slot: int| 0 <= slot < state.stock.len() implies (
    #[trigger] state.stock[slot]).spec_counter(size) >= 0 by {
        assert(state.stock[slot].in_stock_range());
    }
    if state.counter_slot(product_id) is Some {
        let slot = state.counter_slot(product_id).unwrap();
        let group_id = state.product(product_id).unwrap().size_id.unwrap();
        assert(state.has_group_at(group_id, slot));
        assert(state.stock[slot].in_stock_range());
    }
}

} // verus!
