//! The state of a store as a mathematical value, and what each operation
//! makes of it.

use vstd::prelude::*;
use crate::catalog::{CatalogEntry, Category, Product, Size};
use crate::error::CheckoutError;
use crate::inventory::SizeGroup;
use crate::order::{
    graph_for, lemma_items_total, lemma_lines_total_bound, IdCounters, OrderGraphView, OrderLine,
    OrderStatus, ShippingInfo,
};

verus! {

/// The state of a store as a value: the categories, the catalog, the stock
/// counters, the orders in the order in which they were committed, and the
/// next free ids.
pub struct StoreView {
    pub categories: Seq<Category>,
    pub catalog: Seq<CatalogEntry>,
    pub stock: Seq<SizeGroup>,
    pub orders: Seq<OrderGraphView>,
    pub ids: IdCounters,
}

impl StoreView {
    pub open spec fn has_category_at(self, id: i32, i: int) -> bool {
        0 <= i < self.categories.len() && self.categories[i].id == id
    }

    /// Where among the categories the category with this id stands.
    pub open spec fn category_index(self, id: i32) -> Option<int> {
        if exists|i: int| self.has_category_at(id, i) {
            Some(choose|i: int| self.has_category_at(id, i))
        } else {
            None
        }
    }

    /// The category with this id.
    pub open spec fn category(self, id: i32) -> Option<Category> {
        match self.category_index(id) {
            Some(i) => Some(self.categories[i]),
            None => None,
        }
    }

    /// Whether a category bears this name.
    pub open spec fn category_named(self, name: Seq<char>) -> bool {
        exists|i: int|
            0 <= i < self.categories.len() && (#[trigger] self.categories[i]).name@ == name
    }

    pub open spec fn has_product_at(self, id: i32, i: int) -> bool {
        0 <= i < self.catalog.len() && self.catalog[i].id == id
    }

    /// Where in the catalog the product with this id stands.
    pub open spec fn product_index(self, id: i32) -> Option<int> {
        if exists|i: int| self.has_product_at(id, i) {
            Some(choose|i: int| self.has_product_at(id, i))
        } else {
            None
        }
    }

    /// The product with this id.
    pub open spec fn product(self, id: i32) -> Option<Product> {
        match self.product_index(id) {
            Some(i) => Some(self.catalog[i].product),
            None => None,
        }
    }

    pub open spec fn has_group_at(self, id: i32, i: int) -> bool {
        0 <= i < self.stock.len() && self.stock[i].id == id
    }

    /// Where in the stock the size group with this id stands.
    pub open spec fn group_index(self, id: i32) -> Option<int> {
        if exists|i: int| self.has_group_at(id, i) {
            Some(choose|i: int| self.has_group_at(id, i))
        } else {
            None
        }
    }

    /// The size group with this id.
    pub open spec fn size_group(self, id: i32) -> Option<SizeGroup> {
        match self.group_index(id) {
            Some(i) => Some(self.stock[i]),
            None => None,
        }
    }

    /// Where in the stock the counters of a product stand: the size group
    /// that the product's catalog record refers to.
    pub open spec fn counter_slot(self, product_id: i32) -> Option<int> {
        match self.product(product_id) {
            Some(product) => match product.size_id {
                Some(group_id) => self.group_index(group_id),
                None => None,
            },
            None => None,
        }
    }

    /// The units in stock of a product in one size.
    pub open spec fn stock_of(self, product_id: i32, size: Size) -> Option<i32> {
        match self.counter_slot(product_id) {
            Some(slot) => Some(self.stock[slot].spec_counter(size)),
            None => None,
        }
    }

    pub open spec fn has_order_at(self, id: i32, i: int) -> bool {
        0 <= i < self.orders.len() && self.orders[i].order.id == id
    }

    /// Where among the orders the order with this id stands.
    pub open spec fn order_index(self, id: i32) -> Option<int> {
        if exists|i: int| self.has_order_at(id, i) {
            Some(choose|i: int| self.has_order_at(id, i))
        } else {
            None
        }
    }

    /// The order with this id, with all that belongs to it.
    pub open spec fn order(self, id: i32) -> Option<OrderGraphView> {
        match self.order_index(id) {
            Some(i) => Some(self.orders[i]),
            None => None,
        }
    }

    /// No two categories share an id or a name.
    pub open spec fn categories_distinct(self) -> bool {
        forall|i: int, j: int|
            0 <= i < j < self.categories.len() ==> (#[trigger] self.categories[i]).id != (
            #[trigger] self.categories[j]).id && self.categories[i].name@
                != self.categories[j].name@
    }

    /// No two products share an id.
    pub open spec fn products_distinct(self) -> bool {
        forall|i: int, j: int|
            0 <= i < j < self.catalog.len() ==> (#[trigger] self.catalog[i]).id != (
            #[trigger] self.catalog[j]).id
    }

    /// No two size groups share an id.
    pub open spec fn groups_distinct(self) -> bool {
        forall|i: int, j: int|
            0 <= i < j < self.stock.len() ==> (#[trigger] self.stock[i]).id != (
            #[trigger] self.stock[j]).id
    }

    /// No two orders share an id.
    pub open spec fn orders_distinct(self) -> bool {
        forall|i: int, j: int|
            0 <= i < j < self.orders.len() ==> (#[trigger] self.orders[i]).order.id != (
            #[trigger] self.orders[j]).order.id
    }

    /// No counter is below zero.
    pub open spec fn stock_in_range(self) -> bool {
        forall|i: int| 0 <= i < self.stock.len() ==> (#[trigger] self.stock[i]).in_stock_range()
    }

    /// Every order is consistent in itself and its ids are below the
    /// counters.
    pub open spec fn orders_wf(self) -> bool {
        forall|i: int|
            0 <= i < self.orders.len() ==> (#[trigger] self.orders[i]).wf()
                && self.orders[i].ids_below(self.ids)
    }

    /// What holds of every store: ids are unique, no counter is below zero,
    /// and every order adds up.
    pub open spec fn wf(self) -> bool {
        &&& self.ids.wf()
        &&& self.categories_distinct()
        &&& self.products_distinct()
        &&& self.groups_distinct()
        &&& self.orders_distinct()
        &&& self.stock_in_range()
        &&& self.orders_wf()
    }

    /// The state with nothing in it.
    pub open spec fn empty() -> StoreView {
        StoreView {
            categories: Seq::empty(),
            catalog: Seq::empty(),
            stock: Seq::empty(),
            orders: Seq::empty(),
            ids: IdCounters { order: 1, item: 1, shipping: 1, payment: 1 },
        }
    }

    /// The state after a product has been added to the catalog, or
    /// `PersistenceError` when its id is taken.
    pub open spec fn insert_product(self, id: i32, product: Product) -> Result<
        StoreView,
        CheckoutError,
    > {
        if self.product_index(id) is Some {
            Err(CheckoutError::PersistenceError)
        } else {
            Ok(StoreView { catalog: self.catalog.push(CatalogEntry { id, product }), ..self })
        }
    }

    /// The state after the counters of a product have been added:
    /// `ValidationError` when a counter is below zero, `PersistenceError`
    /// when the group's id is taken.
    pub open spec fn insert_size_group(self, group: SizeGroup) -> Result<StoreView, CheckoutError> {
        if !group.in_stock_range() {
            Err(CheckoutError::ValidationError)
        } else if self.group_index(group.id) is Some {
            Err(CheckoutError::PersistenceError)
        } else {
            Ok(StoreView { stock: self.stock.push(group), ..self })
        }
    }

    /// The state after a reservation, or why the reservation is refused.
    /// Units are taken from the counter of the product's size group when it
    /// holds at least as many as are asked for.
    pub open spec fn reserve(self, product_id: i32, size: Size, quantity: i32) -> Result<
        StoreView,
        CheckoutError,
    > {
        if quantity <= 0 {
            Err(CheckoutError::ValidationError)
        } else {
            match self.counter_slot(product_id) {
                None => Err(CheckoutError::ValidationError),
                Some(slot) => {
                    let group = self.stock[slot];
                    if group.spec_counter(size) >= quantity {
                        Ok(
                            StoreView {
                                stock: self.stock.update(
                                    slot,
                                    group.spec_with_counter(
                                        size,
                                        (group.spec_counter(size) - quantity) as i32,
                                    ),
                                ),
                                ..self
                            },
                        )
                    } else {
                        Err(CheckoutError::InsufficientStock)
                    }
                },
            }
        }
    }

    /// The state after the lines have been reserved one after the other, or
    /// the refusal of the first line that cannot be reserved.
    pub open spec fn reserve_all(self, lines: Seq<OrderLine>) -> Result<StoreView, CheckoutError>
        decreases lines.len(),
    {
        if lines.len() == 0 {
            Ok(self)
        } else {
            match self.reserve_all(lines.drop_last()) {
                Ok(state) => state.reserve(
                    lines.last().product_id,
                    lines.last().size,
                    lines.last().quantity,
                ),
                Err(e) => Err(e),
            }
        }
    }

    /// The state after a new pending order made of `lines` has been added,
    /// or `PersistenceError` when the ids have run out.
    pub open spec fn place(
        self,
        lines: Seq<OrderLine>,
        shipping: ShippingInfo,
        payment_method: String,
    ) -> Result<StoreView, CheckoutError> {
        if self.ids.spec_can_allocate(lines.len()) {
            Ok(
                StoreView {
                    orders: self.orders.push(graph_for(lines, shipping, payment_method, self.ids)),
                    ids: self.ids.spec_after(lines.len()),
                    ..self
                },
            )
        } else {
            Err(CheckoutError::PersistenceError)
        }
    }

    /// The state after a product has left the catalog, or `ValidationError`
    /// when the catalog holds no such product. Orders keep the items that
    /// were bought; the items no longer refer to the product.
    pub open spec fn remove_product(self, id: i32) -> Result<StoreView, CheckoutError> {
        match self.product_index(id) {
            Some(i) => Ok(
                StoreView {
                    catalog: self.catalog.remove(i),
                    orders: Seq::new(
                        self.orders.len(),
                        |k: int| self.orders[k].without_product(id),
                    ),
                    ..self
                },
            ),
            None => Err(CheckoutError::ValidationError),
        }
    }

    /// The state after a category has been added, or `PersistenceError`
    /// when its id or its name is taken.
    pub open spec fn insert_category(self, id: i32, name: String) -> Result<
        StoreView,
        CheckoutError,
    > {
        if self.category_index(id) is Some || self.category_named(name@) {
            Err(CheckoutError::PersistenceError)
        } else {
            Ok(StoreView { categories: self.categories.push(Category { id, name }), ..self })
        }
    }

    /// The state after a category has gone, or `ValidationError` when there
    /// is no such category. The products that were in it are in none.
    pub open spec fn remove_category(self, id: i32) -> Result<StoreView, CheckoutError> {
        match self.category_index(id) {
            Some(i) => Ok(
                StoreView {
                    categories: self.categories.remove(i),
                    catalog: Seq::new(
                        self.catalog.len(),
                        |k: int| self.catalog[k].without_category(id),
                    ),
                    ..self
                },
            ),
            None => Err(CheckoutError::ValidationError),
        }
    }

    /// The state after an image has gone: the products that had it as their
    /// primary image have none.
    pub open spec fn forget_image(self, image_id: i32) -> StoreView {
        StoreView {
            catalog: Seq::new(self.catalog.len(), |i: int| self.catalog[i].without_image(image_id)),
            ..self
        }
    }

    /// The state after the order with this id has taken a step of its life
    /// cycle, or `ValidationError` when there is no such order or no such
    /// step.
    pub open spec fn advance(self, order_id: i32, next: OrderStatus) -> Result<
        StoreView,
        CheckoutError,
    > {
        match self.order_index(order_id) {
            Some(i) => if self.orders[i].order.status.spec_can_become(next) {
                Ok(
                    StoreView {
                        orders: self.orders.update(i, self.orders[i].with_status(next)),
                        ..self
                    },
                )
            } else {
                Err(CheckoutError::ValidationError)
            },
            None => Err(CheckoutError::ValidationError),
        }
    }
}

/// In a state without duplicate ids, a category stands where its id is
/// found.
pub proof fn lemma_category_index(state: StoreView, id: i32, i: int)
    requires
        state.categories_distinct(),
        state.has_category_at(id, i),
    ensures
        state.category_index(id) == Some(i),
{
    let c = choose|c: int| state.has_category_at(id, c);
    assert(state.has_category_at(id, c));
    if c < i {
        assert(state.categories[c].id != state.categories[i].id);
    } else if i < c {
        assert(state.categories[i].id != state.categories[c].id);
    }
}

/// In a state without duplicate ids, a product stands where its id is found.
pub proof fn lemma_product_index(state: StoreView, id: i32, i: int)
    requires
        state.products_distinct(),
        state.has_product_at(id, i),
    ensures
        state.product_index(id) == Some(i),
{
    let c = choose|c: int| state.has_product_at(id, c);
    assert(state.has_product_at(id, c));
    if c < i {
        assert(state.catalog[c].id != state.catalog[i].id);
    } else if i < c {
        assert(state.catalog[i].id != state.catalog[c].id);
    }
}

/// In a state without duplicate ids, a size group stands where its id is
/// found.
pub proof fn lemma_group_index(state: StoreView, id: i32, i: int)
    requires
        state.groups_distinct(),
        state.has_group_at(id, i),
    ensures
        state.group_index(id) == Some(i),
{
    let c = choose|c: int| state.has_group_at(id, c);
    assert(state.has_group_at(id, c));
    if c < i {
        assert(state.stock[c].id != state.stock[i].id);
    } else if i < c {
        assert(state.stock[i].id != state.stock[c].id);
    }
}

/// In a state without duplicate ids, an order stands where its id is found.
pub proof fn lemma_order_index(state: StoreView, id: i32, i: int)
    requires
        state.orders_distinct(),
        state.has_order_at(id, i),
    ensures
        state.order_index(id) == Some(i),
{
    let c = choose|c: int| state.has_order_at(id, c);
    assert(state.has_order_at(id, c));
    if c < i {
        assert(state.orders[c].order.id != state.orders[i].order.id);
    } else if i < c {
        assert(state.orders[i].order.id != state.orders[c].order.id);
    }
}

/// A well-formed state is well formed with fewer orders.
pub proof fn lemma_prefix_wf(state: StoreView, kept: int)
    requires
        state.wf(),
        0 <= kept <= state.orders.len(),
    ensures
        (StoreView { orders: state.orders.take(kept), ..state }).wf(),
{
    let less = StoreView { orders: state.orders.take(kept), ..state };
    assert forall|i: int| 0 <= i < less.orders.len() implies (#[trigger] less.orders[i]).wf()
        && less.orders[i].ids_below(less.ids) by {
        assert(state.orders[i].wf() && state.orders[i].ids_below(state.ids));
    }
    assert forall|i: int, j: int| 0 <= i < j < less.orders.len() implies (
    #[trigger] less.orders[i]).order.id != (#[trigger] less.orders[j]).order.id by {
        assert(state.orders[i].order.id != state.orders[j].order.id);
    }
}

/// A state whose orders are below its counters keeps them below the counters
/// that follow.
pub proof fn lemma_next_ids(state: StoreView, items: nat)
    requires
        state.wf(),
        state.ids.spec_can_allocate(items),
    ensures
        (StoreView { ids: state.ids.spec_after(items), ..state }).wf(),
{
    let next = StoreView { ids: state.ids.spec_after(items), ..state };
    assert forall|i: int| 0 <= i < next.orders.len() implies (#[trigger] next.orders[i]).wf()
        && next.orders[i].ids_below(next.ids) by {
        assert(state.orders[i].wf() && state.orders[i].ids_below(state.ids));
    }
}

/// Placing an order in a well-formed state gives a well-formed state: the
/// new order adds up and its ids are new.
pub proof fn lemma_place_wf(
    state: StoreView,
    lines: Seq<OrderLine>,
    shipping: ShippingInfo,
    payment_method: String,
)
    requires
        state.wf(),
        lines.len() <= usize::MAX,
        state.place(lines, shipping, payment_method) is Ok,
    ensures
        state.place(lines, shipping, payment_method).unwrap().wf(),
        graph_for(lines, shipping, payment_method, state.ids).wf(),
{
    let graph = graph_for(lines, shipping, payment_method, state.ids);
    let next = state.place(lines, shipping, payment_method).unwrap();
    lemma_lines_total_bound(lines);
    lemma_items_total(lines, state.ids.order, state.ids.item as int);
    assert(graph.wf());
    assert(graph.ids_below(next.ids));
    assert forall|i: int| 0 <= i < next.orders.len() implies (#[trigger] next.orders[i]).wf()
        && next.orders[i].ids_below(next.ids) by {
        if i < state.orders.len() {
            assert(state.orders[i].wf() && state.orders[i].ids_below(state.ids));
        }
    }
    assert forall|i: int, j: int| 0 <= i < j < next.orders.len() implies (
    #[trigger] next.orders[i]).order.id != (#[trigger] next.orders[j]).order.id by {
        assert(state.orders[i].ids_below(state.ids));
        if j < state.orders.len() {
            assert(state.orders[i].order.id != state.orders[j].order.id);
        }
    }
}

} // verus!
