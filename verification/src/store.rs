//! The store and its transactions.
//!
//! A transaction takes the store into its keeping when it is opened and gives
//! it back when it is committed or rolled back. While it is open nothing else
//! can reach the counters, so reservations on one counter come one after the
//! other, and each sees what the one before has left.

use vstd::prelude::*;
use crate::catalog::{CatalogEntry, Category, Product, Size};
use crate::error::CheckoutError;
use crate::inventory::SizeGroup;
use crate::order::{
    details_for, graph_for, items_for, items_without_product, lemma_items_without_product,
    lemma_lines_total_bound, line_total, lines_total, IdCounters, Order, OrderConfirmation,
    OrderDetails, OrderDetailsView, OrderGraph, OrderGraphView, OrderItem, OrderItemDetails,
    OrderLine, OrderStatus, Payment, PaymentStatus, ShippingAddress, ShippingInfo,
};
use crate::state::{
    lemma_category_index, lemma_group_index, lemma_next_ids, lemma_order_index, lemma_place_wf,
    lemma_prefix_wf, lemma_product_index, StoreView,
};

verus! {

fn find_product(catalog: &Vec<CatalogEntry>, id: i32) -> (r: Option<usize>)
    ensures
        match r {
            Some(i) => i < catalog@.len() && catalog@[i as int].id == id,
            None => forall|j: int| 0 <= j < catalog@.len() ==> (#[trigger] catalog@[j]).id != id,
        },
{
    let mut i: usize = 0;
    while i < catalog.len()
        invariant
            i <= catalog@.len(),
            forall|j: int| 0 <= j < i ==> (#[trigger] catalog@[j]).id != id,
        decreases catalog@.len() - i,
    {
        if catalog[i].id == id {
            return Some(i);
        }
        i = i + 1;
    }
    None
}

fn find_category(categories: &Vec<Category>, id: i32) -> (r: Option<usize>)
    ensures
        match r {
            Some(i) => i < categories@.len() && categories@[i as int].id == id,
            None => forall|j: int|
                0 <= j < categories@.len() ==> (#[trigger] categories@[j]).id != id,
        },
{
    let mut i: usize = 0;
    while i < categories.len()
        invariant
            i <= categories@.len(),
            forall|j: int| 0 <= j < i ==> (#[trigger] categories@[j]).id != id,
        decreases categories@.len() - i,
    {
        if categories[i].id == id {
            return Some(i);
        }
        i = i + 1;
    }
    None
}

fn name_taken(categories: &Vec<Category>, name: &String) -> (r: bool)
    ensures
        r == exists|i: int|
            0 <= i < categories@.len() && (#[trigger] categories@[i]).name@ == name@,
{
    let mut i: usize = 0;
    while i < categories.len()
        invariant
            i <= categories@.len(),
            forall|j: int| 0 <= j < i ==> (#[trigger] categories@[j]).name@ != name@,
        decreases categories@.len() - i,
    {
        if categories[i].name == *name {
            return true;
        }
        i = i + 1;
    }
    false
}

fn find_group(stock: &Vec<SizeGroup>, id: i32) -> (r: Option<usize>)
    ensures
        match r {
            Some(i) => i < stock@.len() && stock@[i as int].id == id,
            None => forall|j: int| 0 <= j < stock@.len() ==> (#[trigger] stock@[j]).id != id,
        },
{
    let mut i: usize = 0;
    while i < stock.len()
        invariant
            i <= stock@.len(),
            forall|j: int| 0 <= j < i ==> (#[trigger] stock@[j]).id != id,
        decreases stock@.len() - i,
    {
        if stock[i].id == id {
            return Some(i);
        }
        i = i + 1;
    }
    None
}

fn find_order(orders: &Vec<OrderGraph>, id: i32) -> (r: Option<usize>)
    ensures
        match r {
            Some(i) => i < orders@.len() && orders@[i as int].order.id == id,
            None => forall|j: int|
                0 <= j < orders@.len() ==> (#[trigger] orders@[j]).order.id != id,
        },
{
    let mut i: usize = 0;
    while i < orders.len()
        invariant
            i <= orders@.len(),
            forall|j: int| 0 <= j < i ==> (#[trigger] orders@[j]).order.id != id,
        decreases orders@.len() - i,
    {
        if orders[i].order.id == id {
            return Some(i);
        }
        i = i + 1;
    }
    None
}

/// The orders of a store as values.
pub open spec fn graphs_view(orders: Seq<OrderGraph>) -> Seq<OrderGraphView> {
    orders.map_values(|g: OrderGraph| g@)
}

/// The store: the categories, the catalog, the stock counters and the
/// committed orders.
///
/// Every store that can be made is well formed: see [`StoreView::wf`].
#[derive(Debug)]
pub struct Store {
    categories: Vec<Category>,
    catalog: Vec<CatalogEntry>,
    stock: Vec<SizeGroup>,
    orders: Vec<OrderGraph>,
    ids: IdCounters,
}

impl View for Store {
    type V = StoreView;

    closed spec fn view(&self) -> StoreView {
        StoreView {
            categories: self.categories@,
            catalog: self.catalog@,
            stock: self.stock@,
            orders: graphs_view(self.orders@),
            ids: self.ids,
        }
    }
}

impl Store {
    #[verifier::type_invariant]
    spec fn well_formed(self) -> bool {
        self@.wf()
    }

    /// A store with nothing in it.
    pub fn new() -> (r: Store)
        ensures
            r@ == StoreView::empty(),
    {
        let r = Store {
            categories: Vec::new(),
            catalog: Vec::new(),
            stock: Vec::new(),
            orders: Vec::new(),
            ids: IdCounters::new(),
        };
        assert(r@.orders =~= Seq::<OrderGraphView>::empty());
        r
    }

    /// A store with nothing in it whose ids go on from `ids`. Ids start at 1:
    /// a counter below that is refused with `ValidationError`.
    pub fn starting_at(ids: IdCounters) -> (r: Result<Store, CheckoutError>)
        ensures
            match r {
                Ok(store) => ids.wf() && store@ == (StoreView { ids, ..StoreView::empty() }),
                Err(e) => e == CheckoutError::ValidationError && !ids.wf(),
            },
    {
        if ids.order >= 1 && ids.item >= 1 && ids.shipping >= 1 && ids.payment >= 1 {
            let store = Store {
                categories: Vec::new(),
                catalog: Vec::new(),
                stock: Vec::new(),
                orders: Vec::new(),
                ids,
            };
            assert(store@.orders =~= Seq::<OrderGraphView>::empty());
            Ok(store)
        } else {
            Err(CheckoutError::ValidationError)
        }
    }

    /// Shows a caller what holds of this store, as of every store.
    pub fn well_formedness(&self)
        ensures
            self@.wf(),
    {
        proof {
            use_type_invariant(self);
        }
    }

    fn product_slot(&self, id: i32) -> (r: Option<usize>)
        ensures
            match r {
                Some(i) => self@.product_index(id) == Some(i as int) && i < self.catalog@.len(),
                None => self@.product_index(id) is None,
            },
    {
        proof {
            use_type_invariant(self);
        }
        let r = find_product(&self.catalog, id);
        proof {
            match r {
                Some(i) => {
                    lemma_product_index(self@, id, i as int);
                },
                None => {
                    assert forall|j: int| !self@.has_product_at(id, j) by {
                        if 0 <= j < self.catalog@.len() {
                            assert(self.catalog@[j].id != id);
                        }
                    }
                },
            }
        }
        r
    }

    /// The product with this id.
    pub fn product(&self, id: i32) -> (r: Option<&Product>)
        ensures
            match r {
                Some(p) => self@.product(id) == Some(*p),
                None => self@.product(id) is None,
            },
    {
        match self.product_slot(id) {
            Some(i) => Some(&self.catalog[i].product),
            None => None,
        }
    }

    /// The size group with this id.
    pub fn size_group(&self, id: i32) -> (r: Option<SizeGroup>)
        ensures
            r == self@.size_group(id),
            r matches Some(group) ==> group.in_stock_range(),
    {
        proof {
            use_type_invariant(self);
        }
        let found = find_group(&self.stock, id);
        proof {
            lemma_found_group(self@, id, found);
        }
        match found {
            Some(i) => Some(self.stock[i]),
            None => None,
        }
    }

    /// The units in stock of a product in one size. The count is never below
    /// zero.
    pub fn stock_of(&self, product_id: i32, size: Size) -> (r: Option<i32>)
        ensures
            r == self@.stock_of(product_id, size),
            r matches Some(units) ==> units >= 0,
    {
        proof {
            use_type_invariant(self);
        }
        match find_slot(&self.catalog, &self.stock, product_id, Ghost(self@)) {
            Some(slot) => Some(self.stock[slot].counter(size)),
            None => None,
        }
    }

    /// The number of committed orders.
    pub fn order_count(&self) -> (r: usize)
        ensures
            r == self@.orders.len(),
    {
        self.orders.len()
    }

    /// The order with this id, with all that belongs to it. Its total is the
    /// sum of its items' totals.
    pub fn order(&self, id: i32) -> (r: Option<&OrderGraph>)
        ensures
            match r {
                Some(graph) => self@.order(id) == Some(graph@) && graph@.wf(),
                None => self@.order(id) is None,
            },
    {
        proof {
            use_type_invariant(self);
        }
        let found = find_order(&self.orders, id);
        proof {
            lemma_found_order(self@, self.orders@, id, found);
        }
        match found {
            Some(i) => Some(&self.orders[i]),
            None => None,
        }
    }

    /// Adds a product to the catalog under `id`. An id that is already taken
    /// is refused with `PersistenceError`.
    pub fn insert_product(&mut self, id: i32, product: Product) -> (r: Result<(), CheckoutError>)
        ensures
            match old(self)@.insert_product(id, product) {
                Ok(state) => r is Ok && final(self)@ == state,
                Err(e) => r == Err::<(), CheckoutError>(e) && final(self)@ == old(self)@,
            },
    {
        proof {
            use_type_invariant(&*self);
        }
        match self.product_slot(id) {
            Some(_) => Err(CheckoutError::PersistenceError),
            None => {
                let ghost before = self@;
                let mut catalog: Vec<CatalogEntry> = Vec::new();
                core::mem::swap(&mut self.catalog, &mut catalog);
                catalog.push(CatalogEntry { id, product });
                proof {
                    assert forall|j: int| 0 <= j < before.catalog.len() implies (
                    #[trigger] before.catalog[j]).id != id by {
                        assert(!before.has_product_at(id, j));
                    }
                }
                self.catalog = catalog;
                Ok(())
            },
        }
    }

    /// Adds the stock counters of a product. A group with a counter below
    /// zero is refused with `ValidationError`, an id that is already taken
    /// with `PersistenceError`.
    pub fn insert_size_group(&mut self, group: SizeGroup) -> (r: Result<(), CheckoutError>)
        ensures
            match old(self)@.insert_size_group(group) {
                Ok(state) => r is Ok && final(self)@ == state,
                Err(e) => r == Err::<(), CheckoutError>(e) && final(self)@ == old(self)@,
            },
    {
        proof {
            use_type_invariant(&*self);
        }
        if !group.is_in_stock_range() {
            return Err(CheckoutError::ValidationError);
        }
        let found = find_group(&self.stock, group.id);
        proof {
            lemma_found_group(self@, group.id, found);
        }
        match found {
            Some(_) => Err(CheckoutError::PersistenceError),
            None => {
                let mut stock: Vec<SizeGroup> = Vec::new();
                core::mem::swap(&mut self.stock, &mut stock);
                stock.push(group);
                self.stock = stock;
                Ok(())
            },
        }
    }

    /// Moves an order one step along its life cycle. The payment is captured
    /// when the order becomes paid. An unknown order, or a step that the life
    /// cycle does not have, is refused with `ValidationError` and changes
    /// nothing.
    pub fn advance_order(&mut self, order_id: i32, next: OrderStatus) -> (r: Result<
        (),
        CheckoutError,
    >)
        ensures
            match old(self)@.advance(order_id, next) {
                Ok(state) => r is Ok && final(self)@ == state,
                Err(e) => r == Err::<(), CheckoutError>(e) && final(self)@ == old(self)@,
            },
    {
        proof {
            use_type_invariant(&*self);
        }
        let ghost before = self@;
        let found = find_order(&self.orders, order_id);
        proof {
            lemma_found_order(self@, self.orders@, order_id, found);
        }
        match found {
            None => Err(CheckoutError::ValidationError),
            Some(i) => {
                if !self.orders[i].order.status.can_become(next) {
                    return Err(CheckoutError::ValidationError);
                }
                let mut orders: Vec<OrderGraph> = Vec::new();
                core::mem::swap(&mut self.orders, &mut orders);
                let graph = &mut orders[i];
                graph.order.status = next;
                if next == OrderStatus::Paid {
                    graph.payment.status = PaymentStatus::Captured;
                }
                proof {
                    assert(orders@[i as int]@ == before.orders[i as int].with_status(next));
                    assert(graphs_view(orders@) =~= before.orders.update(
                        i as int,
                        before.orders[i as int].with_status(next),
                    ));
                    let after = StoreView { orders: graphs_view(orders@), ..before };
                    assert(after.orders_distinct());
                    assert(after.orders_wf());
                }
                self.orders = orders;
                Ok(())
            },
        }
    }

    /// Takes a product out of the catalog and gives it back to the caller.
    /// Orders keep the items that were bought, with their quantities and
    /// prices; the items no longer refer to the product. An id that the
    /// catalog does not hold is refused with `ValidationError`.
    pub fn remove_product(&mut self, id: i32) -> (r: Result<Product, CheckoutError>)
        ensures
            match old(self)@.remove_product(id) {
                Ok(state) => final(self)@ == state && r == Ok::<Product, CheckoutError>(
                    old(self)@.product(id).unwrap(),
                ),
                Err(e) => r == Err::<Product, CheckoutError>(e) && final(self)@ == old(self)@,
            },
    {
        proof {
            use_type_invariant(&*self);
        }
        let ghost before = self@;
        let at = match self.product_slot(id) {
            Some(at) => at,
            None => {
                return Err(CheckoutError::ValidationError);
            },
        };
        let mut catalog: Vec<CatalogEntry> = Vec::new();
        core::mem::swap(&mut self.catalog, &mut catalog);
        let entry = catalog.remove(at);
        proof {
            let smaller = StoreView { catalog: catalog@, ..before };
            assert forall|i: int, j: int| 0 <= i < j < smaller.catalog.len() implies (
            #[trigger] smaller.catalog[i]).id != (#[trigger] smaller.catalog[j]).id by {
                let from_i = if i < at { i } else { i + 1 };
                let from_j = if j < at { j } else { j + 1 };
                assert(smaller.catalog[i] == before.catalog[from_i]);
                assert(smaller.catalog[j] == before.catalog[from_j]);
            }
        }
        self.catalog = catalog;
        let mut orders: Vec<OrderGraph> = Vec::new();
        core::mem::swap(&mut self.orders, &mut orders);
        let ghost held = orders@;
        let mut k: usize = 0;
        while k < orders.len()
            invariant
                k <= orders@.len(),
                orders@.len() == held.len(),
                forall|i: int|
                    0 <= i < k ==> (#[trigger] orders@[i])@ == held[i]@.without_product(id),
                forall|i: int| k <= i < held.len() ==> #[trigger] orders@[i] == held[i],
            decreases orders@.len() - k,
        {
            let graph = &mut orders[k];
            clear_product(&mut graph.items, id);
            k = k + 1;
        }
        proof {
            let after = before.remove_product(id).unwrap();
            assert(graphs_view(orders@) =~= after.orders);
            assert forall|i: int| 0 <= i < after.orders.len() implies (#[trigger] after.orders[i]).wf()
                && after.orders[i].ids_below(after.ids) by {
                assert(before.orders[i].wf() && before.orders[i].ids_below(before.ids));
                lemma_items_without_product(before.orders[i].items, id);
            }
            assert forall|i: int, j: int| 0 <= i < j < after.orders.len() implies (
            #[trigger] after.orders[i]).order.id != (#[trigger] after.orders[j]).order.id by {
                assert(before.orders[i].order.id != before.orders[j].order.id);
            }
        }
        self.orders = orders;
        Ok(entry.product)
    }

    /// The category with this id.
    pub fn category(&self, id: i32) -> (r: Option<&Category>)
        ensures
            match r {
                Some(c) => self@.category(id) == Some(*c),
                None => self@.category(id) is None,
            },
    {
        proof {
            use_type_invariant(self);
        }
        let found = find_category(&self.categories, id);
        proof {
            lemma_found_category(self@, id, found);
        }
        match found {
            Some(i) => Some(&self.categories[i]),
            None => None,
        }
    }

    /// Adds a category. An id or a name that is already taken is refused
    /// with `PersistenceError`.
    pub fn insert_category(&mut self, id: i32, name: String) -> (r: Result<(), CheckoutError>)
        ensures
            match old(self)@.insert_category(id, name) {
                Ok(state) => r is Ok && final(self)@ == state,
                Err(e) => r == Err::<(), CheckoutError>(e) && final(self)@ == old(self)@,
            },
    {
        proof {
            use_type_invariant(&*self);
        }
        let found = find_category(&self.categories, id);
        proof {
            lemma_found_category(self@, id, found);
        }
        if found.is_some() || name_taken(&self.categories, &name) {
            return Err(CheckoutError::PersistenceError);
        }
        let mut categories: Vec<Category> = Vec::new();
        core::mem::swap(&mut self.categories, &mut categories);
        proof {
            assert forall|j: int| 0 <= j < categories@.len() implies (#[trigger] categories@[j]).id
                != id by {
                assert(!old(self)@.has_category_at(id, j));
            }
        }
        categories.push(Category { id, name });
        self.categories = categories;
        Ok(())
    }

    /// Takes a category away and gives it back to the caller. The products
    /// that were in it are in none. An id that names no category is refused
    /// with `ValidationError`.
    pub fn remove_category(&mut self, id: i32) -> (r: Result<Category, CheckoutError>)
        ensures
            match old(self)@.remove_category(id) {
                Ok(state) => final(self)@ == state && r == Ok::<Category, CheckoutError>(
                    old(self)@.category(id).unwrap(),
                ),
                Err(e) => r == Err::<Category, CheckoutError>(e) && final(self)@ == old(self)@,
            },
    {
        proof {
            use_type_invariant(&*self);
        }
        let ghost before = self@;
        let found = find_category(&self.categories, id);
        proof {
            lemma_found_category(self@, id, found);
        }
        let at = match found {
            Some(at) => at,
            None => {
                return Err(CheckoutError::ValidationError);
            },
        };
        let mut categories: Vec<Category> = Vec::new();
        core::mem::swap(&mut self.categories, &mut categories);
        let category = categories.remove(at);
        proof {
            let smaller = StoreView { categories: categories@, ..before };
            assert forall|i: int, j: int| 0 <= i < j < smaller.categories.len() implies (
            #[trigger] smaller.categories[i]).id != (#[trigger] smaller.categories[j]).id
                && smaller.categories[i].name@ != smaller.categories[j].name@ by {
                let from_i = if i < at { i } else { i + 1 };
                let from_j = if j < at { j } else { j + 1 };
                assert(smaller.categories[i] == before.categories[from_i]);
                assert(smaller.categories[j] == before.categories[from_j]);
            }
        }
        self.categories = categories;
        let mut catalog: Vec<CatalogEntry> = Vec::new();
        core::mem::swap(&mut self.catalog, &mut catalog);
        let ghost held = catalog@;
        let mut i: usize = 0;
        while i < catalog.len()
            invariant
                i <= catalog@.len(),
                catalog@.len() == held.len(),
                forall|j: int|
                    0 <= j < i ==> #[trigger] catalog@[j] == held[j].without_category(id),
                forall|j: int| i <= j < held.len() ==> #[trigger] catalog@[j] == held[j],
            decreases catalog@.len() - i,
        {
            let entry = &mut catalog[i];
            match entry.product.category_id {
                Some(c) => {
                    if c == id {
                        entry.product.category_id = None;
                    }
                },
                None => {},
            }
            i = i + 1;
        }
        proof {
            let after = before.remove_category(id).unwrap();
            assert(catalog@ =~= after.catalog);
            assert forall|a: int, b: int| 0 <= a < b < after.catalog.len() implies (
            #[trigger] after.catalog[a]).id != (#[trigger] after.catalog[b]).id by {
                assert(before.catalog[a].id != before.catalog[b].id);
            }
        }
        self.catalog = catalog;
        Ok(category)
    }

    /// Records that an image has gone: the products that had it as their
    /// primary image have none.
    pub fn forget_image(&mut self, image_id: i32)
        ensures
            final(self)@ == old(self)@.forget_image(image_id),
    {
        proof {
            use_type_invariant(&*self);
        }
        let ghost before = self@;
        assert((StoreView { catalog: Seq::<CatalogEntry>::empty(), ..before }).wf());
        let mut catalog: Vec<CatalogEntry> = Vec::new();
        core::mem::swap(&mut self.catalog, &mut catalog);
        let ghost held = catalog@;
        let mut i: usize = 0;
        while i < catalog.len()
            invariant
                i <= catalog@.len(),
                catalog@.len() == held.len(),
                forall|j: int| 0 <= j < i ==> #[trigger] catalog@[j] == held[j].without_image(
                    image_id,
                ),
                forall|j: int| i <= j < held.len() ==> #[trigger] catalog@[j] == held[j],
            decreases catalog@.len() - i,
        {
            let entry = &mut catalog[i];
            match entry.product.primary_image_id {
                Some(c) => {
                    if c == image_id {
                        entry.product.primary_image_id = None;
                    }
                },
                None => {},
            }
            i = i + 1;
        }
        proof {
            let after = before.forget_image(image_id);
            assert(catalog@ =~= after.catalog);
            assert forall|a: int, b: int| 0 <= a < b < after.catalog.len() implies (
            #[trigger] after.catalog[a]).id != (#[trigger] after.catalog[b]).id by {
                assert(before.catalog[a].id != before.catalog[b].id);
            }
        }
        self.catalog = catalog;
    }

    /// Opens a transaction on this store. The transaction holds the store
    /// until it is committed or rolled back, so no other transaction can
    /// touch the counters meanwhile.
    pub fn begin(self) -> (tx: Transaction)
        ensures
            tx@ == self@,
            tx.base() == self@,
    {
        proof {
            use_type_invariant(&self);
        }
        let stock = self.stock.clone();
        let ids = self.ids;
        let tx = Transaction { base: self, stock, staged: Vec::new(), ids };
        proof {
            assert(tx.stock@ =~= tx.base.stock@);
            assert(tx.base.orders@ + tx.staged@ =~= tx.base.orders@);
        }
        tx
    }
}

/// Clears every reference to a product from the items of an order.
fn clear_product(items: &mut Vec<OrderItem>, product_id: i32)
    ensures
        final(items)@ == items_without_product(old(items)@, product_id),
{
    let ghost held = items@;
    let mut j: usize = 0;
    while j < items.len()
        invariant
            j <= items@.len(),
            items@.len() == held.len(),
            forall|i: int| 0 <= i < j ==> #[trigger] items@[i] == items_without_product(
                held,
                product_id,
            )[i],
            forall|i: int| j <= i < held.len() ==> #[trigger] items@[i] == held[i],
        decreases items@.len() - j,
    {
        match items[j].product_id {
            Some(p) => {
                if p == product_id {
                    items[j].product_id = None;
                }
            },
            None => {},
        }
        j = j + 1;
    }
    proof {
        assert(items@ =~= items_without_product(held, product_id));
    }
}

/// What a search of the categories says of the state's own index.
proof fn lemma_found_category(state: StoreView, id: i32, found: Option<usize>)
    requires
        state.categories_distinct(),
        match found {
            Some(i) => i < state.categories.len() && state.categories[i as int].id == id,
            None => forall|j: int|
                0 <= j < state.categories.len() ==> (#[trigger] state.categories[j]).id != id,
        },
    ensures
        match found {
            Some(i) => state.category_index(id) == Some(i as int),
            None => state.category_index(id) is None,
        },
{
    match found {
        Some(i) => {
            lemma_category_index(state, id, i as int);
        },
        None => {
            assert forall|j: int| !state.has_category_at(id, j) by {
                if 0 <= j < state.categories.len() {
                    assert(state.categories[j].id != id);
                }
            }
        },
    }
}

/// What a search of the stock says of the state's own index.
proof fn lemma_found_group(state: StoreView, id: i32, found: Option<usize>)
    requires
        state.groups_distinct(),
        match found {
            Some(i) => i < state.stock.len() && state.stock[i as int].id == id,
            None => forall|j: int|
                0 <= j < state.stock.len() ==> (#[trigger] state.stock[j]).id != id,
        },
    ensures
        match found {
            Some(i) => state.group_index(id) == Some(i as int),
            None => state.group_index(id) is None,
        },
{
    match found {
        Some(i) => {
            lemma_group_index(state, id, i as int);
        },
        None => {
            assert forall|j: int| !state.has_group_at(id, j) by {
                if 0 <= j < state.stock.len() {
                    assert(state.stock[j].id != id);
                }
            }
        },
    }
}

/// What a search of the orders says of the state's own index.
proof fn lemma_found_order(state: StoreView, orders: Seq<OrderGraph>, id: i32, found: Option<usize>)
    requires
        state.orders_distinct(),
        state.orders == graphs_view(orders),
        match found {
            Some(i) => i < orders.len() && orders[i as int].order.id == id,
            None => forall|j: int| 0 <= j < orders.len() ==> (#[trigger] orders[j]).order.id != id,
        },
    ensures
        match found {
            Some(i) => state.order_index(id) == Some(i as int),
            None => state.order_index(id) is None,
        },
{
    match found {
        Some(i) => {
            lemma_order_index(state, id, i as int);
        },
        None => {
            assert forall|j: int| !state.has_order_at(id, j) by {
                if 0 <= j < orders.len() {
                    assert(orders[j].order.id != id);
                }
            }
        },
    }
}

/// Finds the counters of a product: the size group that its catalog record
/// refers to.
fn find_slot(
    catalog: &Vec<CatalogEntry>,
    stock: &Vec<SizeGroup>,
    product_id: i32,
    Ghost(state): Ghost<StoreView>,
) -> (r: Option<usize>)
    requires
        state.catalog == catalog@,
        state.stock == stock@,
        state.products_distinct(),
        state.groups_distinct(),
    ensures
        match r {
            Some(slot) => state.counter_slot(product_id) == Some(slot as int) && slot
                < stock@.len(),
            None => state.counter_slot(product_id) is None,
        },
{
    match find_product(catalog, product_id) {
        None => {
            proof {
                assert forall|j: int| !state.has_product_at(product_id, j) by {
                    if 0 <= j < catalog@.len() {
                        assert(catalog@[j].id != product_id);
                    }
                }
            }
            None
        },
        Some(i) => {
            proof {
                lemma_product_index(state, product_id, i as int);
            }
            match catalog[i].product.size_id {
                None => None,
                Some(group_id) => {
                    let found = find_group(stock, group_id);
                    proof {
                        lemma_found_group(state, group_id, found);
                    }
                    found
                },
            }
        },
    }
}

/// How a commit ended in the store underneath: it took the transaction, or it
/// could not.
#[derive(Clone, Copy, Debug, PartialEq, Eq, Structural)]
pub enum CommitOutcome {
    Committed,
    Failed,
}

/// An open transaction. It holds the store it was opened on, untouched,
/// beside the counters and the orders as they will be if it commits.
#[derive(Debug)]
pub struct Transaction {
    base: Store,
    stock: Vec<SizeGroup>,
    staged: Vec<OrderGraph>,
    ids: IdCounters,
}

impl View for Transaction {
    type V = StoreView;

    /// The state that a commit would make durable.
    closed spec fn view(&self) -> StoreView {
        StoreView {
            categories: self.base.categories@,
            catalog: self.base.catalog@,
            stock: self.stock@,
            orders: graphs_view(self.base.orders@ + self.staged@),
            ids: self.ids,
        }
    }
}

impl Transaction {
    #[verifier::type_invariant]
    spec fn well_formed(self) -> bool {
        self.base@.wf() && self@.wf()
    }

    /// The state of the store when the transaction was opened: what a
    /// rollback goes back to.
    pub closed spec fn base(&self) -> StoreView {
        self.base@
    }

    /// Shows a caller what holds of the state inside a transaction, as of
    /// every store.
    pub fn well_formedness(&self)
        ensures
            self@.wf(),
            self.base().wf(),
    {
        proof {
            use_type_invariant(self);
        }
    }

    /// The units of a product in one size as the transaction sees them.
    pub fn stock_of(&self, product_id: i32, size: Size) -> (r: Option<i32>)
        ensures
            r == self@.stock_of(product_id, size),
            r matches Some(units) ==> units >= 0,
    {
        proof {
            use_type_invariant(self);
        }
        match find_slot(&self.base.catalog, &self.stock, product_id, Ghost(self@)) {
            Some(slot) => Some(self.stock[slot].counter(size)),
            None => None,
        }
    }

    /// The product with this id. A transaction does not change the catalog.
    pub fn product(&self, id: i32) -> (r: Option<&Product>)
        ensures
            match r {
                Some(p) => self@.product(id) == Some(*p),
                None => self@.product(id) is None,
            },
    {
        proof {
            use_type_invariant(self);
        }
        let found = find_product(&self.base.catalog, id);
        proof {
            match found {
                Some(i) => {
                    lemma_product_index(self@, id, i as int);
                },
                None => {
                    assert forall|j: int| !self@.has_product_at(id, j) by {
                        if 0 <= j < self.base.catalog@.len() {
                            assert(self.base.catalog@[j].id != id);
                        }
                    }
                },
            }
        }
        match found {
            Some(i) => Some(&self.base.catalog[i].product),
            None => None,
        }
    }

    /// The size group with this id as the transaction sees it.
    pub fn size_group(&self, id: i32) -> (r: Option<SizeGroup>)
        ensures
            r == self@.size_group(id),
            r matches Some(group) ==> group.in_stock_range(),
    {
        proof {
            use_type_invariant(self);
        }
        let found = find_group(&self.stock, id);
        proof {
            lemma_found_group(self@, id, found);
        }
        match found {
            Some(i) => Some(self.stock[i]),
            None => None,
        }
    }

    /// The order with this id as the transaction sees it: an order of the
    /// store, or one that the transaction has added.
    pub fn order(&self, id: i32) -> (r: Option<&OrderGraph>)
        ensures
            match r {
                Some(graph) => self@.order(id) == Some(graph@) && graph@.wf(),
                None => self@.order(id) is None,
            },
    {
        proof {
            use_type_invariant(self);
        }
        let ghost all = self.base.orders@ + self.staged@;
        let kept = find_order(&self.base.orders, id);
        match kept {
            Some(i) => {
                proof {
                    assert(all[i as int] == self.base.orders@[i as int]);
                    lemma_found_order(self@, all, id, kept);
                }
                Some(&self.base.orders[i])
            },
            None => {
                let added = find_order(&self.staged, id);
                match added {
                    Some(j) => {
                        proof {
                            let at = self.base.orders@.len() + j;
                            assert(all[at] == self.staged@[j as int]);
                            assert(self@.has_order_at(id, at));
                            lemma_order_index(self@, id, at);
                        }
                        Some(&self.staged[j])
                    },
                    None => {
                        proof {
                            assert forall|k: int| 0 <= k < all.len() implies (#[trigger] all[k]).order.id
                                != id by {
                                if k < self.base.orders@.len() {
                                    assert(all[k] == self.base.orders@[k]);
                                } else {
                                    assert(all[k] == self.staged@[k - self.base.orders@.len()]);
                                }
                            }
                            lemma_found_order(self@, all, id, None);
                        }
                        None
                    },
                }
            },
        }
    }

    /// Takes `quantity` units of a product in one size out of stock, if the
    /// counter holds that many. A refusal changes nothing:
    /// `InsufficientStock` when the counter holds fewer, `ValidationError`
    /// when the quantity is not positive or the product has no counters.
    pub fn reserve(&mut self, product_id: i32, size: Size, quantity: i32) -> (r: Result<
        (),
        CheckoutError,
    >)
        ensures
            final(self).base() == old(self).base(),
            match old(self)@.reserve(product_id, size, quantity) {
                Ok(state) => r is Ok && final(self)@ == state,
                Err(e) => r == Err::<(), CheckoutError>(e) && final(self)@ == old(self)@,
            },
    {
        proof {
            use_type_invariant(&*self);
        }
        if quantity <= 0 {
            return Err(CheckoutError::ValidationError);
        }
        match find_slot(&self.base.catalog, &self.stock, product_id, Ghost(self@)) {
            None => Err(CheckoutError::ValidationError),
            Some(slot) => {
                let group = self.stock[slot];
                let units: i32 = group.counter(size);
                if units >= quantity {
                    let ghost before = self@;
                    let mut stock: Vec<SizeGroup> = Vec::new();
                    core::mem::swap(&mut self.stock, &mut stock);
                    stock.set(slot, group.with_counter(size, units - quantity));
                    proof {
                        group.law_with_counter(size, (units - quantity) as i32, size);
                        let after = StoreView { stock: stock@, ..before };
                        assert(after.groups_distinct());
                        assert(after.stock_in_range());
                    }
                    self.stock = stock;
                    Ok(())
                } else {
                    Err(CheckoutError::InsufficientStock)
                }
            },
        }
    }

    /// Adds a new pending order made of `lines`, with its items, its
    /// shipping address and a pending payment for the total, and returns the
    /// order row with what the confirmation is written from. When the ids
    /// have run out, nothing is added and the refusal is `PersistenceError`.
    pub fn place_order(
        &mut self,
        lines: &Vec<OrderLine>,
        shipping: ShippingInfo,
        payment_method: String,
    ) -> (r: Result<OrderConfirmation, CheckoutError>)
        ensures
            final(self).base() == old(self).base(),
            match old(self)@.place(lines@, shipping, payment_method) {
                Ok(state) => {
                    &&& final(self)@ == state
                    &&& r is Ok
                    &&& r.unwrap().order == graph_for(
                        lines@,
                        shipping,
                        payment_method,
                        old(self)@.ids,
                    ).order
                    &&& r.unwrap().details@ == (OrderDetailsView {
                        order_id: old(self)@.ids.order,
                        shipping,
                        items: details_for(lines@),
                    })
                },
                Err(e) => r == Err::<OrderConfirmation, CheckoutError>(e) && final(self)@ == old(
                    self,
                )@,
            },
    {
        proof {
            use_type_invariant(&*self);
        }
        let n: usize = lines.len();
        if !self.ids.can_allocate(n) {
            return Err(CheckoutError::PersistenceError);
        }
        let ghost before = self@;
        let ids = self.ids;
        let mut items: Vec<OrderItem> = Vec::new();
        let mut details: Vec<OrderItemDetails> = Vec::new();
        let mut total: i128 = 0;
        let mut k: usize = 0;
        while k < n
            invariant
                k <= n,
                n == lines@.len(),
                ids.wf(),
                ids.spec_can_allocate(n as nat),
                items@ =~= items_for(lines@, ids.order, ids.item as int).take(k as int),
                details@ =~= details_for(lines@).take(k as int),
                total == lines_total(lines@.take(k as int)),
            decreases n - k,
        {
            let line = &lines[k];
            let amount: i64 = line_total(line.quantity, line.unit_price);
            proof {
                assert(lines@.take(k as int + 1).drop_last() =~= lines@.take(k as int));
                lemma_lines_total_bound(lines@.take(k as int));
                lemma_lines_total_bound(lines@.take(k as int + 1));
            }
            items.push(
                OrderItem {
                    id: ids.item + k as i32,
                    order_id: ids.order,
                    product_id: Some(line.product_id),
                    quantity: line.quantity,
                    price: line.unit_price,
                    size: line.size,
                },
            );
            details.push(
                OrderItemDetails {
                    product_name: line.product_name.clone(),
                    quantity: line.quantity,
                    size: line.size,
                    total_price: amount,
                },
            );
            total = total + amount as i128;
            k = k + 1;
        }
        proof {
            assert(lines@.take(n as int) =~= lines@);
        }
        let order = Order {
            id: ids.order,
            user_id: None,
            total_price: total,
            status: OrderStatus::Pending,
            online_payment: false,
        };
        let graph = OrderGraph {
            order,
            items,
            shipping: ShippingAddress {
                id: ids.shipping,
                order_id: ids.order,
                info: shipping.clone(),
            },
            payment: Payment {
                id: ids.payment,
                order_id: ids.order,
                method: payment_method,
                status: PaymentStatus::Pending,
                amount: total,
            },
        };
        proof {
            lemma_lines_total_bound(lines@);
            assert(graph@.items =~= items_for(lines@, ids.order, ids.item as int));
            assert(details@ =~= details_for(lines@));
            assert(graph@ == graph_for(lines@, shipping, payment_method, ids));
            lemma_next_ids(before, n as nat);
        }
        self.ids = ids.after(n);
        proof {
            let kept = self.base.orders@.len() as int;
            lemma_prefix_wf(self@, kept);
            assert(graphs_view(self.base.orders@ + Seq::<OrderGraph>::empty()) =~= self@.orders.take(
                kept,
            ));
        }
        let mut staged: Vec<OrderGraph> = Vec::new();
        core::mem::swap(&mut self.staged, &mut staged);
        staged.push(graph);
        proof {
            assert(graphs_view(self.base.orders@ + staged@) =~= before.orders.push(graph@));
            lemma_place_wf(before, lines@, shipping, payment_method);
        }
        self.staged = staged;
        Ok(
            OrderConfirmation {
                order,
                details: OrderDetails { order_id: ids.order, shipping, items: details },
            },
        )
    }

    /// Ends the transaction. If the store underneath took it, the state
    /// inside the transaction becomes the store's; if not, the store is as it
    /// was when the transaction was opened and the refusal is
    /// `PersistenceError`.
    pub fn commit(self, outcome: CommitOutcome) -> (r: (Store, Result<(), CheckoutError>))
        ensures
            outcome == CommitOutcome::Committed ==> r.0@ == self@ && r.1 is Ok,
            outcome == CommitOutcome::Failed ==> r.0@ == self.base() && r.1 == Err::<
                (),
                CheckoutError,
            >(CheckoutError::PersistenceError),
    {
        proof {
            use_type_invariant(&self);
        }
        let Transaction { base, stock, staged, ids } = self;
        match outcome {
            CommitOutcome::Failed => (base, Err(CheckoutError::PersistenceError)),
            CommitOutcome::Committed => {
                let Store { categories, catalog, stock: _, orders, ids: _ } = base;
                let mut orders = orders;
                let mut staged = staged;
                orders.append(&mut staged);
                (Store { categories, catalog, stock, orders, ids }, Ok(()))
            },
        }
    }

    /// Gives the transaction up: the store is as it was when the transaction
    /// was opened.
    pub fn rollback(self) -> (r: Store)
        ensures
            r@ == self.base(),
    {
        self.base
    }
}

} // verus!
