use tyutyun_shop::catalog::{Product, Size};
use tyutyun_shop::checkout::{checkout, CartLine};
use tyutyun_shop::error::CheckoutError;
use tyutyun_shop::inventory::SizeGroup;
use tyutyun_shop::order::{
    line_total, IdCounters, OrderLine, OrderStatus, PaymentStatus, ShippingInfo,
};
use tyutyun_shop::store::{CommitOutcome, Store};

fn item(name: &str, price: i32, size_id: Option<i32>) -> Product {
    Product {
        name: name.to_string(),
        description: Some("as seen".to_string()),
        primary_image_id: Some(3),
        price,
        stock_quantity: Some(7),
        size_id,
        category_id: Some(2),
    }
}

fn counters(id: i32, s: i32) -> SizeGroup {
    SizeGroup { id, product_id: Some(1), single_size: 0, s, m: 0, l: 0, xl: 0, xxl: 4 }
}

fn small_shop() -> Store {
    let mut store = Store::new();
    assert_eq!(store.insert_product(1, item("Hoodie", 1000, Some(10))), Ok(()));
    assert_eq!(store.insert_size_group(counters(10, 5)), Ok(()));
    store
}

fn contact() -> ShippingInfo {
    ShippingInfo {
        address: "Soborna 5, Lviv".to_string(),
        first_name: "Taras".to_string(),
        last_name: "Melnyk".to_string(),
        phone_number: "+380671112233".to_string(),
        email: "taras@example.com".to_string(),
    }
}

fn hoodie(quantity: i32) -> OrderLine {
    OrderLine {
        product_id: 1,
        product_name: "Hoodie".to_string(),
        size: Size::S,
        quantity,
        unit_price: 1000,
    }
}

fn dump(store: &Store) -> String {
    format!("{:?}", store)
}

#[test]
fn new_store_is_empty() {
    let store = Store::new();
    assert_eq!(store.order_count(), 0);
    assert_eq!(store.product(1), None);
    assert_eq!(store.size_group(1), None);
    assert_eq!(store.stock_of(1, Size::S), None);
    assert!(store.order(1).is_none());
}

#[test]
fn insert_product_refuses_taken_id() {
    let mut store = small_shop();
    let before = dump(&store);
    assert_eq!(
        store.insert_product(1, item("Other", 5, None)),
        Err(CheckoutError::PersistenceError)
    );
    assert_eq!(dump(&store), before);
    assert_eq!(store.product(1), Some(&item("Hoodie", 1000, Some(10))));
    assert_eq!(store.insert_product(2, item("Other", 5, None)), Ok(()));
    assert_eq!(store.product(2), Some(&item("Other", 5, None)));
}

#[test]
fn insert_size_group_refuses_negative_counter_and_taken_id() {
    let mut store = small_shop();
    let before = dump(&store);
    assert_eq!(
        store.insert_size_group(counters(11, -1)),
        Err(CheckoutError::ValidationError)
    );
    assert_eq!(
        store.insert_size_group(counters(10, -1)),
        Err(CheckoutError::ValidationError)
    );
    assert_eq!(
        store.insert_size_group(counters(10, 1)),
        Err(CheckoutError::PersistenceError)
    );
    assert_eq!(dump(&store), before);
    assert_eq!(store.insert_size_group(counters(11, 0)), Ok(()));
    assert_eq!(store.size_group(11), Some(counters(11, 0)));
    assert_eq!(store.size_group(10), Some(counters(10, 5)));
}

#[test]
fn stock_of_follows_the_products_size_group() {
    let store = small_shop();
    assert_eq!(store.stock_of(1, Size::S), Some(5));
    assert_eq!(store.stock_of(1, Size::XXL), Some(4));
    assert_eq!(store.stock_of(1, Size::Single), Some(0));
    assert_eq!(store.stock_of(2, Size::S), None);
}

#[test]
fn size_group_counters_by_size() {
    let group = SizeGroup {
        id: 1,
        product_id: None,
        single_size: 1,
        s: 2,
        m: 3,
        l: 4,
        xl: 5,
        xxl: 6,
    };
    assert_eq!(group.counter(Size::Single), 1);
    assert_eq!(group.counter(Size::S), 2);
    assert_eq!(group.counter(Size::M), 3);
    assert_eq!(group.counter(Size::L), 4);
    assert_eq!(group.counter(Size::XL), 5);
    assert_eq!(group.counter(Size::XXL), 6);
    let changed = group.with_counter(Size::L, 40);
    assert_eq!(changed, SizeGroup { l: 40, ..group });
    assert_eq!(group.with_counter(Size::Single, 9).single_size, 9);
    assert_eq!(group.with_counter(Size::S, 9).s, 9);
    assert_eq!(group.with_counter(Size::M, 9).m, 9);
    assert_eq!(group.with_counter(Size::XL, 9).xl, 9);
    assert_eq!(group.with_counter(Size::XXL, 9).xxl, 9);
    assert!(group.is_in_stock_range());
    assert!(!group.with_counter(Size::XXL, -1).is_in_stock_range());
    assert_eq!(
        SizeGroup::empty(4, Some(2)),
        SizeGroup { id: 4, product_id: Some(2), single_size: 0, s: 0, m: 0, l: 0, xl: 0, xxl: 0 }
    );
}

#[test]
fn reserve_takes_units_or_refuses() {
    let mut tx = small_shop().begin();
    assert_eq!(tx.stock_of(1, Size::S), Some(5));
    assert_eq!(tx.reserve(1, Size::S, 2), Ok(()));
    assert_eq!(tx.stock_of(1, Size::S), Some(3));
    assert_eq!(tx.reserve(1, Size::S, 4), Err(CheckoutError::InsufficientStock));
    assert_eq!(tx.stock_of(1, Size::S), Some(3));
    assert_eq!(tx.reserve(1, Size::S, 3), Ok(()));
    assert_eq!(tx.stock_of(1, Size::S), Some(0));
    assert_eq!(tx.reserve(1, Size::S, 1), Err(CheckoutError::InsufficientStock));
    assert_eq!(tx.reserve(1, Size::S, 0), Err(CheckoutError::ValidationError));
    assert_eq!(tx.reserve(1, Size::S, -3), Err(CheckoutError::ValidationError));
    assert_eq!(tx.reserve(2, Size::S, 1), Err(CheckoutError::ValidationError));
    assert_eq!(tx.stock_of(1, Size::S), Some(0));
    assert_eq!(tx.stock_of(1, Size::XXL), Some(4));
}

#[test]
fn rollback_gives_the_store_back_as_it_was() {
    let store = small_shop();
    store.well_formedness();
    let before = dump(&store);
    let mut tx = store.begin();
    tx.well_formedness();
    assert_eq!(tx.reserve(1, Size::S, 5), Ok(()));
    let placed = tx.place_order(&vec![hoodie(5)], contact(), "card".to_string());
    assert!(placed.is_ok());
    let store = tx.rollback();
    assert_eq!(dump(&store), before);
    assert_eq!(store.stock_of(1, Size::S), Some(5));
    assert_eq!(store.order_count(), 0);
}

#[test]
fn commit_makes_the_transaction_durable_or_changes_nothing() {
    let store = small_shop();
    let before = dump(&store);
    let mut tx = store.begin();
    assert_eq!(tx.reserve(1, Size::S, 2), Ok(()));
    let placed = tx.place_order(&vec![hoodie(2)], contact(), "card".to_string()).unwrap();
    assert_eq!(placed.order.id, 1);
    assert_eq!(placed.order.total_price, 2000);
    let (store, result) = tx.commit(CommitOutcome::Failed);
    assert_eq!(result, Err(CheckoutError::PersistenceError));
    assert_eq!(dump(&store), before);

    let mut tx = store.begin();
    assert_eq!(tx.reserve(1, Size::S, 2), Ok(()));
    let placed = tx.place_order(&vec![hoodie(2)], contact(), "card".to_string()).unwrap();
    let (store, result) = tx.commit(CommitOutcome::Committed);
    assert_eq!(result, Ok(()));
    assert_eq!(store.stock_of(1, Size::S), Some(3));
    assert_eq!(store.order_count(), 1);
    assert_eq!(store.order(1).unwrap().order, placed.order);
}

#[test]
fn place_order_in_one_transaction_twice() {
    let mut tx = small_shop().begin();
    let first = tx.place_order(&vec![hoodie(1), hoodie(2)], contact(), "card".to_string()).unwrap();
    let second = tx.place_order(&vec![hoodie(3)], contact(), "cash".to_string()).unwrap();
    assert_eq!(first.order.id, 1);
    assert_eq!(second.order.id, 2);
    assert_eq!(first.order.total_price, 3000);
    assert_eq!(second.order.total_price, 3000);
    let (store, result) = tx.commit(CommitOutcome::Committed);
    assert_eq!(result, Ok(()));
    assert_eq!(store.order_count(), 2);
    assert_eq!(store.order(2).unwrap().items[0].id, 3);
    assert_eq!(store.order(2).unwrap().payment.method, "cash");
    assert_eq!(store.stock_of(1, Size::S), Some(5));
}

#[test]
fn order_moves_along_its_life_cycle() {
    let mut store = small_shop();
    let cart = vec![CartLine { product_id: 1, size: Size::S, quantity: 1 }];
    let order = checkout(&mut store, &cart, contact(), "card".to_string(), CommitOutcome::Committed)
        .unwrap()
        .order;
    assert_eq!(store.order(order.id).unwrap().payment.status, PaymentStatus::Pending);
    assert_eq!(
        store.advance_order(order.id, OrderStatus::Shipped),
        Err(CheckoutError::ValidationError)
    );
    assert_eq!(store.advance_order(order.id, OrderStatus::Paid), Ok(()));
    assert_eq!(store.order(order.id).unwrap().order.status, OrderStatus::Paid);
    assert_eq!(store.order(order.id).unwrap().payment.status, PaymentStatus::Captured);
    assert_eq!(
        store.order(order.id).unwrap().payment.amount,
        store.order(order.id).unwrap().order.total_price
    );
    assert_eq!(
        store.advance_order(order.id, OrderStatus::Pending),
        Err(CheckoutError::ValidationError)
    );
    assert_eq!(store.advance_order(order.id, OrderStatus::Shipped), Ok(()));
    assert_eq!(
        store.advance_order(order.id, OrderStatus::Cancelled),
        Err(CheckoutError::ValidationError)
    );
    assert_eq!(store.advance_order(order.id, OrderStatus::Completed), Ok(()));
    assert_eq!(store.order(order.id).unwrap().order.status, OrderStatus::Completed);
    assert_eq!(store.order(order.id).unwrap().payment.status, PaymentStatus::Captured);
    let before = dump(&store);
    assert_eq!(
        store.advance_order(order.id, OrderStatus::Paid),
        Err(CheckoutError::ValidationError)
    );
    assert_eq!(
        store.advance_order(order.id + 1, OrderStatus::Paid),
        Err(CheckoutError::ValidationError)
    );
    assert_eq!(dump(&store), before);
}

#[test]
fn pending_and_paid_orders_can_be_cancelled() {
    let mut store = small_shop();
    let cart = vec![CartLine { product_id: 1, size: Size::S, quantity: 1 }];
    let first = checkout(&mut store, &cart, contact(), "card".to_string(), CommitOutcome::Committed)
        .unwrap()
        .order;
    let second =
        checkout(&mut store, &cart, contact(), "card".to_string(), CommitOutcome::Committed)
            .unwrap()
            .order;
    assert_eq!(store.advance_order(first.id, OrderStatus::Cancelled), Ok(()));
    assert_eq!(store.order(first.id).unwrap().order.status, OrderStatus::Cancelled);
    assert_eq!(store.order(first.id).unwrap().payment.status, PaymentStatus::Pending);
    assert_eq!(store.advance_order(second.id, OrderStatus::Paid), Ok(()));
    assert_eq!(store.advance_order(second.id, OrderStatus::Cancelled), Ok(()));
    assert_eq!(store.order(second.id).unwrap().order.status, OrderStatus::Cancelled);
    assert_eq!(
        store.advance_order(second.id, OrderStatus::Paid),
        Err(CheckoutError::ValidationError)
    );
    assert_eq!(store.stock_of(1, Size::S), Some(3));
}

#[test]
fn order_status_steps() {
    let all = [
        OrderStatus::Pending,
        OrderStatus::Paid,
        OrderStatus::Shipped,
        OrderStatus::Completed,
        OrderStatus::Cancelled,
    ];
    let allowed = [
        (OrderStatus::Pending, OrderStatus::Paid),
        (OrderStatus::Paid, OrderStatus::Shipped),
        (OrderStatus::Shipped, OrderStatus::Completed),
        (OrderStatus::Pending, OrderStatus::Cancelled),
        (OrderStatus::Paid, OrderStatus::Cancelled),
    ];
    for from in all {
        for to in all {
            assert_eq!(from.can_become(to), allowed.contains(&(from, to)));
        }
    }
    let labels = ["pending", "paid", "shipped", "completed", "cancelled"];
    for (status, label) in all.iter().zip(labels.iter()) {
        assert_eq!(status.label(), *label);
    }
    assert_eq!(PaymentStatus::Pending.label(), "pending");
    assert_eq!(PaymentStatus::Captured.label(), "captured");
    assert!(!OrderStatus::Pending.is_settled());
    assert!(OrderStatus::Paid.is_settled());
    assert!(OrderStatus::Shipped.is_settled());
    assert!(OrderStatus::Completed.is_settled());
    assert!(!OrderStatus::Cancelled.is_settled());
}

#[test]
fn id_counters_allocate_until_they_run_out() {
    let ids = IdCounters::new();
    assert_eq!(ids, IdCounters { order: 1, item: 1, shipping: 1, payment: 1 });
    assert!(ids.can_allocate(0));
    assert!(ids.can_allocate(2147483646));
    assert!(!ids.can_allocate(2147483647));
    assert_eq!(ids.after(3), IdCounters { order: 2, item: 4, shipping: 2, payment: 2 });
    assert!(!IdCounters { order: i32::MAX, ..ids }.can_allocate(1));
    assert!(!IdCounters { shipping: i32::MAX, ..ids }.can_allocate(1));
    assert!(!IdCounters { payment: i32::MAX, ..ids }.can_allocate(1));
    assert!(IdCounters { item: i32::MAX, ..ids }.can_allocate(0));
    assert!(!IdCounters { item: i32::MAX, ..ids }.can_allocate(1));
}

#[test]
fn line_total_is_quantity_times_price() {
    assert_eq!(line_total(2, 1000), 2000);
    assert_eq!(line_total(0, 1000), 0);
    assert_eq!(line_total(-3, 7), -21);
    assert_eq!(line_total(i32::MAX, i32::MAX), 4611686014132420609);
    assert_eq!(line_total(i32::MIN, i32::MIN), 4611686018427387904);
    assert_eq!(line_total(i32::MIN, i32::MAX), -4611686016279904256);
}
