use tyutyun_shop::catalog::{Product, Size};
use tyutyun_shop::checkout::{cart_line, checkout, price_cart, settle_notification, CartLine};
use tyutyun_shop::error::{CheckoutError, NotificationError};
use tyutyun_shop::inventory::SizeGroup;
use tyutyun_shop::order::{
    OrderItemDetails, OrderLine, OrderStatus, PaymentStatus, ShippingInfo,
};
use tyutyun_shop::store::{CommitOutcome, Store};

fn product(name: &str, price: i32, size_id: Option<i32>) -> Product {
    Product {
        name: name.to_string(),
        description: None,
        primary_image_id: None,
        price,
        stock_quantity: None,
        size_id,
        category_id: None,
    }
}

fn group(id: i32, product_id: i32, single_size: i32, s: i32, m: i32) -> SizeGroup {
    SizeGroup { id, product_id: Some(product_id), single_size, s, m, l: 0, xl: 0, xxl: 0 }
}

/// Product 1 costs 1000 and has 5 units of S and 2 of M; product 2 costs 250
/// and has one unit in its single size; product 3 has no size group; product 4
/// refers to a size group that is not there.
fn shop() -> Store {
    let mut store = Store::new();
    assert_eq!(store.insert_product(1, product("Hoodie", 1000, Some(10))), Ok(()));
    assert_eq!(store.insert_product(2, product("Cap", 250, Some(20))), Ok(()));
    assert_eq!(store.insert_product(3, product("Sticker", 50, None)), Ok(()));
    assert_eq!(store.insert_product(4, product("Scarf", 700, Some(99))), Ok(()));
    assert_eq!(store.insert_size_group(group(10, 1, 0, 5, 2)), Ok(()));
    assert_eq!(store.insert_size_group(group(20, 2, 1, 0, 0)), Ok(()));
    store
}

fn shipping() -> ShippingInfo {
    ShippingInfo {
        address: "Khreshchatyk 1, Kyiv".to_string(),
        first_name: "Olena".to_string(),
        last_name: "Shevchenko".to_string(),
        phone_number: "+380501234567".to_string(),
        email: "olena@example.com".to_string(),
    }
}

fn line(product_id: i32, size: Size, quantity: i32) -> CartLine {
    CartLine { product_id, size, quantity }
}

fn snapshot(store: &Store) -> String {
    format!("{:?}", store)
}

#[test]
fn checkout_commits_order_and_takes_stock() {
    let mut store = shop();
    let cart = vec![line(1, Size::S, 2)];
    let confirmation =
        checkout(&mut store, &cart, shipping(), "card".to_string(), CommitOutcome::Committed)
            .unwrap();
    assert_eq!(confirmation.order.total_price, 2000);
    assert_eq!(confirmation.order.id, 1);
    assert_eq!(confirmation.order.status, OrderStatus::Pending);
    assert_eq!(confirmation.order.user_id, None);
    assert!(!confirmation.order.online_payment);
    assert_eq!(store.stock_of(1, Size::S), Some(3));
    assert_eq!(store.stock_of(1, Size::M), Some(2));
    assert_eq!(store.order_count(), 1);
    assert_eq!(confirmation.details.order_id, 1);
    assert_eq!(confirmation.details.shipping, shipping());
    assert_eq!(
        confirmation.details.items,
        vec![OrderItemDetails {
            product_name: "Hoodie".to_string(),
            quantity: 2,
            size: Size::S,
            total_price: 2000,
        }]
    );
}

#[test]
fn checkout_result_does_not_depend_on_notification() {
    let outcomes: Vec<Result<String, NotificationError>> =
        vec![Ok("sent".to_string()), Err(NotificationError::Delivery)];
    for sent in outcomes {
        let failed = sent.is_err();
        let mut store = shop();
        let cart = vec![line(1, Size::S, 2)];
        let confirmation =
            checkout(&mut store, &cart, shipping(), "card".to_string(), CommitOutcome::Committed)
                .unwrap();
        let before = snapshot(&store);
        let expected = confirmation.clone();
        let (after, log) = settle_notification(confirmation, sent);
        assert_eq!(after, expected);
        assert_eq!(after.order.total_price, 2000);
        assert_eq!(log.is_some(), failed);
        assert_eq!(store.stock_of(1, Size::S), Some(3));
        assert_eq!(snapshot(&store), before);
    }
}

#[test]
fn settle_notification_reports_failure_for_the_log() {
    let mut store = shop();
    let cart = vec![line(2, Size::Single, 1)];
    let confirmation =
        checkout(&mut store, &cart, shipping(), "cash".to_string(), CommitOutcome::Committed)
            .unwrap();
    let (_, log) = settle_notification(confirmation.clone(), Err(NotificationError::Address));
    assert_eq!(log, Some(NotificationError::Address));
    let (_, log) = settle_notification(confirmation, Ok("sent".to_string()));
    assert_eq!(log, None);
}

#[test]
fn committed_order_adds_up() {
    let mut store = shop();
    let cart = vec![line(1, Size::S, 2), line(2, Size::Single, 1), line(1, Size::M, 1)];
    let confirmation =
        checkout(&mut store, &cart, shipping(), "card".to_string(), CommitOutcome::Committed)
            .unwrap();
    assert_eq!(confirmation.order.total_price, 2 * 1000 + 250 + 1000);
    let graph = store.order(confirmation.order.id).unwrap();
    assert_eq!(graph.order, confirmation.order);
    assert_eq!(graph.items.len(), 3);
    let mut sum: i128 = 0;
    for item in graph.items.iter() {
        assert_eq!(item.total_price(), (item.quantity as i64) * (item.price as i64));
        assert_eq!(item.order_id, graph.order.id);
        sum += item.total_price() as i128;
    }
    assert_eq!(sum, graph.order.total_price);
    assert_eq!(graph.items[0].id, 1);
    assert_eq!(graph.items[1].id, 2);
    assert_eq!(graph.items[2].id, 3);
    assert_eq!(graph.items[1].product_id, Some(2));
    assert_eq!(graph.items[1].size, Size::Single);
    assert_eq!(graph.payment.amount, graph.order.total_price);
    assert_eq!(graph.payment.status, PaymentStatus::Pending);
    assert_eq!(graph.payment.method, "card");
    assert_eq!(graph.payment.order_id, graph.order.id);
    assert_eq!(graph.shipping.order_id, graph.order.id);
    assert_eq!(graph.shipping.info, shipping());
    assert_eq!(store.stock_of(1, Size::S), Some(3));
    assert_eq!(store.stock_of(1, Size::M), Some(1));
    assert_eq!(store.stock_of(2, Size::Single), Some(0));
}

#[test]
fn two_lines_on_one_counter_are_reserved_one_after_the_other() {
    let mut store = shop();
    let cart = vec![line(1, Size::S, 3), line(1, Size::S, 2)];
    let confirmation =
        checkout(&mut store, &cart, shipping(), "card".to_string(), CommitOutcome::Committed)
            .unwrap();
    assert_eq!(confirmation.order.total_price, 5000);
    assert_eq!(store.stock_of(1, Size::S), Some(0));

    let mut store = shop();
    let before = snapshot(&store);
    let cart = vec![line(1, Size::S, 3), line(1, Size::S, 3)];
    let refused =
        checkout(&mut store, &cart, shipping(), "card".to_string(), CommitOutcome::Committed);
    assert_eq!(refused, Err(CheckoutError::InsufficientStock));
    assert_eq!(snapshot(&store), before);
}

#[test]
fn last_unit_goes_to_one_checkout_only() {
    let mut store = shop();
    assert_eq!(store.stock_of(2, Size::Single), Some(1));
    let cart = vec![line(2, Size::Single, 1)];
    let first =
        checkout(&mut store, &cart, shipping(), "card".to_string(), CommitOutcome::Committed);
    let second =
        checkout(&mut store, &cart, shipping(), "cash".to_string(), CommitOutcome::Committed);
    assert!(first.is_ok());
    assert_eq!(second, Err(CheckoutError::InsufficientStock));
    assert_eq!(store.stock_of(2, Size::Single), Some(0));
    assert_eq!(store.order_count(), 1);
}

#[test]
fn refused_checkout_leaves_no_trace() {
    let carts: Vec<(Vec<CartLine>, CommitOutcome, CheckoutError)> = vec![
        (vec![], CommitOutcome::Committed, CheckoutError::ValidationError),
        (vec![line(1, Size::S, 0)], CommitOutcome::Committed, CheckoutError::ValidationError),
        (vec![line(1, Size::S, -1)], CommitOutcome::Committed, CheckoutError::ValidationError),
        (
            vec![line(1, Size::S, 1), line(77, Size::S, 1)],
            CommitOutcome::Committed,
            CheckoutError::ValidationError,
        ),
        (vec![line(3, Size::Single, 1)], CommitOutcome::Committed, CheckoutError::ValidationError),
        (vec![line(4, Size::Single, 1)], CommitOutcome::Committed, CheckoutError::ValidationError),
        (
            vec![line(1, Size::S, 2), line(1, Size::M, 3)],
            CommitOutcome::Committed,
            CheckoutError::InsufficientStock,
        ),
        (vec![line(1, Size::L, 1)], CommitOutcome::Committed, CheckoutError::InsufficientStock),
        (vec![line(1, Size::S, 2)], CommitOutcome::Failed, CheckoutError::PersistenceError),
    ];
    for (cart, outcome, expected) in carts {
        let mut store = shop();
        let first = checkout(
            &mut store,
            &vec![line(1, Size::S, 1)],
            shipping(),
            "card".to_string(),
            CommitOutcome::Committed,
        );
        assert!(first.is_ok());
        let before = snapshot(&store);
        let refused = checkout(&mut store, &cart, shipping(), "card".to_string(), outcome);
        assert_eq!(refused, Err(expected));
        assert_eq!(snapshot(&store), before);
        assert_eq!(store.stock_of(1, Size::S), Some(4));
        assert_eq!(store.stock_of(1, Size::M), Some(2));
        assert_eq!(store.order_count(), 1);
    }
}

#[test]
fn failed_commit_does_not_use_up_ids() {
    let mut store = shop();
    let cart = vec![line(1, Size::S, 1)];
    let refused =
        checkout(&mut store, &cart, shipping(), "card".to_string(), CommitOutcome::Failed);
    assert_eq!(refused, Err(CheckoutError::PersistenceError));
    let confirmation =
        checkout(&mut store, &cart, shipping(), "card".to_string(), CommitOutcome::Committed)
            .unwrap();
    assert_eq!(confirmation.order.id, 1);
    assert_eq!(store.order(1).unwrap().items[0].id, 1);
}

#[test]
fn same_checkout_twice_makes_two_orders() {
    let mut store = shop();
    let cart = vec![line(1, Size::S, 2), line(1, Size::M, 1)];
    let first =
        checkout(&mut store, &cart, shipping(), "card".to_string(), CommitOutcome::Committed)
            .unwrap();
    let second =
        checkout(&mut store, &cart, shipping(), "card".to_string(), CommitOutcome::Committed)
            .unwrap();
    assert_eq!(first.order.id, 1);
    assert_eq!(second.order.id, 2);
    assert_eq!(first.order.total_price, 3000);
    assert_eq!(second.order.total_price, 3000);
    assert_eq!(store.order_count(), 2);
    assert_eq!(store.stock_of(1, Size::S), Some(1));
    assert_eq!(store.stock_of(1, Size::M), Some(0));
    let one = store.order(1).unwrap();
    let two = store.order(2).unwrap();
    assert_eq!(one.items.len(), 2);
    assert_eq!(two.items.len(), 2);
    assert_eq!(one.items[0].id, 1);
    assert_eq!(one.items[1].id, 2);
    assert_eq!(two.items[0].id, 3);
    assert_eq!(two.items[1].id, 4);
    assert_eq!(one.shipping.id, 1);
    assert_eq!(two.shipping.id, 2);
    assert_eq!(one.payment.id, 1);
    assert_eq!(two.payment.id, 2);
    let third =
        checkout(&mut store, &cart, shipping(), "card".to_string(), CommitOutcome::Committed);
    assert_eq!(third, Err(CheckoutError::InsufficientStock));
}

#[test]
fn counters_are_never_below_zero() {
    let mut store = shop();
    let sizes = [Size::Single, Size::S, Size::M, Size::L, Size::XL, Size::XXL];
    for quantity in [3, 2, 1, 1, 7, 1] {
        for product_id in [1, 2] {
            for size in sizes {
                let cart = vec![line(product_id, size, quantity)];
                let _ = checkout(
                    &mut store,
                    &cart,
                    shipping(),
                    "card".to_string(),
                    CommitOutcome::Committed,
                );
                for seen in sizes {
                    assert!(store.stock_of(1, seen).unwrap() >= 0);
                    assert!(store.stock_of(2, seen).unwrap() >= 0);
                }
            }
        }
    }
    assert_eq!(store.stock_of(1, Size::S), Some(0));
    assert_eq!(store.stock_of(1, Size::M), Some(0));
    assert_eq!(store.stock_of(2, Size::Single), Some(0));
}

#[test]
fn negative_price_gives_negative_total() {
    let mut store = Store::new();
    assert_eq!(store.insert_product(1, product("Voucher", -300, Some(1))), Ok(()));
    assert_eq!(store.insert_size_group(group(1, 1, 10, 0, 0)), Ok(()));
    let cart = vec![line(1, Size::Single, 4)];
    let confirmation =
        checkout(&mut store, &cart, shipping(), "card".to_string(), CommitOutcome::Committed)
            .unwrap();
    assert_eq!(confirmation.order.total_price, -1200);
    assert_eq!(confirmation.details.items[0].total_price, -1200);
}

#[test]
fn largest_line_total_fits() {
    let mut store = Store::new();
    assert_eq!(store.insert_product(1, product("Gold", i32::MAX, Some(1))), Ok(()));
    assert_eq!(store.insert_size_group(group(1, 1, i32::MAX, 0, 0)), Ok(()));
    let cart = vec![line(1, Size::Single, i32::MAX)];
    let confirmation =
        checkout(&mut store, &cart, shipping(), "card".to_string(), CommitOutcome::Committed)
            .unwrap();
    assert_eq!(confirmation.order.total_price, 4611686014132420609);
    assert_eq!(store.stock_of(1, Size::Single), Some(0));
}

#[test]
fn price_cart_puts_name_and_price_beside_each_line() {
    let store = shop();
    let cart = vec![line(2, Size::Single, 1), line(1, Size::XL, 4)];
    assert_eq!(
        price_cart(&store, &cart),
        Ok(vec![
            OrderLine {
                product_id: 2,
                product_name: "Cap".to_string(),
                size: Size::Single,
                quantity: 1,
                unit_price: 250,
            },
            OrderLine {
                product_id: 1,
                product_name: "Hoodie".to_string(),
                size: Size::XL,
                quantity: 4,
                unit_price: 1000,
            },
        ])
    );
}

#[test]
fn price_cart_refuses_what_the_catalog_does_not_hold() {
    let store = shop();
    assert_eq!(price_cart(&store, &vec![]), Err(CheckoutError::ValidationError));
    assert_eq!(
        price_cart(&store, &vec![line(1, Size::S, 0)]),
        Err(CheckoutError::ValidationError)
    );
    assert_eq!(
        price_cart(&store, &vec![line(9, Size::S, 1)]),
        Err(CheckoutError::ValidationError)
    );
    assert_eq!(
        price_cart(&store, &vec![line(3, Size::S, 1)]),
        Err(CheckoutError::ValidationError)
    );
    assert_eq!(
        price_cart(&store, &vec![line(4, Size::S, 1)]),
        Err(CheckoutError::ValidationError)
    );
}

#[test]
fn cart_line_reads_the_size_label() {
    assert_eq!(cart_line(7, "XL", 2), Ok(line(7, Size::XL, 2)));
    assert_eq!(cart_line(7, "single", -1), Ok(line(7, Size::Single, -1)));
    assert_eq!(cart_line(7, "xl", 2), Err(CheckoutError::ValidationError));
    assert_eq!(cart_line(7, "", 2), Err(CheckoutError::ValidationError));
    assert_eq!(cart_line(7, "XXXL", 2), Err(CheckoutError::ValidationError));
}
