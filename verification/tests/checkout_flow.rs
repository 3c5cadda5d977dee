use shop_core::auth::Claims;
use shop_core::cart::{add_to_cart, get_cart, remove_from_cart, update_cart_item, CartError};
use shop_core::checkout::{checkout, CheckoutError, UnavailableProduct};
use shop_core::role::UserRole;
use shop_core::status::OrderStatus;
use shop_core::store::{CartItem, Product, Store};

fn claims(sub: &str, role: UserRole) -> Claims {
    Claims { sub: sub.to_owned(), email: String::new(), role, exp: 0, iat: 0 }
}

fn product(id: &str, name: &str, price: u32, vendor: &str, stock: i32) -> Product {
    Product {
        id: id.to_owned(),
        name: name.to_owned(),
        description: String::new(),
        price,
        vendor_id: vendor.to_owned(),
        stock,
        created_at: 0,
        updated_at: 0,
        category: None,
    }
}

fn cart_row(id: &str, user: &str, pid: &str, qty: i32) -> CartItem {
    CartItem {
        id: id.to_owned(),
        user_id: user.to_owned(),
        product_id: pid.to_owned(),
        quantity: qty,
        created_at: 0,
        updated_at: 0,
    }
}

#[test]
fn checkout_commits_single_item_cart() {
    // cart = [{product A, price 10.00, qty 2, stock 5}]
    let mut st = Store::new();
    st.products.push(product("a", "A", 1000, "v1", 5));
    st.cart_items.push(cart_row("c1", "u1", "a", 2));
    let cl = claims("u1", UserRole::Customer);

    let rec = checkout(&mut st, &cl).unwrap();
    assert_eq!(rec.order.total, 2000);
    assert_eq!(rec.order.user_id, "u1");
    assert!(matches!(rec.order.status, OrderStatus::Pending));
    assert_eq!(rec.order.id.len(), 36);
    assert_eq!(rec.items.len(), 1);
    assert_eq!(rec.items[0].product_id, "a");
    assert_eq!(rec.items[0].quantity, 2);
    assert_eq!(rec.items[0].price, 1000);
    assert_eq!(rec.items[0].order_id, rec.order.id);
    assert_eq!(rec.items[0].id.len(), 36);

    assert!(matches!(rec.order.get_status(), OrderStatus::Pending));
    // the captured lines alone reconstruct the total
    let reconstructed: u128 =
        rec.items.iter().map(|it| it.price as u128 * it.quantity as u128).sum();
    assert_eq!(reconstructed, rec.order.total);

    assert_eq!(st.products[0].stock, 3);
    assert!(st.products[0].in_stock());
    assert!(st.cart_items.is_empty());
    assert_eq!(st.orders.len(), 1);
    assert_eq!(st.orders[0].id, rec.order.id);
    assert_eq!(st.order_items.len(), 1);
}

#[test]
fn checkout_short_stock_writes_nothing() {
    // cart = [{A, price 10.00, qty 2, stock 5}, {B, price 5.00, qty 1, stock 0}]
    let mut st = Store::new();
    st.products.push(product("a", "A", 1000, "v1", 5));
    st.products.push(product("b", "B", 500, "v1", 0));
    st.cart_items.push(cart_row("c1", "u1", "a", 2));
    st.cart_items.push(cart_row("c2", "u1", "b", 1));
    let cl = claims("u1", UserRole::Customer);

    let err = checkout(&mut st, &cl).unwrap_err();
    match &err {
        CheckoutError::InsufficientStock(list) => {
            assert_eq!(list.len(), 1);
            match &list[0] {
                UnavailableProduct::ShortStock {
                    product_id,
                    product_name,
                    requested_quantity,
                    available_stock,
                } => {
                    assert_eq!(product_id, "b");
                    assert_eq!(product_name, "B");
                    assert_eq!(*requested_quantity, 1);
                    assert_eq!(*available_stock, 0);
                },
                _ => panic!("expected a short-stock entry"),
            }
        },
        _ => panic!("expected an insufficient-stock failure"),
    }
    assert_eq!(err.status_code(), 400);

    // zero writes
    assert_eq!(st.products[0].stock, 5);
    assert_eq!(st.products[1].stock, 0);
    assert_eq!(st.cart_items.len(), 2);
    assert!(st.orders.is_empty());
    assert!(st.order_items.is_empty());
}

#[test]
fn checkout_reports_missing_product() {
    let mut st = Store::new();
    st.cart_items.push(cart_row("c1", "u1", "ghost", 1));
    let cl = claims("u1", UserRole::Customer);

    match checkout(&mut st, &cl).unwrap_err() {
        CheckoutError::InsufficientStock(list) => {
            assert_eq!(list.len(), 1);
            match &list[0] {
                UnavailableProduct::Missing { product_id } => assert_eq!(product_id, "ghost"),
                _ => panic!("expected a missing-product entry"),
            }
        },
        _ => panic!("expected an insufficient-stock failure"),
    }
    assert_eq!(st.cart_items.len(), 1);
    assert!(st.orders.is_empty());
}

#[test]
fn second_checkout_fails_with_empty_cart() {
    let mut st = Store::new();
    st.products.push(product("a", "A", 1000, "v1", 5));
    st.cart_items.push(cart_row("c1", "u1", "a", 2));
    let cl = claims("u1", UserRole::Customer);

    assert!(checkout(&mut st, &cl).is_ok());
    let again = checkout(&mut st, &cl).unwrap_err();
    assert!(matches!(again, CheckoutError::EmptyCart));
    assert_eq!(again.status_code(), 400);
    assert_eq!(st.orders.len(), 1);
    assert_eq!(st.order_items.len(), 1);
}

#[test]
fn racing_checkouts_sell_the_stock_once() {
    // stock exactly sufficient for one of the two carts
    let mut st = Store::new();
    st.products.push(product("a", "A", 1000, "v1", 2));
    st.cart_items.push(cart_row("c1", "u1", "a", 2));
    st.cart_items.push(cart_row("c2", "u2", "a", 2));

    let first = checkout(&mut st, &claims("u1", UserRole::Customer));
    assert!(first.is_ok());
    assert_eq!(st.products[0].stock, 0);

    let second = checkout(&mut st, &claims("u2", UserRole::Customer));
    assert!(matches!(second.unwrap_err(), CheckoutError::InsufficientStock(_)));

    // exactly one success, stock never negative
    assert_eq!(st.products[0].stock, 0);
    assert_eq!(st.orders.len(), 1);
}

#[test]
fn price_change_after_checkout_keeps_captured_price() {
    let mut st = Store::new();
    st.products.push(product("a", "A", 1000, "v1", 5));
    st.cart_items.push(cart_row("c1", "u1", "a", 2));

    let rec = checkout(&mut st, &claims("u1", UserRole::Customer)).unwrap();
    assert_eq!(rec.items[0].price, 1000);

    // the vendor re-prices the product afterwards
    let dto = shop_core::products::UpdateProductDto {
        name: None,
        description: None,
        price: Some(9999),
        stock: None,
        category: None,
    };
    let updated =
        shop_core::products::update_product(&mut st, &claims("v1", UserRole::Vendor), "a", dto)
            .unwrap();
    assert_eq!(updated.price, 9999);

    // the order item still carries the price captured at purchase time
    assert_eq!(st.order_items.len(), 1);
    assert_eq!(st.order_items[0].price, 1000);
    assert_eq!(st.orders[0].total, 2000);
}

#[test]
fn admins_are_barred_from_cart_and_checkout() {
    let mut st = Store::new();
    st.products.push(product("a", "A", 1000, "v1", 5));
    st.cart_items.push(cart_row("c1", "admin1", "a", 1));
    let adm = claims("admin1", UserRole::Admin);

    assert!(matches!(checkout(&mut st, &adm).unwrap_err(), CheckoutError::AdminForbidden));
    assert_eq!(CheckoutError::AdminForbidden.status_code(), 403);
    assert!(matches!(get_cart(&st, &adm).unwrap_err(), CartError::AdminForbidden));
    assert!(matches!(add_to_cart(&mut st, &adm, "a", 1).unwrap_err(), CartError::AdminForbidden));
    assert!(matches!(
        update_cart_item(&mut st, &adm, "c1", 2).unwrap_err(),
        CartError::AdminForbidden
    ));
    assert!(matches!(remove_from_cart(&mut st, &adm, "c1").unwrap_err(), CartError::AdminForbidden));
    assert_eq!(CartError::AdminForbidden.status_code(), 403);

    // and nothing changed
    assert_eq!(st.cart_items.len(), 1);
    assert_eq!(st.products[0].stock, 5);
    assert!(st.orders.is_empty());
}

#[test]
fn checkout_prices_every_line_of_a_mixed_cart() {
    let mut st = Store::new();
    st.products.push(product("a", "A", 1000, "v1", 5));
    st.products.push(product("b", "B", 500, "v2", 4));
    let cl = claims("u1", UserRole::Customer);

    // fill the cart through the library, then check out
    assert!(add_to_cart(&mut st, &cl, "a", 2).is_ok());
    assert!(add_to_cart(&mut st, &cl, "b", 3).is_ok());
    let rec = checkout(&mut st, &cl).unwrap();

    assert_eq!(rec.order.total, 2000 + 1500);
    assert_eq!(rec.items.len(), 2);
    assert_eq!(rec.items[0].product_id, "a");
    assert_eq!(rec.items[1].product_id, "b");
    assert_eq!(rec.items[1].price, 500);
    assert_eq!(st.products[0].stock, 3);
    assert_eq!(st.products[1].stock, 1);
    assert!(st.cart_items.is_empty());
    assert_eq!(st.order_items.len(), 2);
}
