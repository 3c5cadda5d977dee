use shop_core::auth::Claims;
use shop_core::orders::{
    get_all_orders, get_order_by_id, get_user_orders, get_vendor_orders, update_order_status,
    OrderError,
};
use shop_core::role::UserRole;
use shop_core::status::OrderStatus;
use shop_core::store::{Order, OrderItem, Product, Store};

fn claims(sub: &str, role: UserRole) -> Claims {
    Claims { sub: sub.to_owned(), email: String::new(), role, exp: 0, iat: 0 }
}

fn product(id: &str, name: &str, price: u32, vendor: &str, stock: i32) -> Product {
    Product {
        id: id.to_owned(),
        name: name.to_owned(),
        description: String::new(),
        price,
        vendor_id: vendor.to_owned(),
        stock,
        created_at: 0,
        updated_at: 0,
        category: None,
    }
}

fn order(id: &str, user: &str, total: u128, status: OrderStatus) -> Order {
    Order { id: id.to_owned(), user_id: user.to_owned(), total, status, created_at: 0, updated_at: 0 }
}

fn line(id: &str, oid: &str, pid: &str, qty: i32, price: u32) -> OrderItem {
    OrderItem {
        id: id.to_owned(),
        order_id: oid.to_owned(),
        product_id: pid.to_owned(),
        quantity: qty,
        price,
    }
}

/// A store with one order of user u1 holding a product of vendor v1 and a
/// product of vendor v2.
fn sample() -> Store {
    let mut st = Store::new();
    st.products.push(product("a", "A", 1000, "v1", 5));
    st.products.push(product("b", "B", 500, "v2", 5));
    st.orders.push(order("o1", "u1", 2500, OrderStatus::Pending));
    st.order_items.push(line("i1", "o1", "a", 2, 1000));
    st.order_items.push(line("i2", "o1", "b", 1, 500));
    st
}

#[test]
fn vendor_may_ship_but_not_deliver() {
    let mut st = sample();
    let vendor = claims("v1", UserRole::Vendor);

    let e = update_order_status(&mut st, &vendor, "o1", "delivered").unwrap_err();
    assert_eq!(e, OrderError::VendorBadTarget);
    assert_eq!(e.status_code(), 403);
    assert!(matches!(st.orders[0].status, OrderStatus::Pending));

    let st2 = update_order_status(&mut st, &vendor, "o1", "shipped").unwrap();
    assert!(matches!(st2, OrderStatus::Shipped));
    assert!(matches!(st.orders[0].status, OrderStatus::Shipped));
}

#[test]
fn vendor_without_item_in_order_is_refused() {
    let mut st = sample();
    let stranger = claims("v9", UserRole::Vendor);
    let e = update_order_status(&mut st, &stranger, "o1", "shipped").unwrap_err();
    assert_eq!(e, OrderError::VendorNotInOrder);
    assert_eq!(e.status_code(), 403);
}

#[test]
fn customers_never_change_a_status() {
    let mut st = sample();
    let owner = claims("u1", UserRole::Customer);
    assert_eq!(
        update_order_status(&mut st, &owner, "o1", "cancelled").unwrap_err(),
        OrderError::CustomerForbidden
    );
    let other = claims("u2", UserRole::Customer);
    assert_eq!(
        update_order_status(&mut st, &other, "o1", "cancelled").unwrap_err(),
        OrderError::NotYourOrder
    );
    assert!(matches!(st.orders[0].status, OrderStatus::Pending));
}

#[test]
fn unknown_status_fails_before_authorization() {
    let mut st = sample();
    // even with a bogus order id, the status string is judged first
    let e = update_order_status(
        &mut st,
        &claims("u2", UserRole::Customer),
        "no-such-order",
        "refunded",
    )
    .unwrap_err();
    assert_eq!(e, OrderError::InvalidStatus);
    assert_eq!(e.status_code(), 400);

    let e = update_order_status(&mut st, &claims("adm", UserRole::Admin), "no-such-order", "shipped")
        .unwrap_err();
    assert_eq!(e, OrderError::NotFound);
    assert_eq!(e.status_code(), 404);
}

#[test]
fn admin_sets_any_status_case_insensitively() {
    let mut st = sample();
    let adm = claims("adm", UserRole::Admin);
    let st2 = update_order_status(&mut st, &adm, "o1", "CANCELLED").unwrap();
    assert!(matches!(st2, OrderStatus::Cancelled));
    assert!(matches!(st.orders[0].status, OrderStatus::Cancelled));
    assert_eq!(st.orders[0].total, 2500);
    assert_eq!(st.orders[0].user_id, "u1");
}

#[test]
fn order_reads_respect_ownership() {
    let st = sample();

    let resp = get_order_by_id(&st, &claims("u1", UserRole::Customer), "o1").unwrap();
    assert_eq!(resp.id, "o1");
    assert_eq!(resp.total, 2500);
    assert_eq!(resp.items.len(), 2);

    assert_eq!(
        get_order_by_id(&st, &claims("u2", UserRole::Customer), "o1").unwrap_err(),
        OrderError::NotYourOrder
    );
    assert!(get_order_by_id(&st, &claims("adm", UserRole::Admin), "o1").is_ok());
    assert!(get_order_by_id(&st, &claims("v1", UserRole::Vendor), "o1").is_ok());
    assert_eq!(
        get_order_by_id(&st, &claims("v9", UserRole::Vendor), "o1").unwrap_err(),
        OrderError::VendorNotInOrder
    );
    assert_eq!(
        get_order_by_id(&st, &claims("u1", UserRole::Customer), "o9").unwrap_err(),
        OrderError::NotFound
    );
}

#[test]
fn vendor_order_view_totals_only_their_lines() {
    let st = sample();
    let list = get_vendor_orders(&st, &claims("v1", UserRole::Vendor));
    assert_eq!(list.len(), 1);
    assert_eq!(list[0].id, "o1");
    assert_eq!(list[0].items.len(), 1);
    assert_eq!(list[0].items[0].product_id, "a");
    // 2 * 10.00 of vendor v1's product, not the order's full 25.00
    assert_eq!(list[0].total, 2000);

    let list = get_vendor_orders(&st, &claims("v2", UserRole::Vendor));
    assert_eq!(list[0].total, 500);

    let list = get_vendor_orders(&st, &claims("v9", UserRole::Vendor));
    assert!(list.is_empty());
}

#[test]
fn listing_orders_depends_on_role() {
    let mut st = sample();
    st.orders.push(order("o2", "u2", 100, OrderStatus::Pending));

    let own = get_user_orders(&st, &claims("u1", UserRole::Customer));
    assert_eq!(own.len(), 1);
    assert_eq!(own[0].id, "o1");

    let all = get_user_orders(&st, &claims("adm", UserRole::Admin));
    assert_eq!(all.len(), 2);

    let e = get_all_orders(&st, &claims("u1", UserRole::Customer)).unwrap_err();
    assert_eq!(e, OrderError::AdminOnly);
    assert_eq!(e.status_code(), 403);
    assert_eq!(get_all_orders(&st, &claims("adm", UserRole::Admin)).unwrap().len(), 2);
}
