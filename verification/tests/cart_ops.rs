use shop_core::auth::Claims;
use shop_core::cart::{
    add_to_cart, get_cart, remove_from_cart, update_cart_item, CartChange, CartError,
};
use shop_core::role::UserRole;
use shop_core::store::{CartItem, Product, Store};

fn claims(sub: &str, role: UserRole) -> Claims {
    Claims { sub: sub.to_owned(), email: String::new(), role, exp: 0, iat: 0 }
}

fn product(id: &str, name: &str, price: u32, vendor: &str, stock: i32) -> Product {
    Product {
        id: id.to_owned(),
        name: name.to_owned(),
        description: String::new(),
        price,
        vendor_id: vendor.to_owned(),
        stock,
        created_at: 0,
        updated_at: 0,
        category: None,
    }
}

fn cart_row(id: &str, user: &str, pid: &str, qty: i32) -> CartItem {
    CartItem {
        id: id.to_owned(),
        user_id: user.to_owned(),
        product_id: pid.to_owned(),
        quantity: qty,
        created_at: 0,
        updated_at: 0,
    }
}

#[test]
fn add_creates_then_accumulates_then_deletes() {
    let mut st = Store::new();
    st.products.push(product("a", "A", 1000, "v1", 5));
    let cl = claims("u1", UserRole::Customer);

    let added = add_to_cart(&mut st, &cl, "a", 2).unwrap();
    match added {
        CartChange::Added(it) => {
            assert_eq!(it.user_id, "u1");
            assert_eq!(it.product_id, "a");
            assert_eq!(it.quantity, 2);
            assert_eq!(it.id.len(), 36);
        },
        _ => panic!("expected a new cart line"),
    }
    assert_eq!(st.cart_items.len(), 1);

    let updated = add_to_cart(&mut st, &cl, "a", 3).unwrap();
    match updated {
        CartChange::Updated(it) => assert_eq!(it.quantity, 5),
        _ => panic!("expected the line to accumulate"),
    }
    assert_eq!(st.cart_items.len(), 1);
    assert_eq!(st.cart_items[0].quantity, 5);

    let removed = add_to_cart(&mut st, &cl, "a", -5).unwrap();
    assert!(matches!(removed, CartChange::Removed));
    assert!(st.cart_items.is_empty());
}

#[test]
fn add_rejects_missing_product_and_nonpositive_start() {
    let mut st = Store::new();
    st.products.push(product("a", "A", 1000, "v1", 5));
    let cl = claims("u1", UserRole::Customer);

    let e = add_to_cart(&mut st, &cl, "nope", 1).unwrap_err();
    assert_eq!(e, CartError::ProductNotFound);
    assert_eq!(e.status_code(), 404);

    let e = add_to_cart(&mut st, &cl, "a", 0).unwrap_err();
    assert_eq!(e, CartError::InvalidQuantity);
    assert_eq!(e.status_code(), 400);
    assert!(st.cart_items.is_empty());
}

#[test]
fn update_sets_or_deletes_an_owned_line() {
    let mut st = Store::new();
    st.products.push(product("a", "A", 1000, "v1", 5));
    st.cart_items.push(cart_row("c1", "u1", "a", 2));
    let cl = claims("u1", UserRole::Customer);

    match update_cart_item(&mut st, &cl, "c1", 7).unwrap() {
        CartChange::Updated(it) => assert_eq!(it.quantity, 7),
        _ => panic!("expected an update"),
    }
    assert_eq!(st.cart_items[0].quantity, 7);

    assert!(matches!(update_cart_item(&mut st, &cl, "c1", 0).unwrap(), CartChange::Removed));
    assert!(st.cart_items.is_empty());
}

#[test]
fn lines_of_other_users_are_not_found() {
    let mut st = Store::new();
    st.cart_items.push(cart_row("c1", "u1", "a", 2));
    let other = claims("u2", UserRole::Customer);

    assert_eq!(update_cart_item(&mut st, &other, "c1", 3).unwrap_err(), CartError::ItemNotFound);
    assert_eq!(remove_from_cart(&mut st, &other, "c1").unwrap_err(), CartError::ItemNotFound);
    assert_eq!(remove_from_cart(&mut st, &other, "zzz").unwrap_err(), CartError::ItemNotFound);
    assert_eq!(st.cart_items.len(), 1);

    let owner = claims("u1", UserRole::Customer);
    assert!(remove_from_cart(&mut st, &owner, "c1").is_ok());
    assert!(st.cart_items.is_empty());
}

#[test]
fn cart_view_prices_lines_and_skips_missing_products() {
    let mut st = Store::new();
    st.products.push(product("a", "A", 1000, "v1", 5));
    st.products.push(product("b", "B", 500, "v1", 9));
    st.cart_items.push(cart_row("c1", "u1", "a", 2));
    st.cart_items.push(cart_row("c2", "u1", "ghost", 4));
    st.cart_items.push(cart_row("c3", "u1", "b", 1));
    st.cart_items.push(cart_row("c4", "u2", "b", 8));
    let cl = claims("u1", UserRole::Customer);

    let view = get_cart(&st, &cl).unwrap();
    assert_eq!(view.items.len(), 2);
    assert_eq!(view.items[0].product_id, "a");
    assert_eq!(view.items[0].product_name, "A");
    assert_eq!(view.items[0].product_price, 1000);
    assert_eq!(view.items[0].quantity, 2);
    assert_eq!(view.items[0].subtotal, 2000);
    assert_eq!(view.items[1].product_id, "b");
    assert_eq!(view.items[1].subtotal, 500);
    assert_eq!(view.total, 2500);
}
