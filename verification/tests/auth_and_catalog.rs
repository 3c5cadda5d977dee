use shop_core::auth::{extract_token_from_header, Claims};
use shop_core::products::{
    create_product, delete_product, get_product_by_id, get_vendor_products, update_product,
    CreateProductDto, ProductError, UpdateProductDto,
};
use shop_core::role::UserRole;
use shop_core::status::OrderStatus;
use shop_core::store::{Product, Store};

fn claims(sub: &str, role: UserRole) -> Claims {
    Claims { sub: sub.to_owned(), email: String::new(), role, exp: 0, iat: 0 }
}

#[test]
fn bearer_tokens_are_extracted_from_the_header() {
    assert_eq!(extract_token_from_header("Bearer abc.def"), Some("abc.def"));
    assert_eq!(extract_token_from_header("Bearer "), Some(""));
    assert_eq!(extract_token_from_header("Token abc"), None);
    assert_eq!(extract_token_from_header("bearer abc"), None);
    assert_eq!(extract_token_from_header(""), None);
    assert_eq!(extract_token_from_header("Bearer"), None);
}

#[test]
fn roles_parse_case_insensitively_and_fail_closed() {
    assert_eq!(UserRole::from_str("customer"), Some(UserRole::Customer));
    assert_eq!(UserRole::from_str("ADMIN"), Some(UserRole::Admin));
    assert_eq!(UserRole::from_str("Vendor"), Some(UserRole::Vendor));
    assert_eq!(UserRole::from_str("root"), None);
    assert_eq!(UserRole::from_str(""), None);
    assert_eq!(UserRole::Admin.name(), "admin");
    assert_eq!(UserRole::Customer.name(), "customer");
}

#[test]
fn statuses_parse_case_insensitively_and_fail_closed() {
    assert_eq!(OrderStatus::from_str("pending"), Some(OrderStatus::Pending));
    assert_eq!(OrderStatus::from_str("Shipped"), Some(OrderStatus::Shipped));
    assert_eq!(OrderStatus::from_str("DELIVERED"), Some(OrderStatus::Delivered));
    assert_eq!(OrderStatus::from_str("refunded"), None);
    assert_eq!(OrderStatus::Processing.name(), "processing");
}

#[test]
fn claims_expiry_is_issue_time_plus_lifetime() {
    let c = Claims::new("u1".to_owned(), UserRole::Customer, 1_700_000_000, 86_400);
    assert_eq!(c.sub, "u1");
    assert_eq!(c.iat, 1_700_000_000);
    assert_eq!(c.exp, 1_700_000_000 + 86_400);
    assert!(c.email.is_empty());
}

#[test]
fn catalog_writes_are_gated_by_role_and_ownership() {
    let mut st = Store::new();
    let dto = CreateProductDto {
        name: "A".to_owned(),
        description: "d".to_owned(),
        price: 1000,
        stock: 5,
        category: Some("tools".to_owned()),
    };
    let e = create_product(&mut st, &claims("u1", UserRole::Customer), dto).unwrap_err();
    assert_eq!(e, ProductError::Forbidden);
    assert_eq!(e.status_code(), 403);

    let dto = CreateProductDto {
        name: "A".to_owned(),
        description: "d".to_owned(),
        price: 1000,
        stock: 5,
        category: None,
    };
    let p = create_product(&mut st, &claims("v1", UserRole::Vendor), dto).unwrap();
    assert_eq!(p.vendor_id, "v1");
    assert_eq!(p.price, 1000);
    assert_eq!(p.id.len(), 36);
    assert_eq!(st.products.len(), 1);
    let pid = p.id.clone();

    // another vendor may not touch it; the owner and an admin may
    let upd = UpdateProductDto {
        name: None,
        description: None,
        price: Some(1200),
        stock: None,
        category: None,
    };
    let e = update_product(&mut st, &claims("v2", UserRole::Vendor), pid.as_str(), upd).unwrap_err();
    assert_eq!(e, ProductError::Forbidden);

    let upd = UpdateProductDto {
        name: Some("A2".to_owned()),
        description: None,
        price: Some(1200),
        stock: None,
        category: None,
    };
    let p2 = update_product(&mut st, &claims("v1", UserRole::Vendor), pid.as_str(), upd).unwrap();
    assert_eq!(p2.name, "A2");
    assert_eq!(p2.price, 1200);
    assert_eq!(p2.stock, 5);
    assert_eq!(p2.id, pid);

    assert_eq!(
        delete_product(&mut st, &claims("v2", UserRole::Vendor), pid.as_str()).unwrap_err(),
        ProductError::Forbidden
    );
    assert!(delete_product(&mut st, &claims("adm", UserRole::Admin), pid.as_str()).is_ok());
    assert!(st.products.is_empty());
    assert_eq!(
        delete_product(&mut st, &claims("adm", UserRole::Admin), pid.as_str()).unwrap_err(),
        ProductError::NotFound
    );
}

#[test]
fn vendors_see_their_products_admins_everything() {
    let mut st = Store::new();
    st.products.push(Product {
        id: "a".to_owned(),
        name: "A".to_owned(),
        description: String::new(),
        price: 1,
        vendor_id: "v1".to_owned(),
        stock: 1,
        created_at: 0,
        updated_at: 0,
        category: None,
    });
    st.products.push(Product {
        id: "b".to_owned(),
        name: "B".to_owned(),
        description: String::new(),
        price: 2,
        vendor_id: "v2".to_owned(),
        stock: 2,
        created_at: 0,
        updated_at: 0,
        category: None,
    });

    let mine = get_vendor_products(&st, &claims("v1", UserRole::Vendor)).unwrap();
    assert_eq!(mine.len(), 1);
    assert_eq!(mine[0].id, "a");

    let all = get_vendor_products(&st, &claims("adm", UserRole::Admin)).unwrap();
    assert_eq!(all.len(), 2);

    assert_eq!(
        get_vendor_products(&st, &claims("u1", UserRole::Customer)).unwrap_err(),
        ProductError::Forbidden
    );

    let one = get_product_by_id(&st, "b").unwrap();
    assert_eq!(one.name, "B");
    assert!(get_product_by_id(&st, "zzz").is_none());
}
