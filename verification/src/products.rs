//! Catalog maintenance: creating, updating and deleting products, and the
//! catalog reads that serve vendors. Only vendors and admins may write;
//! a vendor may touch their own products only, an admin anyone's. Catalog
//! writes never reach the order tables: prices captured on order items
//! stay as they were.

use crate::auth::Claims;
use crate::role::UserRole;
use crate::seqs::{lemma_take_all, lemma_take_one_more};
use crate::store::{lemma_product_index_props, product_index, Product, Store};
use crate::text::str_eq;
use vstd::prelude::*;

verus! {

#[derive(Clone, Copy, PartialEq, Eq, Structural, Debug)]
pub enum ProductError {
    /// The caller's role, or the product's ownership, forbids the write.
    Forbidden,
    /// No product row carries the given id.
    NotFound,
}

impl ProductError {
    /// The HTTP status each failure maps to.
    pub fn status_code(&self) -> (c: u16)
        ensures
            c == match *self {
                ProductError::Forbidden => 403u16,
                ProductError::NotFound => 404u16,
            },
    {
        match self {
            ProductError::Forbidden => 403,
            ProductError::NotFound => 404,
        }
    }
}

#[derive(Debug)]
pub struct CreateProductDto {
    pub name: String,
    pub description: String,
    /// Unit price in minor currency units.
    pub price: u32,
    pub stock: i32,
    pub category: Option<String>,
}

#[derive(Debug)]
pub struct UpdateProductDto {
    pub name: Option<String>,
    pub description: Option<String>,
    /// Unit price in minor currency units.
    pub price: Option<u32>,
    pub stock: Option<i32>,
    pub category: Option<String>,
}

/// Whether the caller may write to the catalog at all.
pub open spec fn may_write_catalog(role: UserRole) -> bool {
    role == UserRole::Vendor || role == UserRole::Admin
}

/// Create a product owned by the caller. Vendors and admins only.
pub fn create_product(store: &mut Store, claims: &Claims, dto: CreateProductDto) -> (r: Result<
    Product,
    ProductError,
>)
    requires
        old(store).wf(),
        dto.stock >= 0,
    ensures
        final(store).wf(),
        final(store).cart_items@ == old(store).cart_items@,
        final(store).orders@ == old(store).orders@,
        final(store).order_items@ == old(store).order_items@,
        ({
            match r {
                Err(e) => e == ProductError::Forbidden && !may_write_catalog(claims.role) && final(store).products@ == old(store).products@,
                Ok(p) => {
                    &&& may_write_catalog(claims.role)
                    &&& p.name@ == dto.name@
                    &&& p.description@ == dto.description@
                    &&& p.price == dto.price
                    &&& p.vendor_id@ == claims.sub@
                    &&& p.stock == dto.stock
                    &&& (p.category is Some <==> dto.category is Some)
                    &&& (dto.category matches Some(c) ==> p.category matches Some(pc) && pc@ == c@)
                    &&& p.created_at == p.updated_at
                    &&& final(store).products@ == old(store).products@.push(p)
                },
            }
        }),
{
    if !(matches!(claims.role, UserRole::Vendor) || matches!(claims.role, UserRole::Admin)) {
        return Err(ProductError::Forbidden);
    }
    let row = Product::new(
        dto.name,
        dto.description,
        dto.price,
        claims.sub.clone(),
        dto.stock,
        dto.category,
    );
    let copy = row.duplicate();
    store.products.push(row);
    Ok(copy)
}

/// Update the fields a partial update names, leaving the rest. Vendors and
/// admins only; a vendor must own the product. Order items — and the
/// prices captured on them — are untouched.
pub fn update_product(store: &mut Store, claims: &Claims, product_id: &str, dto: UpdateProductDto)
    -> (r: Result<Product, ProductError>)
    requires
        old(store).wf(),
        dto.stock matches Some(s) ==> s >= 0,
    ensures
        final(store).wf(),
        final(store).cart_items@ == old(store).cart_items@,
        final(store).orders@ == old(store).orders@,
        final(store).order_items@ == old(store).order_items@,
        ({
            let ps = old(store).products@;
            let uid = claims.sub@;
            let pi = product_index(ps, product_id@);
            match r {
                Err(ProductError::Forbidden) => final(store).products@ == ps && (
                !may_write_catalog(claims.role) || (claims.role == UserRole::Vendor && pi != -1
                    && ps[pi].vendor_id@ != uid)),
                Err(ProductError::NotFound) => final(store).products@ == ps && may_write_catalog(
                    claims.role,
                ) && pi == -1,
                Ok(p) => {
                    &&& may_write_catalog(claims.role)
                    &&& pi != -1
                    &&& (claims.role == UserRole::Vendor ==> ps[pi].vendor_id@ == uid)
                    &&& final(store).products@.len() == ps.len()
                    &&& forall|j: int|
                        0 <= j < ps.len() && j != pi ==> final(store).products@[j] == ps[j]
                    &&& final(store).products@[pi] == p
                    &&& p.id == ps[pi].id
                    &&& p.vendor_id == ps[pi].vendor_id
                    &&& p.created_at == ps[pi].created_at
                    &&& p.updated_at == ps[pi].updated_at
                    &&& (dto.name matches Some(v) ==> p.name@ == v@)
                    &&& (dto.name is None ==> p.name == ps[pi].name)
                    &&& (dto.description matches Some(v) ==> p.description@ == v@)
                    &&& (dto.description is None ==> p.description == ps[pi].description)
                    &&& (dto.price matches Some(v) ==> p.price == v)
                    &&& (dto.price is None ==> p.price == ps[pi].price)
                    &&& (dto.stock matches Some(v) ==> p.stock == v)
                    &&& (dto.stock is None ==> p.stock == ps[pi].stock)
                    &&& (dto.category matches Some(v) ==> p.category matches Some(pc) && pc@ == v@)
                    &&& (dto.category is None ==> p.category == ps[pi].category)
                },
            }
        }),
{
    if !(matches!(claims.role, UserRole::Vendor) || matches!(claims.role, UserRole::Admin)) {
        return Err(ProductError::Forbidden);
    }
    let ghost ps = store.products@;
    let pi = match store.find_product(product_id) {
        Some(pi) => pi,
        None => {
            return Err(ProductError::NotFound);
        },
    };
    proof {
        lemma_product_index_props(ps, product_id@);
    }
    if matches!(claims.role, UserRole::Vendor) && !str_eq(
        store.products[pi].vendor_id.as_str(),
        claims.sub.as_str(),
    ) {
        return Err(ProductError::Forbidden);
    }
    let mut row = store.products[pi].duplicate();
    match dto.name {
        Some(v) => {
            row.name = v;
        },
        None => (),
    }
    match dto.description {
        Some(v) => {
            row.description = v;
        },
        None => (),
    }
    match dto.price {
        Some(v) => {
            row.price = v;
        },
        None => (),
    }
    match dto.stock {
        Some(v) => {
            row.stock = v;
        },
        None => (),
    }
    match dto.category {
        Some(v) => {
            row.category = Some(v);
        },
        None => (),
    }
    let copy = row.duplicate();
    store.products[pi] = row;
    Ok(copy)
}

/// Delete a product. Vendors and admins only; a vendor must own it.
/// Existing cart rows and order items that point at it are left alone.
pub fn delete_product(store: &mut Store, claims: &Claims, product_id: &str) -> (r: Result<
    (),
    ProductError,
>)
    requires
        old(store).wf(),
    ensures
        final(store).wf(),
        final(store).cart_items@ == old(store).cart_items@,
        final(store).orders@ == old(store).orders@,
        final(store).order_items@ == old(store).order_items@,
        ({
            let ps = old(store).products@;
            let uid = claims.sub@;
            let pi = product_index(ps, product_id@);
            match r {
                Err(ProductError::Forbidden) => final(store).products@ == ps && (
                !may_write_catalog(claims.role) || (claims.role == UserRole::Vendor && pi != -1
                    && ps[pi].vendor_id@ != uid)),
                Err(ProductError::NotFound) => final(store).products@ == ps && may_write_catalog(
                    claims.role,
                ) && pi == -1,
                Ok(()) => {
                    &&& may_write_catalog(claims.role)
                    &&& pi != -1
                    &&& (claims.role == UserRole::Vendor ==> ps[pi].vendor_id@ == uid)
                    &&& final(store).products@ == ps.remove(pi)
                },
            }
        }),
{
    if !(matches!(claims.role, UserRole::Vendor) || matches!(claims.role, UserRole::Admin)) {
        return Err(ProductError::Forbidden);
    }
    let ghost ps = store.products@;
    let pi = match store.find_product(product_id) {
        Some(pi) => pi,
        None => {
            return Err(ProductError::NotFound);
        },
    };
    proof {
        lemma_product_index_props(ps, product_id@);
    }
    if matches!(claims.role, UserRole::Vendor) && !str_eq(
        store.products[pi].vendor_id.as_str(),
        claims.sub.as_str(),
    ) {
        return Err(ProductError::Forbidden);
    }
    store.products.remove(pi);
    proof {
        ps.remove_ensures(pi as int);
        assert forall|j: int|
            0 <= j < store.products@.len() implies crate::store::product_wf(
            #[trigger] store.products@[j],
        ) by {
            if j < pi as int {
                assert(store.products@[j] == ps[j]);
            } else {
                assert(store.products@[j] == ps[j + 1]);
            }
        }
    }
    Ok(())
}

/// One vendor's products, in table order.
pub open spec fn vendor_products(ps: Seq<Product>, vid: Seq<char>) -> Seq<Product>
    decreases ps.len(),
{
    if ps.len() == 0 {
        Seq::empty()
    } else {
        vendor_products(ps.drop_last(), vid) + if ps.last().vendor_id@ == vid {
            seq![ps.last()]
        } else {
            Seq::empty()
        }
    }
}

/// The catalog as the caller sees it: everything for an admin, their own
/// products for a vendor. Customers are refused.
pub fn get_vendor_products(store: &Store, claims: &Claims) -> (r: Result<Vec<Product>, ProductError>)
    ensures
        ({
            match r {
                Err(e) => e == ProductError::Forbidden && !may_write_catalog(claims.role),
                Ok(v) => {
                    let sel = if claims.role == UserRole::Admin {
                        store.products@
                    } else {
                        vendor_products(store.products@, claims.sub@)
                    };
                    &&& may_write_catalog(claims.role)
                    &&& v@ == sel
                },
            }
        }),
{
    if !(matches!(claims.role, UserRole::Vendor) || matches!(claims.role, UserRole::Admin)) {
        return Err(ProductError::Forbidden);
    }
    let ghost ps = store.products@;
    let ghost vid = claims.sub@;
    let admin = matches!(claims.role, UserRole::Admin);
    let mut out: Vec<Product> = Vec::new();
    let n = store.products.len();
    let mut k: usize = 0;
    while k < n
        invariant
            ps == store.products@,
            vid == claims.sub@,
            n == ps.len(),
            k <= n,
            admin == (claims.role == UserRole::Admin),
            admin ==> out@ == ps.take(k as int),
            !admin ==> out@ == vendor_products(ps.take(k as int), vid),
        decreases n - k,
    {
        proof {
            lemma_take_one_more(ps, k as int);
        }
        let ghost before = vendor_products(ps.take(k as int), vid);
        let p = &store.products[k];
        if admin || str_eq(p.vendor_id.as_str(), claims.sub.as_str()) {
            out.push(p.duplicate());
        }
        proof {
            if !admin {
                if ps[k as int].vendor_id@ == vid {
                    assert(vendor_products(ps.take(k as int + 1), vid) =~= before.push(
                        ps[k as int],
                    ));
                } else {
                    assert(vendor_products(ps.take(k as int + 1), vid) =~= before);
                }
            }
        }
        k += 1;
    }
    proof {
        lemma_take_all(ps);
    }
    Ok(out)
}

/// Price immutability: the prices a checkout captured on its line items
/// are the catalog's prices at commit time, and they live on the
/// order-item table alone. Any later catalog write that leaves the
/// order-item table untouched — as `update_product` and `delete_product`
/// guarantee — cannot alter them, no matter how the product's price
/// changes.
pub proof fn lemma_captured_prices_immutable(
    pre: Store,
    mid: Store,
    post: Store,
    rec: crate::checkout::CheckoutReceipt,
    uid: Seq<char>,
)
    requires
        crate::checkout::checkout_committed(pre, mid, rec, uid),
        post.order_items@ == mid.order_items@,
    ensures
        post.order_items@ == pre.order_items@ + rec.items@,
        forall|i: int|
            0 <= i < rec.items@.len() ==> (#[trigger] rec.items@[i]).price == pre.products@[
                product_index(
                    pre.products@,
                    crate::cart::user_cart(pre.cart_items@, uid)[i].product_id@,
                )].price,
{
}

/// One product by id, or nothing.
pub fn get_product_by_id(store: &Store, product_id: &str) -> (r: Option<Product>)
    ensures
        ({
            let pi = product_index(store.products@, product_id@);
            match r {
                Some(p) => pi != -1 && p == store.products@[pi],
                None => pi == -1,
            }
        }),
{
    let ghost ps = store.products@;
    match store.find_product(product_id) {
        Some(pi) => {
            proof {
                lemma_product_index_props(ps, product_id@);
            }
            Some(store.products[pi].duplicate())
        },
        None => None,
    }
}

} // verus!