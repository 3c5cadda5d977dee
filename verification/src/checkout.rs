//! The order engine: converting a user's cart into a priced, stock-checked
//! order. The whole conversion is atomic — it either commits completely
//! (order and line items appended, stock decremented, cart emptied) or
//! leaves the store exactly as it was. The tables are the store itself,
//! held in memory, so the failure modes of a remote store (an aborted
//! transaction, a commit whose read-back misses) cannot arise here; what
//! remains are the refusals the contract spells out.

use crate::auth::Claims;
use crate::cart::{line_total, remove_user, user_cart};
use crate::role::UserRole;
use crate::seqs::{lemma_take_all, lemma_take_one_more};
use crate::status::OrderStatus;
use crate::store::{fresh_id, product_index, CartItem, Order, OrderItem, Product, Store};
use crate::text::str_eq;
use vstd::prelude::*;

verus! {

/// A cart row the pre-flight check refuses, as reported to the client.
#[derive(Debug)]
pub enum UnavailableProduct {
    /// The product no longer exists.
    Missing { product_id: String },
    /// The product exists but has less stock than the cart asks for.
    ShortStock {
        product_id: String,
        product_name: String,
        requested_quantity: i32,
        available_stock: i32,
    },
}

/// What a successful checkout hands back: the created order and its lines.
#[derive(Debug)]
pub struct CheckoutReceipt {
    pub order: Order,
    pub items: Vec<OrderItem>,
}

#[derive(Debug)]
pub enum CheckoutError {
    /// Admins are barred from checkout wholesale.
    AdminForbidden,
    /// An empty cart cannot be checked out; nothing is written.
    EmptyCart,
    /// At least one cart row is unavailable; nothing is written, and every
    /// failing row is reported.
    InsufficientStock(Vec<UnavailableProduct>),
}

impl CheckoutError {
    /// The HTTP status each failure maps to.
    pub fn status_code(&self) -> (c: u16)
        ensures
            c == match *self {
                CheckoutError::AdminForbidden => 403u16,
                CheckoutError::EmptyCart => 400u16,
                CheckoutError::InsufficientStock(_) => 400u16,
            },
    {
        match self {
            CheckoutError::AdminForbidden => 403,
            CheckoutError::EmptyCart => 400,
            CheckoutError::InsufficientStock(_) => 400,
        }
    }
}

// --- availability ---

/// The row's product exists and has stock for the requested quantity.
pub open spec fn row_available(ps: Seq<Product>, c: CartItem) -> bool {
    let pj = product_index(ps, c.product_id@);
    pj != -1 && ps[pj].stock >= c.quantity
}

/// The cart rows that fail the availability check, in cart order.
pub open spec fn bad_rows(ps: Seq<Product>, s: Seq<CartItem>) -> Seq<CartItem>
    decreases s.len(),
{
    if s.len() == 0 {
        Seq::empty()
    } else {
        bad_rows(ps, s.drop_last()) + if !row_available(ps, s.last()) {
            seq![s.last()]
        } else {
            Seq::empty()
        }
    }
}

/// No row is bad exactly when every row is available.
pub proof fn lemma_bad_rows_empty(ps: Seq<Product>, s: Seq<CartItem>)
    ensures
        bad_rows(ps, s).len() == 0 <==> (forall|i: int|
            0 <= i < s.len() ==> row_available(ps, #[trigger] s[i])),
    decreases s.len(),
{
    if s.len() > 0 {
        let prev = s.drop_last();
        lemma_bad_rows_empty(ps, prev);
        assert(forall|i: int| 0 <= i < prev.len() ==> prev[i] == s[i]);
        assert(s[s.len() - 1] == s.last());
    }
}

/// The reported entry `u` describes the failing cart row `c`.
pub open spec fn unav_matches(ps: Seq<Product>, c: CartItem, u: UnavailableProduct) -> bool {
    let pj = product_index(ps, c.product_id@);
    match u {
        UnavailableProduct::Missing { product_id } => pj == -1 && product_id@ == c.product_id@,
        UnavailableProduct::ShortStock {
            product_id,
            product_name,
            requested_quantity,
            available_stock,
        } => {
            &&& pj != -1
            &&& ps[pj].stock < c.quantity
            &&& product_id@ == c.product_id@
            &&& product_name@ == ps[pj].name@
            &&& requested_quantity == c.quantity
            &&& available_stock == ps[pj].stock
        },
    }
}

// --- the stock decrement, row by row ---

/// Rows `a` and `b` agree on everything except possibly the stock count.
pub open spec fn same_row_but_stock(a: Product, b: Product) -> bool {
    &&& b.id == a.id
    &&& b.name == a.name
    &&& b.description == a.description
    &&& b.price == a.price
    &&& b.vendor_id == a.vendor_id
    &&& b.created_at == a.created_at
    &&& b.updated_at == a.updated_at
    &&& b.category == a.category
}

/// The catalogs hold the same product ids at the same positions.
pub open spec fn same_ids(a: Seq<Product>, b: Seq<Product>) -> bool {
    a.len() == b.len() && forall|i: int| 0 <= i < a.len() ==> a[i].id@ == b[i].id@
}

/// The catalog after the purchased quantities of `s` are subtracted,
/// one row at a time.
pub open spec fn stock_after(ps: Seq<Product>, s: Seq<CartItem>) -> Seq<Product>
    decreases s.len(),
{
    if s.len() == 0 {
        ps
    } else {
        let prev = stock_after(ps, s.drop_last());
        let pj = product_index(prev, s.last().product_id@);
        if pj == -1 {
            prev
        } else {
            prev.update(
                pj,
                Product {
                    id: prev[pj].id,
                    name: prev[pj].name,
                    description: prev[pj].description,
                    price: prev[pj].price,
                    vendor_id: prev[pj].vendor_id,
                    stock: (prev[pj].stock - s.last().quantity) as i32,
                    created_at: prev[pj].created_at,
                    updated_at: prev[pj].updated_at,
                    category: prev[pj].category,
                },
            )
        }
    }
}

/// Catalogs with the same ids agree on where any product sits.
pub proof fn lemma_product_index_same_ids(a: Seq<Product>, b: Seq<Product>, pid: Seq<char>)
    requires
        same_ids(a, b),
    ensures
        product_index(a, pid) == product_index(b, pid),
    decreases a.len(),
{
    if a.len() > 0 {
        assert(a[0].id@ == b[0].id@);
        if a[0].id@ != pid {
            assert(same_ids(a.drop_first(), b.drop_first())) by {
                assert(forall|i: int|
                    0 <= i < a.drop_first().len() ==> a.drop_first()[i] == a[i + 1] && b.drop_first()[i]
                        == b[i + 1]);
            }
            lemma_product_index_same_ids(a.drop_first(), b.drop_first(), pid);
        }
    }
}

/// Subtracting stock never moves, adds, or re-prices rows: every row keeps
/// its identity and all fields but the stock count.
pub proof fn lemma_stock_after_shape(ps: Seq<Product>, s: Seq<CartItem>)
    ensures
        stock_after(ps, s).len() == ps.len(),
        forall|j: int|
            0 <= j < ps.len() ==> same_row_but_stock(ps[j], #[trigger] stock_after(ps, s)[j]),
        same_ids(ps, stock_after(ps, s)),
    decreases s.len(),
{
    if s.len() > 0 {
        let prev = stock_after(ps, s.drop_last());
        lemma_stock_after_shape(ps, s.drop_last());
        let pj = product_index(prev, s.last().product_id@);
        if pj != -1 {
            crate::store::lemma_product_index_props(prev, s.last().product_id@);
        }
    }
}

/// A row that no cart line points at keeps its stock.
pub proof fn lemma_stock_after_untouched(ps: Seq<Product>, s: Seq<CartItem>, j: int)
    requires
        0 <= j < ps.len(),
        forall|k: int| 0 <= k < s.len() ==> product_index(ps, (#[trigger] s[k]).product_id@) != j,
    ensures
        stock_after(ps, s)[j] == ps[j],
    decreases s.len(),
{
    if s.len() > 0 {
        let prev = stock_after(ps, s.drop_last());
        assert(forall|k: int| 0 <= k < s.drop_last().len() ==> s.drop_last()[k] == s[k]);
        lemma_stock_after_untouched(ps, s.drop_last(), j);
        lemma_stock_after_shape(ps, s.drop_last());
        let pid = s.last().product_id@;
        let pj = product_index(prev, pid);
        if pj != -1 {
            lemma_product_index_same_ids(ps, prev, pid);
            assert(product_index(ps, pid) == pj);
            assert(s[s.len() - 1] == s.last());
            assert(product_index(ps, s[s.len() - 1].product_id@) != j);
            assert(pj != j);
            crate::store::lemma_product_index_props(prev, pid);
            assert(0 <= pj < prev.len());
            assert(stock_after(ps, s)[j] == prev[j]);
        } else {
            assert(stock_after(ps, s) == prev);
        }
    }
}

// --- the committed effect ---

/// Each created line prices one cart row at the catalog's current price
/// and points at the created order.
pub open spec fn checkout_items_match(
    ps: Seq<Product>,
    uc: Seq<CartItem>,
    items: Seq<OrderItem>,
    oid: Seq<char>,
) -> bool {
    &&& items.len() == uc.len()
    &&& forall|i: int|
        0 <= i < uc.len() ==> {
            let pj = product_index(ps, uc[i].product_id@);
            &&& (#[trigger] items[i]).order_id@ == oid
            &&& items[i].product_id@ == uc[i].product_id@
            &&& items[i].quantity == uc[i].quantity
            &&& pj != -1
            &&& items[i].price == ps[pj].price
        }
}

/// The committed effect of a successful checkout of `uid`'s cart: exactly
/// one pending order whose total is the sum of price times quantity at
/// commit time, one line item per cart row with the price captured, the
/// purchased quantities subtracted from stock, and the user's cart emptied.
/// Nothing else changes.
pub open spec fn checkout_committed(
    pre: Store,
    post: Store,
    rec: CheckoutReceipt,
    uid: Seq<char>,
) -> bool {
    let uc = user_cart(pre.cart_items@, uid);
    &&& uc.len() > 0
    &&& bad_rows(pre.products@, uc).len() == 0
    &&& rec.order.user_id@ == uid
    &&& rec.order.status == OrderStatus::Pending
    &&& rec.order.total == line_total(pre.products@, uc)
    &&& rec.order.created_at == rec.order.updated_at
    &&& checkout_items_match(pre.products@, uc, rec.items@, rec.order.id@)
    &&& post.orders@ == pre.orders@.push(rec.order)
    &&& post.order_items@ == pre.order_items@ + rec.items@
    &&& post.products@ == stock_after(pre.products@, uc)
    &&& post.cart_items@ == remove_user(pre.cart_items@, uid)
}

/// Convert a user's cart into an order, atomically.
///
/// The pre-flight check refuses the whole checkout — with no write at all —
/// when the cart is empty or when any row's product is missing or short of
/// stock, reporting every failing row. Admins are refused. On success the
/// store changes exactly as `checkout_committed` states.
pub fn checkout(store: &mut Store, claims: &Claims) -> (r: Result<CheckoutReceipt, CheckoutError>)
    requires
        old(store).wf(),
    ensures
        final(store).wf(),
        ({
            let ps = old(store).products@;
            let cs = old(store).cart_items@;
            let uid = claims.sub@;
            let uc = user_cart(cs, uid);
            match r {
                Err(CheckoutError::AdminForbidden) => claims.role == UserRole::Admin && *final(store) == *old(store),
                Err(CheckoutError::EmptyCart) => claims.role != UserRole::Admin && uc.len() == 0
                    && *final(store) == *old(store),
                Err(CheckoutError::InsufficientStock(v)) => {
                    &&& claims.role != UserRole::Admin
                    &&& uc.len() > 0
                    &&& bad_rows(ps, uc).len() > 0
                    &&& v@.len() == bad_rows(ps, uc).len()
                    &&& forall|i: int|
                        0 <= i < v@.len() ==> unav_matches(ps, bad_rows(ps, uc)[i], #[trigger] v@[i])
                    &&& *final(store) == *old(store)
                },
                Ok(rec) => claims.role != UserRole::Admin && checkout_committed(
                    *old(store),
                    *final(store),
                    rec,
                    uid,
                ),
            }
        }),
{
    if claims.role == UserRole::Admin {
        return Err(CheckoutError::AdminForbidden);
    }
    let ghost ps = store.products@;
    let ghost cs = store.cart_items@;
    let ghost orders0 = store.orders@;
    let ghost oitems0 = store.order_items@;
    let ghost uid = claims.sub@;

    // 1. Load the user's cart rows.
    let mut uc: Vec<CartItem> = Vec::new();
    let n = store.cart_items.len();
    let mut k: usize = 0;
    while k < n
        invariant
            cs == store.cart_items@,
            uid == claims.sub@,
            n == cs.len(),
            k <= n,
            uc@ == user_cart(cs.take(k as int), uid),
        decreases n - k,
    {
        proof {
            lemma_take_one_more(cs, k as int);
        }
        let ghost before = user_cart(cs.take(k as int), uid);
        let row = &store.cart_items[k];
        if str_eq(row.user_id.as_str(), claims.sub.as_str()) {
            uc.push(row.duplicate());
            proof {
                assert(user_cart(cs.take(k as int + 1), uid) =~= before.push(cs[k as int]));
            }
        } else {
            proof {
                assert(user_cart(cs.take(k as int + 1), uid) =~= before);
            }
        }
        k += 1;
    }
    proof {
        lemma_take_all(cs);
    }
    let ghost ucs = uc@;
    if uc.len() == 0 {
        return Err(CheckoutError::EmptyCart);
    }
    proof {
        crate::cart::lemma_user_cart_props(cs, uid);
    }

    // 2. Pre-flight: find every unavailable row, and price the cart.
    let mut unavailable: Vec<UnavailableProduct> = Vec::new();
    let mut pidx: Vec<usize> = Vec::new();
    let mut total: u128 = 0;
    let m = uc.len();
    let mut i: usize = 0;
    while i < m
        invariant
            store.wf(),
            ps == store.products@,
            ucs == uc@,
            m == ucs.len(),
            i <= m,
            forall|j: int|
                0 <= j < ucs.len() ==> crate::store::cart_item_wf(#[trigger] ucs[j]),
            unavailable@.len() == bad_rows(ps, ucs.take(i as int)).len(),
            forall|j: int|
                0 <= j < unavailable@.len() ==> unav_matches(
                    ps,
                    bad_rows(ps, ucs.take(i as int))[j],
                    #[trigger] unavailable@[j],
                ),
            pidx@.len() == i,
            forall|j: int|
                0 <= j < i ==> (product_index(ps, (#[trigger] ucs[j]).product_id@) != -1
                    ==> pidx@[j] as int == product_index(ps, ucs[j].product_id@)),
            total == line_total(ps, ucs.take(i as int)),
            total <= i * 0x8000_0000_0000_0000u128,
        decreases m - i,
    {
        proof {
            lemma_take_one_more(ucs, i as int);
        }
        let ghost badold = bad_rows(ps, ucs.take(i as int));
        let ghost badnew = bad_rows(ps, ucs.take(i as int + 1));
        let row = &uc[i];
        match store.find_product(row.product_id.as_str()) {
            Some(pj) => {
                proof {
                    crate::store::lemma_product_index_props(ps, ucs[i as int].product_id@);
                }
                let p = &store.products[pj];
                if p.stock < row.quantity {
                    unavailable.push(
                        UnavailableProduct::ShortStock {
                            product_id: row.product_id.clone(),
                            product_name: p.name.clone(),
                            requested_quantity: row.quantity,
                            available_stock: p.stock,
                        },
                    );
                    proof {
                        assert(badnew =~= badold.push(ucs[i as int]));
                    }
                } else {
                    proof {
                        assert(badnew =~= badold);
                    }
                }
                proof {
                    assert((p.price as u64) * (row.quantity as u64)
                        < 0x8000_0000_0000_0000u64) by (nonlinear_arith)
                        requires
                            p.price < 0x1_0000_0000u64,
                            1 <= row.quantity < 0x8000_0000u64,
                    ;
                }
                let sub: u64 = p.price as u64 * (row.quantity as u64);
                total = total + sub as u128;
                pidx.push(pj);
            },
            None => {
                unavailable.push(
                    UnavailableProduct::Missing { product_id: row.product_id.clone() },
                );
                proof {
                    assert(badnew =~= badold.push(ucs[i as int]));
                }
                pidx.push(0);
            },
        }
        i += 1;
    }
    proof {
        lemma_take_all(ucs);
    }
    if unavailable.len() > 0 {
        return Err(CheckoutError::InsufficientStock(unavailable));
    }
    proof {
        lemma_bad_rows_empty(ps, ucs);
    }

    // 3. Commit: create the order, append its lines, subtract stock.
    let order = Order::new(claims.sub.clone(), total);
    let mut items: Vec<OrderItem> = Vec::new();
    let mut i2: usize = 0;
    while i2 < m
        invariant
            ps == old(store).products@,
            cs == old(store).cart_items@,
            orders0 == old(store).orders@,
            oitems0 == old(store).order_items@,
            ucs == uc@,
            m == ucs.len(),
            i2 <= m,
            forall|j: int| 0 <= j < ucs.len() ==> crate::store::cart_item_wf(#[trigger] ucs[j]),
            forall|j: int| 0 <= j < ucs.len() ==> row_available(ps, #[trigger] ucs[j]),
            forall|a: int, b: int|
                0 <= a < b < ucs.len() ==> ucs[a].product_id@ != ucs[b].product_id@,
            pidx@.len() == m,
            forall|j: int|
                0 <= j < ucs.len() ==> (product_index(ps, (#[trigger] ucs[j]).product_id@) != -1
                    ==> pidx@[j] as int == product_index(ps, ucs[j].product_id@)),
            store.cart_items@ == cs,
            store.orders@ == orders0,
            store.products@ == stock_after(ps, ucs.take(i2 as int)),
            forall|j: int|
                0 <= j < store.products@.len() ==> crate::store::product_wf(
                    #[trigger] store.products@[j],
                ),
            store.order_items@ == oitems0 + items@,
            forall|j: int|
                0 <= j < store.order_items@.len() ==> 1 <= (#[trigger] store.order_items@[j]).quantity,
            items@.len() == i2,
            checkout_items_match(ps, ucs.take(i2 as int), items@, order.id@),
        decreases m - i2,
    {
        proof {
            lemma_take_one_more(ucs, i2 as int);
            lemma_stock_after_shape(ps, ucs.take(i2 as int));
            crate::store::lemma_product_index_props(ps, ucs[i2 as int].product_id@);
        }
        let ghost pid = ucs[i2 as int].product_id@;
        let ghost before = stock_after(ps, ucs.take(i2 as int));
        let pj = pidx[i2];
        proof {
            assert(row_available(ps, ucs[i2 as int]));
            assert(pj as int == product_index(ps, pid));
            assert((pj as int) < ps.len());
            // the row's product has not been touched by earlier iterations
            assert forall|kk: int|
                0 <= kk < ucs.take(i2 as int).len() implies product_index(
                ps,
                (#[trigger] ucs.take(i2 as int)[kk]).product_id@,
            ) != pj as int by {
                assert(ucs.take(i2 as int)[kk] == ucs[kk]);
                assert(row_available(ps, ucs[kk]));
                crate::store::lemma_product_index_props(ps, ucs[kk].product_id@);
                assert(ucs[kk].product_id@ != pid);
            }
            lemma_stock_after_untouched(ps, ucs.take(i2 as int), pj as int);
            assert(store.products@[pj as int] == ps[pj as int]);
        }
        let price = store.products[pj].price;
        let oi = OrderItem {
            id: fresh_id(),
            order_id: order.id.clone(),
            product_id: uc[i2].product_id.clone(),
            quantity: uc[i2].quantity,
            price,
        };
        store.order_items.push(oi.duplicate());
        items.push(oi);
        let mut prow = store.products[pj].duplicate();
        prow.stock = prow.stock - uc[i2].quantity;
        store.products[pj] = prow;
        proof {
            lemma_product_index_same_ids(ps, before, pid);
            assert(store.products@ == stock_after(ps, ucs.take(i2 as int + 1)));
            assert(ucs.take(i2 as int + 1)[i2 as int] == ucs[i2 as int]);
        }
        i2 += 1;
    }
    proof {
        lemma_take_all(ucs);
    }

    // 4. Empty the user's cart.
    let mut kept: Vec<CartItem> = Vec::new();
    let mut k2: usize = 0;
    while k2 < n
        invariant
            cs == store.cart_items@,
            uid == claims.sub@,
            n == cs.len(),
            k2 <= n,
            kept@ == remove_user(cs.take(k2 as int), uid),
        decreases n - k2,
    {
        proof {
            lemma_take_one_more(cs, k2 as int);
        }
        let ghost before = remove_user(cs.take(k2 as int), uid);
        let row = &store.cart_items[k2];
        if !str_eq(row.user_id.as_str(), claims.sub.as_str()) {
            kept.push(row.duplicate());
            proof {
                assert(remove_user(cs.take(k2 as int + 1), uid) =~= before.push(cs[k2 as int]));
            }
        } else {
            proof {
                assert(remove_user(cs.take(k2 as int + 1), uid) =~= before);
            }
        }
        k2 += 1;
    }
    proof {
        lemma_take_all(cs);
        crate::cart::lemma_remove_user_props(cs, uid);
    }
    store.cart_items = kept;

    // 5. Record the order itself.
    store.orders.push(order.duplicate());
    Ok(CheckoutReceipt { order, items })
}

// --- laws of the order engine ---

/// Checkout is not idempotent, by design: once it commits, the user's cart
/// is empty, so running it again can only fail with the empty-cart error —
/// it never creates a second order.
pub proof fn lemma_checkout_clears_cart(
    pre: Store,
    post: Store,
    rec: CheckoutReceipt,
    uid: Seq<char>,
)
    requires
        pre.wf(),
        checkout_committed(pre, post, rec, uid),
    ensures
        user_cart(post.cart_items@, uid).len() == 0,
{
    crate::cart::lemma_remove_user_props(pre.cart_items@, uid);
    crate::cart::lemma_user_cart_empty(post.cart_items@, uid);
}

/// Sums agree when each line item prices the matching cart row at the
/// catalog's price.
proof fn lemma_sums_match(ps: Seq<Product>, uc: Seq<CartItem>, items: Seq<OrderItem>, oid: Seq<char>)
    requires
        checkout_items_match(ps, uc, items, oid),
    ensures
        crate::orders::captured_total(items) == line_total(ps, uc),
    decreases uc.len(),
{
    if uc.len() > 0 {
        assert(checkout_items_match(ps, uc.drop_last(), items.drop_last(), oid)) by {
            assert forall|i: int|
                0 <= i < uc.drop_last().len() implies ({
                let pj = product_index(ps, uc.drop_last()[i].product_id@);
                &&& (#[trigger] items.drop_last()[i]).order_id@ == oid
                &&& items.drop_last()[i].product_id@ == uc.drop_last()[i].product_id@
                &&& items.drop_last()[i].quantity == uc.drop_last()[i].quantity
                &&& pj != -1
                &&& items.drop_last()[i].price == ps[pj].price
            }) by {
                assert(items.drop_last()[i] == items[i]);
                assert(uc.drop_last()[i] == uc[i]);
            }
        }
        lemma_sums_match(ps, uc.drop_last(), items.drop_last(), oid);
        assert(items.last() == items[items.len() - 1]);
        assert(uc.last() == uc[uc.len() - 1]);
    }
}

/// Historical revenue is reconstructable from the order-item rows alone:
/// the total recorded on a checkout's order equals the sum of price times
/// quantity over its own line items, whatever happens to the catalog later.
pub proof fn lemma_order_total_from_items(
    pre: Store,
    post: Store,
    rec: CheckoutReceipt,
    uid: Seq<char>,
)
    requires
        checkout_committed(pre, post, rec, uid),
    ensures
        rec.order.total == crate::orders::captured_total(rec.items@),
{
    lemma_sums_match(
        pre.products@,
        user_cart(pre.cart_items@, uid),
        rec.items@,
        rec.order.id@,
    );
}

/// Two checkouts race for one product whose stock suffices for exactly one
/// of them. After the first commits, the product's stock is zero — never
/// negative — and the second user's cart survives with a row the pre-flight
/// check now refuses: by `checkout`'s contract the second call can only
/// fail with the short-stock report, writing nothing.
pub proof fn lemma_checkout_exclusion(
    pre: Store,
    post: Store,
    rec: CheckoutReceipt,
    u1: Seq<char>,
    u2: Seq<char>,
    c1: CartItem,
    c2: CartItem,
    pj: int,
)
    requires
        pre.wf(),
        u1 != u2,
        user_cart(pre.cart_items@, u1) == seq![c1],
        user_cart(pre.cart_items@, u2) == seq![c2],
        c2.product_id@ == c1.product_id@,
        c2.quantity == c1.quantity,
        pj == product_index(pre.products@, c1.product_id@),
        0 <= pj < pre.products@.len(),
        pre.products@[pj].stock == c1.quantity,
        checkout_committed(pre, post, rec, u1),
    ensures
        post.products@[pj].stock == 0,
        user_cart(post.cart_items@, u2) == seq![c2],
        bad_rows(post.products@, user_cart(post.cart_items@, u2)).len() == 1,
{
    let ps = pre.products@;
    let uc1 = user_cart(pre.cart_items@, u1);
    let pid = c1.product_id@;
    assert(uc1.drop_last() =~= Seq::<CartItem>::empty());
    assert(uc1.last() == c1);
    assert(stock_after(ps, uc1.drop_last()) == ps);
    assert(post.products@[pj].stock == 0);
    crate::cart::lemma_user_cart_remove_other(pre.cart_items@, u1, u2);
    assert(user_cart(post.cart_items@, u2) == seq![c2]);
    lemma_stock_after_shape(ps, uc1);
    lemma_product_index_same_ids(ps, post.products@, pid);
    crate::cart::lemma_user_cart_props(pre.cart_items@, u2);
    assert(crate::store::cart_item_wf(seq![c2][0]));
    assert(1 <= c2.quantity);
    let uc2 = user_cart(post.cart_items@, u2);
    assert(uc2.drop_last() =~= Seq::<CartItem>::empty());
    assert(uc2.last() == c2);
    assert(!row_available(post.products@, c2));
    assert(bad_rows(post.products@, uc2.drop_last()) == Seq::<CartItem>::empty());
    assert(bad_rows(post.products@, uc2) =~= seq![c2]);
}

} // verus!
