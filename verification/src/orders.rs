//! Reading orders and moving them through the status machine. Customers may
//! read their own orders only and never change a status; vendors may read
//! and advance (to processing or shipped) orders that contain at least one
//! of their products; admins may read everything and set any status. An
//! unrecognized status string is rejected before any authorization check.

use crate::auth::Claims;
use crate::role::UserRole;
use crate::seqs::{lemma_take_all, lemma_take_one_more};
use crate::status::{parse_status, OrderStatus};
use crate::store::{
    lemma_order_index_props, order_index, Order, OrderItem, Product, Store,
};
use crate::text::str_eq;
use vstd::prelude::*;

verus! {

#[derive(Clone, Copy, PartialEq, Eq, Structural, Debug)]
pub enum OrderError {
    /// The status string names no known status.
    InvalidStatus,
    /// No order row carries the given id.
    NotFound,
    /// A customer asked about an order that is not theirs.
    NotYourOrder,
    /// Customers may never change an order's status.
    CustomerForbidden,
    /// The vendor has no product in the order.
    VendorNotInOrder,
    /// Vendors may only move an order to processing or shipped.
    VendorBadTarget,
    /// Only admins may list every order.
    AdminOnly,
}

impl OrderError {
    /// The HTTP status each failure maps to.
    pub fn status_code(&self) -> (c: u16)
        ensures
            c == match *self {
                OrderError::InvalidStatus => 400u16,
                OrderError::NotFound => 404u16,
                OrderError::NotYourOrder => 403u16,
                OrderError::CustomerForbidden => 403u16,
                OrderError::VendorNotInOrder => 403u16,
                OrderError::VendorBadTarget => 403u16,
                OrderError::AdminOnly => 403u16,
            },
    {
        match self {
            OrderError::InvalidStatus => 400,
            OrderError::NotFound => 404,
            OrderError::NotYourOrder => 403,
            OrderError::CustomerForbidden => 403,
            OrderError::VendorNotInOrder => 403,
            OrderError::VendorBadTarget => 403,
            OrderError::AdminOnly => 403,
        }
    }
}

// --- vendor membership ---

/// Some product row carries this id and belongs to this vendor.
pub open spec fn product_of_vendor(ps: Seq<Product>, pid: Seq<char>, vid: Seq<char>) -> bool {
    exists|j: int| 0 <= j < ps.len() && (#[trigger] ps[j]).id@ == pid && ps[j].vendor_id@ == vid
}

/// The order holds at least one line item for one of the vendor's products.
pub open spec fn vendor_in_order(
    ps: Seq<Product>,
    its: Seq<OrderItem>,
    oid: Seq<char>,
    vid: Seq<char>,
) -> bool {
    exists|i: int|
        0 <= i < its.len() && (#[trigger] its[i]).order_id@ == oid && product_of_vendor(
            ps,
            its[i].product_id@,
            vid,
        )
}

/// Whether some product row with this id belongs to the vendor.
pub fn product_belongs_to_vendor(store: &Store, pid: &str, vid: &str) -> (r: bool)
    ensures
        r == product_of_vendor(store.products@, pid@, vid@),
{
    let n = store.products.len();
    let mut j: usize = 0;
    while j < n
        invariant
            n == store.products@.len(),
            j <= n,
            forall|i: int|
                0 <= i < j ==> !((#[trigger] store.products@[i]).id@ == pid@
                    && store.products@[i].vendor_id@ == vid@),
        decreases n - j,
    {
        let p = &store.products[j];
        if str_eq(p.id.as_str(), pid) && str_eq(p.vendor_id.as_str(), vid) {
            return true;
        }
        j += 1;
    }
    false
}

/// Whether the order contains at least one of the vendor's products.
pub fn has_vendor_item(store: &Store, order_id: &str, vendor_id: &str) -> (r: bool)
    ensures
        r == vendor_in_order(store.products@, store.order_items@, order_id@, vendor_id@),
{
    let n = store.order_items.len();
    let mut i: usize = 0;
    while i < n
        invariant
            n == store.order_items@.len(),
            i <= n,
            forall|k: int|
                0 <= k < i ==> !((#[trigger] store.order_items@[k]).order_id@ == order_id@
                    && product_of_vendor(
                    store.products@,
                    store.order_items@[k].product_id@,
                    vendor_id@,
                )),
        decreases n - i,
    {
        let it = &store.order_items[i];
        if str_eq(it.order_id.as_str(), order_id) {
            if product_belongs_to_vendor(store, it.product_id.as_str(), vendor_id) {
                return true;
            }
        }
        i += 1;
    }
    false
}

// --- the status machine ---

/// All fields of the two order rows agree except possibly the status.
pub open spec fn same_order_but_status(a: Order, b: Order) -> bool {
    &&& b.id == a.id
    &&& b.user_id == a.user_id
    &&& b.total == a.total
    &&& b.created_at == a.created_at
    &&& b.updated_at == a.updated_at
}

/// Set an order's status.
///
/// The string is parsed first — an unrecognized status fails before any
/// authorization check. Customers may never change a status; admins may set
/// any status on any order; vendors may set only `processing` or `shipped`,
/// and only on orders containing at least one of their products. On success
/// exactly that one order row changes, and only its status field.
pub fn update_order_status(store: &mut Store, claims: &Claims, order_id: &str, status: &str) -> (r:
    Result<OrderStatus, OrderError>)
    requires
        old(store).wf(),
    ensures
        final(store).wf(),
        final(store).products@ == old(store).products@,
        final(store).cart_items@ == old(store).cart_items@,
        final(store).order_items@ == old(store).order_items@,
        ({
            let ps = old(store).products@;
            let os = old(store).orders@;
            let uid = claims.sub@;
            let oi = order_index(os, order_id@);
            let viord = vendor_in_order(ps, old(store).order_items@, order_id@, uid);
            match r {
                Err(OrderError::InvalidStatus) => parse_status(status@) is None && final(store).orders@ == os,
                Err(OrderError::NotFound) => parse_status(status@) is Some && oi == -1 && final(store).orders@ == os,
                Err(OrderError::NotYourOrder) => parse_status(status@) is Some && oi != -1
                    && claims.role == UserRole::Customer && os[oi].user_id@ != uid && final(store).orders@ == os,
                Err(OrderError::CustomerForbidden) => parse_status(status@) is Some && oi != -1
                    && claims.role == UserRole::Customer && os[oi].user_id@ == uid && final(store).orders@ == os,
                Err(OrderError::VendorNotInOrder) => parse_status(status@) is Some && oi != -1
                    && claims.role == UserRole::Vendor && !viord && final(store).orders@ == os,
                Err(OrderError::VendorBadTarget) => parse_status(status@) is Some && oi != -1
                    && claims.role == UserRole::Vendor && viord && !(parse_status(status@)
                    == Some(OrderStatus::Processing) || parse_status(status@) == Some(
                    OrderStatus::Shipped,
                )) && final(store).orders@ == os,
                Err(OrderError::AdminOnly) => false,
                Ok(st) => {
                    &&& parse_status(status@) == Some(st)
                    &&& oi != -1
                    &&& (claims.role == UserRole::Admin || (claims.role == UserRole::Vendor && viord
                        && (st == OrderStatus::Processing || st == OrderStatus::Shipped)))
                    &&& final(store).orders@.len() == os.len()
                    &&& forall|j: int| 0 <= j < os.len() && j != oi ==> final(store).orders@[j]
                        == os[j]
                    &&& same_order_but_status(os[oi], final(store).orders@[oi])
                    &&& final(store).orders@[oi].status == st
                },
            }
        }),
{
    let st = match OrderStatus::from_str(status) {
        Some(st) => st,
        None => {
            return Err(OrderError::InvalidStatus);
        },
    };
    let ghost os = store.orders@;
    let oi = match store.find_order(order_id) {
        Some(oi) => oi,
        None => {
            return Err(OrderError::NotFound);
        },
    };
    proof {
        lemma_order_index_props(os, order_id@);
    }
    match claims.role {
        UserRole::Customer => {
            if !str_eq(store.orders[oi].user_id.as_str(), claims.sub.as_str()) {
                Err(OrderError::NotYourOrder)
            } else {
                Err(OrderError::CustomerForbidden)
            }
        },
        UserRole::Admin => {
            let mut row = store.orders[oi].duplicate();
            row.status = st;
            store.orders[oi] = row;
            Ok(st)
        },
        UserRole::Vendor => {
            if !has_vendor_item(store, order_id, claims.sub.as_str()) {
                Err(OrderError::VendorNotInOrder)
            } else if !(matches!(st, OrderStatus::Processing) || matches!(
                st,
                OrderStatus::Shipped,
            )) {
                Err(OrderError::VendorBadTarget)
            } else {
                let mut row = store.orders[oi].duplicate();
                row.status = st;
                store.orders[oi] = row;
                Ok(st)
            }
        },
    }
}

// --- orders as responses ---

#[derive(Debug)]
pub struct OrderItemResponse {
    pub id: String,
    pub product_id: String,
    pub quantity: i32,
    /// Unit price captured at purchase time, in minor currency units.
    pub price: u32,
}

#[derive(Debug)]
pub struct OrderResponse {
    pub id: String,
    pub user_id: String,
    pub total: u128,
    pub status: OrderStatus,
    pub items: Vec<OrderItemResponse>,
    pub created_at: i64,
    pub updated_at: i64,
}

/// The line items belonging to one order, in table order.
pub open spec fn items_of(its: Seq<OrderItem>, oid: Seq<char>) -> Seq<OrderItem>
    decreases its.len(),
{
    if its.len() == 0 {
        Seq::empty()
    } else {
        items_of(its.drop_last(), oid) + if its.last().order_id@ == oid {
            seq![its.last()]
        } else {
            Seq::empty()
        }
    }
}

/// One user's orders, in table order.
pub open spec fn own_orders(os: Seq<Order>, uid: Seq<char>) -> Seq<Order>
    decreases os.len(),
{
    if os.len() == 0 {
        Seq::empty()
    } else {
        own_orders(os.drop_last(), uid) + if os.last().user_id@ == uid {
            seq![os.last()]
        } else {
            Seq::empty()
        }
    }
}

pub open spec fn item_response_matches(it: OrderItem, r: OrderItemResponse) -> bool {
    &&& r.id@ == it.id@
    &&& r.product_id@ == it.product_id@
    &&& r.quantity == it.quantity
    &&& r.price == it.price
}

/// The response renders the order row together with all its line items.
pub open spec fn order_response_matches(its: Seq<OrderItem>, o: Order, r: OrderResponse) -> bool {
    let sel = items_of(its, o.id@);
    &&& r.id@ == o.id@
    &&& r.user_id@ == o.user_id@
    &&& r.total == o.total
    &&& r.status == o.status
    &&& r.created_at == o.created_at
    &&& r.updated_at == o.updated_at
    &&& r.items@.len() == sel.len()
    &&& forall|j: int| 0 <= j < sel.len() ==> item_response_matches(sel[j], #[trigger] r.items@[j])
}

/// All line items of one order, rendered.
fn items_for_order(store: &Store, oid: &str) -> (r: Vec<OrderItemResponse>)
    ensures
        r@.len() == items_of(store.order_items@, oid@).len(),
        forall|j: int|
            0 <= j < r@.len() ==> item_response_matches(
                items_of(store.order_items@, oid@)[j],
                #[trigger] r@[j],
            ),
{
    let ghost its = store.order_items@;
    let mut out: Vec<OrderItemResponse> = Vec::new();
    let n = store.order_items.len();
    let mut k: usize = 0;
    while k < n
        invariant
            its == store.order_items@,
            n == its.len(),
            k <= n,
            out@.len() == items_of(its.take(k as int), oid@).len(),
            forall|j: int|
                0 <= j < out@.len() ==> item_response_matches(
                    items_of(its.take(k as int), oid@)[j],
                    #[trigger] out@[j],
                ),
        decreases n - k,
    {
        proof {
            lemma_take_one_more(its, k as int);
        }
        let ghost before = items_of(its.take(k as int), oid@);
        let it = &store.order_items[k];
        if str_eq(it.order_id.as_str(), oid) {
            out.push(
                OrderItemResponse {
                    id: it.id.clone(),
                    product_id: it.product_id.clone(),
                    quantity: it.quantity,
                    price: it.price,
                },
            );
            proof {
                assert(items_of(its.take(k as int + 1), oid@) =~= before.push(its[k as int]));
            }
        } else {
            proof {
                assert(items_of(its.take(k as int + 1), oid@) =~= before);
            }
        }
        k += 1;
    }
    proof {
        lemma_take_all(its);
    }
    out
}

/// One order row rendered with all its line items.
fn response_for_order(store: &Store, o: &Order) -> (r: OrderResponse)
    ensures
        order_response_matches(store.order_items@, *o, r),
{
    let items = items_for_order(store, o.id.as_str());
    OrderResponse {
        id: o.id.clone(),
        user_id: o.user_id.clone(),
        total: o.total,
        status: o.status,
        items,
        created_at: o.created_at,
        updated_at: o.updated_at,
    }
}

/// Every order in the store, rendered in table order.
fn all_order_responses(store: &Store) -> (r: Vec<OrderResponse>)
    ensures
        r@.len() == store.orders@.len(),
        forall|i: int|
            0 <= i < r@.len() ==> order_response_matches(
                store.order_items@,
                store.orders@[i],
                #[trigger] r@[i],
            ),
{
    let mut out: Vec<OrderResponse> = Vec::new();
    let n = store.orders.len();
    let mut k: usize = 0;
    while k < n
        invariant
            n == store.orders@.len(),
            k <= n,
            out@.len() == k,
            forall|i: int|
                0 <= i < k ==> order_response_matches(
                    store.order_items@,
                    store.orders@[i],
                    #[trigger] out@[i],
                ),
        decreases n - k,
    {
        let resp = response_for_order(store, &store.orders[k]);
        out.push(resp);
        k += 1;
    }
    out
}

/// The orders a caller may list: every order for an admin, their own
/// orders for anyone else, each with its line items.
pub fn get_user_orders(store: &Store, claims: &Claims) -> (r: Vec<OrderResponse>)
    ensures
        ({
            let sel = if claims.role == UserRole::Admin {
                store.orders@
            } else {
                own_orders(store.orders@, claims.sub@)
            };
            &&& r@.len() == sel.len()
            &&& forall|i: int|
                0 <= i < sel.len() ==> order_response_matches(
                    store.order_items@,
                    sel[i],
                    #[trigger] r@[i],
                )
        }),
{
    if claims.role == UserRole::Admin {
        return all_order_responses(store);
    }
    let ghost os = store.orders@;
    let ghost uid = claims.sub@;
    let mut out: Vec<OrderResponse> = Vec::new();
    let n = store.orders.len();
    let mut k: usize = 0;
    while k < n
        invariant
            os == store.orders@,
            uid == claims.sub@,
            n == os.len(),
            k <= n,
            out@.len() == own_orders(os.take(k as int), uid).len(),
            forall|i: int|
                0 <= i < out@.len() ==> order_response_matches(
                    store.order_items@,
                    own_orders(os.take(k as int), uid)[i],
                    #[trigger] out@[i],
                ),
        decreases n - k,
    {
        proof {
            lemma_take_one_more(os, k as int);
        }
        let ghost before = own_orders(os.take(k as int), uid);
        let o = &store.orders[k];
        if str_eq(o.user_id.as_str(), claims.sub.as_str()) {
            let resp = response_for_order(store, o);
            out.push(resp);
            proof {
                assert(own_orders(os.take(k as int + 1), uid) =~= before.push(os[k as int]));
            }
        } else {
            proof {
                assert(own_orders(os.take(k as int + 1), uid) =~= before);
            }
        }
        k += 1;
    }
    proof {
        lemma_take_all(os);
    }
    out
}

/// One order with its items, if the caller may see it: admins may see any
/// order, everyone may see their own, and a vendor may additionally see an
/// order containing one of their products.
pub fn get_order_by_id(store: &Store, claims: &Claims, order_id: &str) -> (r: Result<
    OrderResponse,
    OrderError,
>)
    ensures
        ({
            let os = store.orders@;
            let uid = claims.sub@;
            let oi = order_index(os, order_id@);
            let viord = vendor_in_order(store.products@, store.order_items@, order_id@, uid);
            match r {
                Err(OrderError::NotFound) => oi == -1,
                Err(OrderError::NotYourOrder) => oi != -1 && claims.role != UserRole::Admin
                    && claims.role != UserRole::Vendor && os[oi].user_id@ != uid,
                Err(OrderError::VendorNotInOrder) => oi != -1 && claims.role == UserRole::Vendor
                    && os[oi].user_id@ != uid && !viord,
                Ok(resp) => {
                    &&& oi != -1
                    &&& (claims.role == UserRole::Admin || os[oi].user_id@ == uid || (claims.role
                        == UserRole::Vendor && viord))
                    &&& order_response_matches(store.order_items@, os[oi], resp)
                },
                _ => false,
            }
        }),
{
    let ghost os = store.orders@;
    let oi = match store.find_order(order_id) {
        Some(oi) => oi,
        None => {
            return Err(OrderError::NotFound);
        },
    };
    proof {
        lemma_order_index_props(os, order_id@);
    }
    if matches!(claims.role, UserRole::Admin) {
        return Ok(response_for_order(store, &store.orders[oi]));
    }
    if str_eq(store.orders[oi].user_id.as_str(), claims.sub.as_str()) {
        return Ok(response_for_order(store, &store.orders[oi]));
    }
    if matches!(claims.role, UserRole::Vendor) {
        if has_vendor_item(store, order_id, claims.sub.as_str()) {
            Ok(response_for_order(store, &store.orders[oi]))
        } else {
            Err(OrderError::VendorNotInOrder)
        }
    } else {
        Err(OrderError::NotYourOrder)
    }
}

// --- the vendor's slice of the order book ---

/// The line items of one order that price one of the vendor's products.
pub open spec fn vendor_items_of(
    ps: Seq<Product>,
    its: Seq<OrderItem>,
    oid: Seq<char>,
    vid: Seq<char>,
) -> Seq<OrderItem>
    decreases its.len(),
{
    if its.len() == 0 {
        Seq::empty()
    } else {
        vendor_items_of(ps, its.drop_last(), oid, vid) + if its.last().order_id@ == oid
            && product_of_vendor(ps, its.last().product_id@, vid) {
            seq![its.last()]
        } else {
            Seq::empty()
        }
    }
}

/// Sum of captured price times quantity over the given line items.
pub open spec fn captured_total(s: Seq<OrderItem>) -> int
    decreases s.len(),
{
    if s.len() == 0 {
        0
    } else {
        captured_total(s.drop_last()) + s.last().price * s.last().quantity
    }
}

/// The orders that contain at least one of the vendor's products.
pub open spec fn vendor_order_rows(
    ps: Seq<Product>,
    its: Seq<OrderItem>,
    os: Seq<Order>,
    vid: Seq<char>,
) -> Seq<Order>
    decreases os.len(),
{
    if os.len() == 0 {
        Seq::empty()
    } else {
        vendor_order_rows(ps, its, os.drop_last(), vid) + if vendor_in_order(
            ps,
            its,
            os.last().id@,
            vid,
        ) {
            seq![os.last()]
        } else {
            Seq::empty()
        }
    }
}

/// The response renders the order for the vendor: only the vendor's line
/// items appear, and the total is the sum over those items alone, at the
/// prices captured when the order was placed.
pub open spec fn vendor_response_matches(
    ps: Seq<Product>,
    its: Seq<OrderItem>,
    o: Order,
    vid: Seq<char>,
    r: OrderResponse,
) -> bool {
    let sel = vendor_items_of(ps, its, o.id@, vid);
    &&& r.id@ == o.id@
    &&& r.user_id@ == o.user_id@
    &&& r.total == captured_total(sel)
    &&& r.status == o.status
    &&& r.created_at == o.created_at
    &&& r.updated_at == o.updated_at
    &&& r.items@.len() == sel.len()
    &&& forall|j: int| 0 <= j < sel.len() ==> item_response_matches(sel[j], #[trigger] r.items@[j])
}

/// The vendor's slice of one order: its lines for the vendor's products,
/// and their total at the captured prices.
fn vendor_slice_of_order(store: &Store, o: &Order, vendor_id: &str) -> (r: OrderResponse)
    requires
        store.wf(),
    ensures
        vendor_response_matches(store.products@, store.order_items@, *o, vendor_id@, r),
{
    let ghost its = store.order_items@;
    let ghost ps = store.products@;
    let ghost vid = vendor_id@;
    let ghost oid = o.id@;
    let mut items: Vec<OrderItemResponse> = Vec::new();
    let mut total: u128 = 0;
    let n = store.order_items.len();
    let mut k: usize = 0;
    while k < n
        invariant
            store.wf(),
            its == store.order_items@,
            ps == store.products@,
            vid == vendor_id@,
            oid == o.id@,
            n == its.len(),
            k <= n,
            items@.len() == vendor_items_of(ps, its.take(k as int), oid, vid).len(),
            items@.len() <= k,
            forall|j: int|
                0 <= j < items@.len() ==> item_response_matches(
                    vendor_items_of(ps, its.take(k as int), oid, vid)[j],
                    #[trigger] items@[j],
                ),
            total == captured_total(vendor_items_of(ps, its.take(k as int), oid, vid)),
            total <= items@.len() * 0x8000_0000_0000_0000u128,
        decreases n - k,
    {
        proof {
            lemma_take_one_more(its, k as int);
        }
        let ghost before = vendor_items_of(ps, its.take(k as int), oid, vid);
        let ghost after = vendor_items_of(ps, its.take(k as int + 1), oid, vid);
        let it = &store.order_items[k];
        if str_eq(it.order_id.as_str(), o.id.as_str()) && product_belongs_to_vendor(
            store,
            it.product_id.as_str(),
            vendor_id,
        ) {
            proof {
                assert(after == before.push(its[k as int])) by {
                    assert(before + seq![its[k as int]] =~= before.push(its[k as int]));
                }
                assert(after.drop_last() =~= before);
                assert(1 <= its[k as int].quantity);
                assert((it.price as u64) * (it.quantity as u64) < 0x8000_0000_0000_0000u64)
                    by (nonlinear_arith)
                    requires
                        it.price < 0x1_0000_0000u64,
                        1 <= it.quantity < 0x8000_0000u64,
                ;
            }
            let sub: u64 = it.price as u64 * (it.quantity as u64);
            items.push(
                OrderItemResponse {
                    id: it.id.clone(),
                    product_id: it.product_id.clone(),
                    quantity: it.quantity,
                    price: it.price,
                },
            );
            total = total + sub as u128;
        } else {
            proof {
                assert(after =~= before);
            }
        }
        k += 1;
    }
    proof {
        lemma_take_all(its);
    }
    OrderResponse {
        id: o.id.clone(),
        user_id: o.user_id.clone(),
        total,
        status: o.status,
        items,
        created_at: o.created_at,
        updated_at: o.updated_at,
    }
}

/// The orders that contain at least one of the caller's products, each
/// reduced to the caller's own line items and their total.
pub fn get_vendor_orders(store: &Store, claims: &Claims) -> (r: Vec<OrderResponse>)
    requires
        store.wf(),
    ensures
        ({
            let sel = vendor_order_rows(store.products@, store.order_items@, store.orders@, claims.sub@);
            &&& r@.len() == sel.len()
            &&& forall|i: int|
                0 <= i < sel.len() ==> vendor_response_matches(
                    store.products@,
                    store.order_items@,
                    sel[i],
                    claims.sub@,
                    #[trigger] r@[i],
                )
        }),
{
    let ghost os = store.orders@;
    let ghost ps = store.products@;
    let ghost its = store.order_items@;
    let ghost vid = claims.sub@;
    let mut out: Vec<OrderResponse> = Vec::new();
    let n = store.orders.len();
    let mut k: usize = 0;
    while k < n
        invariant
            store.wf(),
            os == store.orders@,
            ps == store.products@,
            its == store.order_items@,
            vid == claims.sub@,
            n == os.len(),
            k <= n,
            out@.len() == vendor_order_rows(ps, its, os.take(k as int), vid).len(),
            forall|i: int|
                0 <= i < out@.len() ==> vendor_response_matches(
                    ps,
                    its,
                    vendor_order_rows(ps, its, os.take(k as int), vid)[i],
                    vid,
                    #[trigger] out@[i],
                ),
        decreases n - k,
    {
        proof {
            lemma_take_one_more(os, k as int);
        }
        let ghost before = vendor_order_rows(ps, its, os.take(k as int), vid);
        let o = &store.orders[k];
        if has_vendor_item(store, o.id.as_str(), claims.sub.as_str()) {
            let resp = vendor_slice_of_order(store, o, claims.sub.as_str());
            out.push(resp);
            proof {
                assert(vendor_order_rows(ps, its, os.take(k as int + 1), vid) =~= before.push(
                    os[k as int],
                ));
            }
        } else {
            proof {
                assert(vendor_order_rows(ps, its, os.take(k as int + 1), vid) =~= before);
            }
        }
        k += 1;
    }
    proof {
        lemma_take_all(os);
    }
    out
}

/// Every order, for admins only.
pub fn get_all_orders(store: &Store, claims: &Claims) -> (r: Result<Vec<OrderResponse>, OrderError>)
    ensures
        ({
            match r {
                Err(e) => e == OrderError::AdminOnly && claims.role != UserRole::Admin,
                Ok(v) => {
                    &&& claims.role == UserRole::Admin
                    &&& v@.len() == store.orders@.len()
                    &&& forall|i: int|
                        0 <= i < v@.len() ==> order_response_matches(
                            store.order_items@,
                            store.orders@[i],
                            #[trigger] v@[i],
                        )
                },
            }
        }),
{
    if !matches!(claims.role, UserRole::Admin) {
        return Err(OrderError::AdminOnly);
    }
    Ok(all_order_responses(store))
}

} // verus!
