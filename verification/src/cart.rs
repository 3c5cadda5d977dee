//! Cart maintenance: reading a cart with per-line subtotals, adding to it,
//! changing a line's quantity, and removing a line. The admin role is
//! barred from every cart operation; a quantity that drops to zero or below
//! deletes the line instead of storing it.

use crate::auth::Claims;
use crate::role::UserRole;
use crate::seqs::{lemma_take_all, lemma_take_one_more};
use crate::store::{
    cart_entry_index, cart_pair_index, lemma_cart_entry_index_props, lemma_cart_pair_index_props,
    lemma_cart_wf_push, lemma_cart_wf_remove, lemma_cart_wf_update, product_index, CartItem,
    Product, Store,
};
use crate::text::str_eq;
use vstd::prelude::*;

verus! {

#[derive(Clone, Copy, PartialEq, Eq, Structural, Debug)]
pub enum CartError {
    /// Admins are barred from the cart wholesale.
    AdminForbidden,
    /// The product to add does not exist.
    ProductNotFound,
    /// The cart line does not exist or belongs to another user.
    ItemNotFound,
    /// A new line must start with a positive quantity.
    InvalidQuantity,
}

impl CartError {
    /// The HTTP status each failure maps to.
    pub fn status_code(&self) -> (c: u16)
        ensures
            c == match *self {
                CartError::AdminForbidden => 403u16,
                CartError::ProductNotFound => 404u16,
                CartError::ItemNotFound => 404u16,
                CartError::InvalidQuantity => 400u16,
            },
    {
        match self {
            CartError::AdminForbidden => 403,
            CartError::ProductNotFound => 404,
            CartError::ItemNotFound => 404,
            CartError::InvalidQuantity => 400,
        }
    }
}

/// What a mutating cart operation did.
#[derive(Debug)]
pub enum CartChange {
    /// A new line was created.
    Added(CartItem),
    /// An existing line's quantity was changed.
    Updated(CartItem),
    /// The line was deleted because its quantity dropped to zero or below.
    Removed,
}

// --- spec views of a user's cart ---

/// The rows of a user's cart, in table order.
pub open spec fn user_cart(cs: Seq<CartItem>, uid: Seq<char>) -> Seq<CartItem>
    decreases cs.len(),
{
    if cs.len() == 0 {
        Seq::empty()
    } else {
        user_cart(cs.drop_last(), uid) + if cs.last().user_id@ == uid {
            seq![cs.last()]
        } else {
            Seq::empty()
        }
    }
}

/// The cart table with a user's rows removed.
pub open spec fn remove_user(cs: Seq<CartItem>, uid: Seq<char>) -> Seq<CartItem>
    decreases cs.len(),
{
    if cs.len() == 0 {
        Seq::empty()
    } else {
        remove_user(cs.drop_last(), uid) + if cs.last().user_id@ != uid {
            seq![cs.last()]
        } else {
            Seq::empty()
        }
    }
}

/// The rows of a user's cart whose product still exists in the catalog.
pub open spec fn present_cart(ps: Seq<Product>, cs: Seq<CartItem>, uid: Seq<char>) -> Seq<CartItem>
    decreases cs.len(),
{
    if cs.len() == 0 {
        Seq::empty()
    } else {
        present_cart(ps, cs.drop_last(), uid) + if cs.last().user_id@ == uid && product_index(
            ps,
            cs.last().product_id@,
        ) != -1 {
            seq![cs.last()]
        } else {
            Seq::empty()
        }
    }
}

/// Sum of price times quantity over the rows whose product exists, at the
/// catalog's current prices.
pub open spec fn line_total(ps: Seq<Product>, s: Seq<CartItem>) -> int
    decreases s.len(),
{
    if s.len() == 0 {
        0
    } else {
        line_total(ps, s.drop_last()) + {
            let pj = product_index(ps, s.last().product_id@);
            if pj == -1 {
                0
            } else {
                ps[pj].price * s.last().quantity
            }
        }
    }
}

/// A user's cart rows are rows of the table, belong to that user, and — in
/// a well-formed table — are positive-quantity rows with pairwise distinct
/// products.
pub proof fn lemma_user_cart_props(cs: Seq<CartItem>, uid: Seq<char>)
    requires
        crate::store::cart_wf(cs),
    ensures
        user_cart(cs, uid).len() <= cs.len(),
        forall|j: int|
            0 <= j < user_cart(cs, uid).len() ==> cs.contains(#[trigger] user_cart(cs, uid)[j]),
        forall|j: int|
            0 <= j < user_cart(cs, uid).len() ==> (#[trigger] user_cart(cs, uid)[j]).user_id@
                == uid,
        forall|j: int|
            0 <= j < user_cart(cs, uid).len() ==> crate::store::cart_item_wf(
                #[trigger] user_cart(cs, uid)[j],
            ),
        forall|a: int, b: int|
            0 <= a < b < user_cart(cs, uid).len() ==> user_cart(cs, uid)[a].product_id@
                != user_cart(cs, uid)[b].product_id@,
    decreases cs.len(),
{
    let uc = user_cart(cs, uid);
    if cs.len() > 0 {
        let prev = cs.drop_last();
        assert(crate::store::cart_wf(prev)) by {
            assert(forall|i: int| 0 <= i < prev.len() ==> prev[i] == cs[i]);
        }
        lemma_user_cart_props(prev, uid);
        let ucp = user_cart(prev, uid);
        assert forall|j: int| 0 <= j < uc.len() implies cs.contains(uc[j]) by {
            if j < ucp.len() {
                let i = choose|i: int| 0 <= i < prev.len() && prev[i] == ucp[j];
                assert(cs[i] == ucp[j]);
            } else {
                assert(uc[j] == cs.last());
                assert(cs[cs.len() - 1] == cs.last());
            }
        }
        if cs.last().user_id@ == uid {
            assert forall|a: int, b: int|
                0 <= a < b < uc.len() implies uc[a].product_id@ != uc[b].product_id@ by {
                if b < ucp.len() {
                    assert(ucp[a].product_id@ != ucp[b].product_id@);
                } else {
                    assert(uc[b] == cs.last());
                    let i = choose|i: int| 0 <= i < prev.len() && prev[i] == ucp[a];
                    assert(cs[i] == uc[a]);
                    assert(!(cs[i].user_id@ == cs[cs.len() - 1].user_id@ && cs[i].product_id@
                        == cs[cs.len() - 1].product_id@));
                }
            }
        }
    }
}

/// After a user's rows are removed, what remains are rows of the table, all
/// owned by other users; a well-formed table stays well formed.
pub proof fn lemma_remove_user_props(cs: Seq<CartItem>, uid: Seq<char>)
    requires
        crate::store::cart_wf(cs),
    ensures
        crate::store::cart_wf(remove_user(cs, uid)),
        forall|j: int|
            0 <= j < remove_user(cs, uid).len() ==> (#[trigger] remove_user(cs, uid)[j]).user_id@
                != uid,
        forall|j: int|
            0 <= j < remove_user(cs, uid).len() ==> cs.contains(#[trigger] remove_user(cs, uid)[j]),
    decreases cs.len(),
{
    let rm = remove_user(cs, uid);
    if cs.len() > 0 {
        let prev = cs.drop_last();
        assert(crate::store::cart_wf(prev)) by {
            assert(forall|i: int| 0 <= i < prev.len() ==> prev[i] == cs[i]);
        }
        lemma_remove_user_props(prev, uid);
        let rmp = remove_user(prev, uid);
        assert forall|j: int| 0 <= j < rm.len() implies cs.contains(rm[j]) by {
            if j < rmp.len() {
                let i = choose|i: int| 0 <= i < prev.len() && prev[i] == rmp[j];
                assert(cs[i] == rmp[j]);
            } else {
                assert(rm[j] == cs.last());
                assert(cs[cs.len() - 1] == cs.last());
            }
        }
        if cs.last().user_id@ != uid {
            assert forall|a: int, b: int|
                0 <= a < b < rm.len() implies !(rm[a].user_id@ == rm[b].user_id@ && rm[
                a].product_id@ == rm[b].product_id@) by {
                if b < rmp.len() {
                    assert(!(rmp[a].user_id@ == rmp[b].user_id@ && rmp[a].product_id@
                        == rmp[b].product_id@));
                } else {
                    assert(rm[b] == cs.last());
                    let i = choose|i: int| 0 <= i < prev.len() && prev[i] == rmp[a];
                    assert(cs[i] == rm[a]);
                    assert(!(cs[i].user_id@ == cs[cs.len() - 1].user_id@ && cs[i].product_id@
                        == cs[cs.len() - 1].product_id@));
                }
            }
        }
    }
}

/// A table holding no rows of a user yields that user an empty cart.
pub proof fn lemma_user_cart_empty(cs: Seq<CartItem>, uid: Seq<char>)
    requires
        forall|j: int| 0 <= j < cs.len() ==> (#[trigger] cs[j]).user_id@ != uid,
    ensures
        user_cart(cs, uid).len() == 0,
    decreases cs.len(),
{
    if cs.len() > 0 {
        let prev = cs.drop_last();
        assert(forall|j: int| 0 <= j < prev.len() ==> prev[j] == cs[j]);
        lemma_user_cart_empty(prev, uid);
    }
}

/// Removing one user's rows leaves every other user's cart as it was.
pub proof fn lemma_user_cart_remove_other(cs: Seq<CartItem>, u1: Seq<char>, u2: Seq<char>)
    requires
        u1 != u2,
    ensures
        user_cart(remove_user(cs, u1), u2) == user_cart(cs, u2),
    decreases cs.len(),
{
    if cs.len() > 0 {
        let prev = cs.drop_last();
        lemma_user_cart_remove_other(prev, u1, u2);
        let x = cs.last();
        if x.user_id@ == u1 {
            assert(remove_user(cs, u1) =~= remove_user(prev, u1));
            assert(user_cart(cs, u2) =~= user_cart(prev, u2));
        } else {
            let rm = remove_user(cs, u1);
            assert(rm == remove_user(prev, u1).push(x)) by {
                assert(remove_user(prev, u1) + seq![x] =~= remove_user(prev, u1).push(x));
            }
            assert(rm.drop_last() =~= remove_user(prev, u1));
            assert(rm.last() == x);
            if x.user_id@ == u2 {
                assert(user_cart(rm, u2) =~= user_cart(prev, u2).push(x));
                assert(user_cart(cs, u2) =~= user_cart(prev, u2).push(x));
            } else {
                assert(user_cart(rm, u2) =~= user_cart(prev, u2));
                assert(user_cart(cs, u2) =~= user_cart(prev, u2));
            }
        }
    }
}

// --- the cart as a response ---

#[derive(Debug)]
pub struct CartItemWithProductResponse {
    pub id: String,
    pub product_id: String,
    pub product_name: String,
    /// Unit price in minor currency units.
    pub product_price: u32,
    pub quantity: i32,
    pub subtotal: u64,
}

#[derive(Debug)]
pub struct CartResponse {
    pub items: Vec<CartItemWithProductResponse>,
    pub total: u128,
}

/// The response line `l` renders the cart row `c` against the catalog `ps`.
pub open spec fn line_matches(ps: Seq<Product>, c: CartItem, l: CartItemWithProductResponse) -> bool {
    let pj = product_index(ps, c.product_id@);
    &&& pj != -1
    &&& l.id@ == c.id@
    &&& l.product_id@ == c.product_id@
    &&& l.product_name@ == ps[pj].name@
    &&& l.product_price == ps[pj].price
    &&& l.quantity == c.quantity
    &&& l.subtotal == ps[pj].price * c.quantity
}

/// A user's cart rendered with product names, per-line subtotals and the
/// cart's total. Rows whose product has disappeared from the catalog are
/// skipped. Admins are refused.
pub fn get_cart(store: &Store, claims: &Claims) -> (r: Result<CartResponse, CartError>)
    requires
        store.wf(),
    ensures
        ({
            let ps = store.products@;
            let pc = present_cart(ps, store.cart_items@, claims.sub@);
            match r {
                Err(e) => e == CartError::AdminForbidden && claims.role == UserRole::Admin,
                Ok(v) => {
                    &&& claims.role != UserRole::Admin
                    &&& v.items@.len() == pc.len()
                    &&& forall|i: int|
                        0 <= i < pc.len() ==> line_matches(ps, pc[i], #[trigger] v.items@[i])
                    &&& v.total == line_total(ps, pc)
                },
            }
        }),
{
    if claims.role == UserRole::Admin {
        return Err(CartError::AdminForbidden);
    }
    let ghost ps = store.products@;
    let ghost cs = store.cart_items@;
    let ghost uid = claims.sub@;
    let mut items: Vec<CartItemWithProductResponse> = Vec::new();
    let mut total: u128 = 0;
    let n = store.cart_items.len();
    let mut k: usize = 0;
    while k < n
        invariant
            store.wf(),
            ps == store.products@,
            cs == store.cart_items@,
            uid == claims.sub@,
            n == cs.len(),
            k <= n,
            items@.len() == present_cart(ps, cs.take(k as int), uid).len(),
            items@.len() <= k,
            forall|i: int|
                0 <= i < items@.len() ==> line_matches(
                    ps,
                    present_cart(ps, cs.take(k as int), uid)[i],
                    #[trigger] items@[i],
                ),
            total == line_total(ps, present_cart(ps, cs.take(k as int), uid)),
            total <= items@.len() * 0x8000_0000_0000_0000u128,
        decreases n - k,
    {
        proof {
            lemma_take_one_more(cs, k as int);
        }
        let ghost pcold = present_cart(ps, cs.take(k as int), uid);
        let ghost pcnew = present_cart(ps, cs.take(k as int + 1), uid);
        let row = &store.cart_items[k];
        if str_eq(row.user_id.as_str(), claims.sub.as_str()) {
            match store.find_product(row.product_id.as_str()) {
                Some(pj) => {
                    proof {
                        crate::store::lemma_product_index_props(ps, cs[k as int].product_id@);
                        assert(pcnew == pcold.push(cs[k as int])) by {
                            assert(pcold + seq![cs[k as int]] =~= pcold.push(cs[k as int]));
                        }
                        assert(pcnew.drop_last() =~= pcold);
                        assert(pcnew.last() == cs[k as int]);
                    }
                    let p = &store.products[pj];
                    proof {
                        assert(crate::store::cart_item_wf(cs[k as int]));
                        assert((p.price as u64) * (row.quantity as u64)
                            < 0x8000_0000_0000_0000u64) by (nonlinear_arith)
                            requires
                                p.price < 0x1_0000_0000u64,
                                1 <= row.quantity < 0x8000_0000u64,
                        ;
                    }
                    let sub: u64 = p.price as u64 * row.quantity as u64;
                    items.push(
                        CartItemWithProductResponse {
                            id: row.id.clone(),
                            product_id: row.product_id.clone(),
                            product_name: p.name.clone(),
                            product_price: p.price,
                            quantity: row.quantity,
                            subtotal: sub,
                        },
                    );
                    total = total + sub as u128;
                },
                None => {
                    proof {
                        assert(pcnew =~= pcold);
                    }
                },
            }
        } else {
            proof {
                assert(pcnew =~= pcold);
            }
        }
        k += 1;
    }
    proof {
        lemma_take_all(cs);
    }
    Ok(CartResponse { items, total })
}

/// Add a product to a user's cart, or adjust an existing line by a signed
/// quantity. A line whose quantity drops to zero or below is deleted; a new
/// line needs a positive quantity; admins are refused; the product must
/// exist. Only the cart table changes.
pub fn add_to_cart(store: &mut Store, claims: &Claims, product_id: &str, quantity: i32) -> (r:
    Result<CartChange, CartError>)
    requires
        old(store).wf(),
        ({
            let ci = cart_pair_index(old(store).cart_items@, claims.sub@, product_id@);
            ci != -1 ==> old(store).cart_items@[ci].quantity + quantity <= i32::MAX
        }),
    ensures
        final(store).wf(),
        final(store).products@ == old(store).products@,
        final(store).orders@ == old(store).orders@,
        final(store).order_items@ == old(store).order_items@,
        ({
            let ps = old(store).products@;
            let cs = old(store).cart_items@;
            let uid = claims.sub@;
            let pid = product_id@;
            let pi = product_index(ps, pid);
            let ci = cart_pair_index(cs, uid, pid);
            match r {
                Err(CartError::AdminForbidden) => claims.role == UserRole::Admin && final(store).cart_items@ == cs,
                Err(CartError::ProductNotFound) => claims.role != UserRole::Admin && pi == -1
                    && final(store).cart_items@ == cs,
                Err(CartError::InvalidQuantity) => claims.role != UserRole::Admin && pi != -1 && ci
                    == -1 && quantity <= 0 && final(store).cart_items@ == cs,
                Err(CartError::ItemNotFound) => false,
                Ok(CartChange::Removed) => {
                    &&& claims.role != UserRole::Admin
                    &&& pi != -1
                    &&& ci != -1
                    &&& cs[ci].quantity + quantity <= 0
                    &&& final(store).cart_items@ == cs.remove(ci)
                },
                Ok(CartChange::Updated(it)) => {
                    &&& claims.role != UserRole::Admin
                    &&& pi != -1
                    &&& ci != -1
                    &&& cs[ci].quantity + quantity >= 1
                    &&& it.id@ == cs[ci].id@
                    &&& it.user_id@ == uid
                    &&& it.product_id@ == pid
                    &&& it.quantity == cs[ci].quantity + quantity
                    &&& it.created_at == cs[ci].created_at
                    &&& it.updated_at == cs[ci].updated_at
                    &&& final(store).cart_items@ == cs.update(ci, it)
                },
                Ok(CartChange::Added(it)) => {
                    &&& claims.role != UserRole::Admin
                    &&& pi != -1
                    &&& ci == -1
                    &&& quantity >= 1
                    &&& it.user_id@ == uid
                    &&& it.product_id@ == pid
                    &&& it.quantity == quantity
                    &&& final(store).cart_items@ == cs.push(it)
                },
            }
        }),
{
    if claims.role == UserRole::Admin {
        return Err(CartError::AdminForbidden);
    }
    let ghost cs = store.cart_items@;
    let ghost uid = claims.sub@;
    let ghost pid = product_id@;
    if store.find_product(product_id).is_none() {
        return Err(CartError::ProductNotFound);
    }
    match store.find_cart_pair(claims.sub.as_str(), product_id) {
        Some(ci) => {
            proof {
                lemma_cart_pair_index_props(cs, uid, pid);
                assert(crate::store::cart_item_wf(cs[ci as int]));
            }
            let old_q = store.cart_items[ci].quantity;
            let nq64: i64 = old_q as i64 + quantity as i64;
            if nq64 <= 0 {
                store.cart_items.remove(ci);
                proof {
                    lemma_cart_wf_remove(cs, ci as int);
                }
                Ok(CartChange::Removed)
            } else {
                let nq: i32 = nq64 as i32;
                let mut row = store.cart_items[ci].duplicate();
                row.quantity = nq;
                let copy = row.duplicate();
                store.cart_items[ci] = row;
                proof {
                    lemma_cart_wf_update(cs, ci as int, store.cart_items@[ci as int]);
                }
                Ok(CartChange::Updated(copy))
            }
        },
        None => {
            if quantity <= 0 {
                return Err(CartError::InvalidQuantity);
            }
            let row = CartItem::new(claims.sub.clone(), product_id.to_owned(), quantity);
            let copy = row.duplicate();
            proof {
                lemma_cart_pair_index_props(cs, uid, pid);
                lemma_cart_wf_push(cs, row);
            }
            store.cart_items.push(row);
            Ok(CartChange::Added(copy))
        },
    }
}

/// Set the quantity of a cart line the user owns, deleting the line when
/// the quantity is zero or below. Admins are refused; a line that does not
/// exist or belongs to someone else is not found. Only the cart table
/// changes.
pub fn update_cart_item(store: &mut Store, claims: &Claims, item_id: &str, quantity: i32) -> (r:
    Result<CartChange, CartError>)
    requires
        old(store).wf(),
    ensures
        final(store).wf(),
        final(store).products@ == old(store).products@,
        final(store).orders@ == old(store).orders@,
        final(store).order_items@ == old(store).order_items@,
        ({
            let cs = old(store).cart_items@;
            let uid = claims.sub@;
            let iid = item_id@;
            let ei = cart_entry_index(cs, iid, uid);
            match r {
                Err(CartError::AdminForbidden) => claims.role == UserRole::Admin && final(store).cart_items@ == cs,
                Err(CartError::ItemNotFound) => claims.role != UserRole::Admin && ei == -1 && final(store).cart_items@ == cs,
                Err(CartError::ProductNotFound) => false,
                Err(CartError::InvalidQuantity) => false,
                Ok(CartChange::Removed) => {
                    &&& claims.role != UserRole::Admin
                    &&& ei != -1
                    &&& quantity <= 0
                    &&& final(store).cart_items@ == cs.remove(ei)
                },
                Ok(CartChange::Updated(it)) => {
                    &&& claims.role != UserRole::Admin
                    &&& ei != -1
                    &&& quantity >= 1
                    &&& it.id@ == iid
                    &&& it.user_id@ == uid
                    &&& it.product_id@ == cs[ei].product_id@
                    &&& it.quantity == quantity
                    &&& it.created_at == cs[ei].created_at
                    &&& it.updated_at == cs[ei].updated_at
                    &&& final(store).cart_items@ == cs.update(ei, it)
                },
                Ok(CartChange::Added(_)) => false,
            }
        }),
{
    if claims.role == UserRole::Admin {
        return Err(CartError::AdminForbidden);
    }
    let ghost cs = store.cart_items@;
    let ghost uid = claims.sub@;
    let ghost iid = item_id@;
    match store.find_cart_entry(item_id, claims.sub.as_str()) {
        Some(ei) => {
            proof {
                lemma_cart_entry_index_props(cs, iid, uid);
            }
            if quantity <= 0 {
                store.cart_items.remove(ei);
                proof {
                    lemma_cart_wf_remove(cs, ei as int);
                }
                Ok(CartChange::Removed)
            } else {
                let mut row = store.cart_items[ei].duplicate();
                row.quantity = quantity;
                let copy = row.duplicate();
                store.cart_items[ei] = row;
                proof {
                    lemma_cart_wf_update(cs, ei as int, store.cart_items@[ei as int]);
                }
                Ok(CartChange::Updated(copy))
            }
        },
        None => Err(CartError::ItemNotFound),
    }
}

/// Delete a cart line the user owns. Admins are refused; a line that does
/// not exist or belongs to someone else is not found. Only the cart table
/// changes.
pub fn remove_from_cart(store: &mut Store, claims: &Claims, item_id: &str) -> (r: Result<
    (),
    CartError,
>)
    requires
        old(store).wf(),
    ensures
        final(store).wf(),
        final(store).products@ == old(store).products@,
        final(store).orders@ == old(store).orders@,
        final(store).order_items@ == old(store).order_items@,
        ({
            let cs = old(store).cart_items@;
            let ei = cart_entry_index(cs, item_id@, claims.sub@);
            match r {
                Err(CartError::AdminForbidden) => claims.role == UserRole::Admin && final(store).cart_items@ == cs,
                Err(CartError::ItemNotFound) => claims.role != UserRole::Admin && ei == -1 && final(store).cart_items@ == cs,
                Err(CartError::ProductNotFound) => false,
                Err(CartError::InvalidQuantity) => false,
                Ok(()) => claims.role != UserRole::Admin && ei != -1 && final(store).cart_items@
                    == cs.remove(ei),
            }
        }),
{
    if claims.role == UserRole::Admin {
        return Err(CartError::AdminForbidden);
    }
    let ghost cs = store.cart_items@;
    match store.find_cart_entry(item_id, claims.sub.as_str()) {
        Some(ei) => {
            proof {
                lemma_cart_entry_index_props(cs, item_id@, claims.sub@);
            }
            store.cart_items.remove(ei);
            proof {
                lemma_cart_wf_remove(cs, ei as int);
            }
            Ok(())
        },
        None => Err(CartError::ItemNotFound),
    }
}

} // verus!
