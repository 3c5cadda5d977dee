//! The storefront's state: catalog, per-user carts, orders and their line
//! items, modeled as in-memory tables. Rows are identified by opaque string
//! keys; lookups return the first row whose key matches, and the store's
//! well-formedness ties the tables together: cart quantities are positive,
//! a user holds at most one cart row per product, and stock is never
//! negative.


use crate::status::OrderStatus;
use crate::text::str_eq;
use vstd::prelude::*;

verus! {

#[derive(Debug)]
pub struct Product {
    pub id: String,
    pub name: String,
    pub description: String,
    /// Unit price in minor currency units.
    pub price: u32,
    pub vendor_id: String,
    pub stock: i32,
    pub created_at: i64,
    pub updated_at: i64,
    pub category: Option<String>,
}

#[derive(Debug)]
pub struct CartItem {
    pub id: String,
    pub user_id: String,
    pub product_id: String,
    pub quantity: i32,
    pub created_at: i64,
    pub updated_at: i64,
}

#[derive(Debug)]
pub struct Order {
    pub id: String,
    pub user_id: String,
    /// Sum of the line items' subtotals, in minor currency units.
    pub total: u128,
    pub status: OrderStatus,
    pub created_at: i64,
    pub updated_at: i64,
}

#[derive(Debug)]
pub struct OrderItem {
    pub id: String,
    pub order_id: String,
    pub product_id: String,
    pub quantity: i32,
    /// Unit price captured at purchase time; never updated afterwards.
    pub price: u32,
}

#[derive(Debug)]
pub struct Store {
    pub products: Vec<Product>,
    pub cart_items: Vec<CartItem>,
    pub orders: Vec<Order>,
    pub order_items: Vec<OrderItem>,
}

// --- well-formedness ---

pub open spec fn product_wf(p: Product) -> bool {
    p.stock >= 0
}

pub open spec fn cart_item_wf(c: CartItem) -> bool {
    1 <= c.quantity
}

/// A user holds at most one cart row per product.
pub open spec fn cart_distinct(s: Seq<CartItem>) -> bool {
    forall|i: int, j: int|
        0 <= i < j < s.len() ==> !(s[i].user_id@ == s[j].user_id@ && s[i].product_id@
            == s[j].product_id@)
}

/// The whole cart table is well formed: positive quantities, one row per
/// (user, product) pair.
pub open spec fn cart_wf(s: Seq<CartItem>) -> bool {
    &&& forall|i: int| 0 <= i < s.len() ==> cart_item_wf(#[trigger] s[i])
    &&& cart_distinct(s)
}

/// Replacing a row with one for the same user and product keeps the cart
/// table well formed.
pub proof fn lemma_cart_wf_update(s: Seq<CartItem>, i: int, c: CartItem)
    requires
        cart_wf(s),
        0 <= i < s.len(),
        cart_item_wf(c),
        c.user_id@ == s[i].user_id@,
        c.product_id@ == s[i].product_id@,
    ensures
        cart_wf(s.update(i, c)),
{
    let t = s.update(i, c);
    assert forall|a: int, b: int|
        0 <= a < b < t.len() implies !(t[a].user_id@ == t[b].user_id@ && t[a].product_id@
        == t[b].product_id@) by {
        assert(!(s[a].user_id@ == s[b].user_id@ && s[a].product_id@ == s[b].product_id@));
    }
}

/// Removing a row keeps the cart table well formed.
pub proof fn lemma_cart_wf_remove(s: Seq<CartItem>, i: int)
    requires
        cart_wf(s),
        0 <= i < s.len(),
    ensures
        cart_wf(s.remove(i)),
{
    let t = s.remove(i);
    s.remove_ensures(i);
    assert forall|a: int, b: int|
        0 <= a < b < t.len() implies !(t[a].user_id@ == t[b].user_id@ && t[a].product_id@
        == t[b].product_id@) by {
        let a0: int = if a < i {
            a
        } else {
            a + 1
        };
        let b0: int = if b < i {
            b
        } else {
            b + 1
        };
        assert(t[a] == s[a0]);
        assert(t[b] == s[b0]);
        assert(!(s[a0].user_id@ == s[b0].user_id@ && s[a0].product_id@ == s[b0].product_id@));
    }
    assert forall|a: int| 0 <= a < t.len() implies cart_item_wf(t[a]) by {
        let a0: int = if a < i {
            a
        } else {
            a + 1
        };
        assert(t[a] == s[a0]);
    }
}

/// Appending a row for a pair the table does not hold keeps it well formed.
pub proof fn lemma_cart_wf_push(s: Seq<CartItem>, c: CartItem)
    requires
        cart_wf(s),
        cart_item_wf(c),
        forall|i: int|
            0 <= i < s.len() ==> !((#[trigger] s[i]).user_id@ == c.user_id@ && s[i].product_id@
                == c.product_id@),
    ensures
        cart_wf(s.push(c)),
{
    let t = s.push(c);
    assert forall|a: int, b: int|
        0 <= a < b < t.len() implies !(t[a].user_id@ == t[b].user_id@ && t[a].product_id@
        == t[b].product_id@) by {
        if b < s.len() {
            assert(!(s[a].user_id@ == s[b].user_id@ && s[a].product_id@ == s[b].product_id@));
        } else {
            assert(t[b] == c);
            assert(t[a] == s[a]);
        }
    }
}

impl Store {
    pub open spec fn wf(&self) -> bool {
        &&& forall|i: int| 0 <= i < self.products@.len() ==> product_wf(#[trigger] self.products@[i])
        &&& cart_wf(self.cart_items@)
        &&& forall|i: int| 0 <= i < self.order_items@.len() ==> 1 <= (#[trigger] self.order_items@[i]).quantity
    }

    pub fn new() -> (s: Store)
        ensures
            s.wf(),
            s.products@.len() == 0,
            s.cart_items@.len() == 0,
            s.orders@.len() == 0,
            s.order_items@.len() == 0,
    {
        Store {
            products: Vec::new(),
            cart_items: Vec::new(),
            orders: Vec::new(),
            order_items: Vec::new(),
        }
    }
}

// --- first-match lookups ---

/// Position of the first product row with the given id, or -1.
pub open spec fn product_index(s: Seq<Product>, pid: Seq<char>) -> int
    decreases s.len(),
{
    if s.len() == 0 {
        -1
    } else if s[0].id@ == pid {
        0
    } else {
        let r = product_index(s.drop_first(), pid);
        if r == -1 {
            -1
        } else {
            r + 1
        }
    }
}

/// Position of a user's cart row for a product, or -1.
pub open spec fn cart_pair_index(s: Seq<CartItem>, uid: Seq<char>, pid: Seq<char>) -> int
    decreases s.len(),
{
    if s.len() == 0 {
        -1
    } else if s[0].user_id@ == uid && s[0].product_id@ == pid {
        0
    } else {
        let r = cart_pair_index(s.drop_first(), uid, pid);
        if r == -1 {
            -1
        } else {
            r + 1
        }
    }
}

/// Position of a user's cart row with the given row id, or -1.
pub open spec fn cart_entry_index(s: Seq<CartItem>, iid: Seq<char>, uid: Seq<char>) -> int
    decreases s.len(),
{
    if s.len() == 0 {
        -1
    } else if s[0].id@ == iid && s[0].user_id@ == uid {
        0
    } else {
        let r = cart_entry_index(s.drop_first(), iid, uid);
        if r == -1 {
            -1
        } else {
            r + 1
        }
    }
}

/// Position of the first order row with the given id, or -1.
pub open spec fn order_index(s: Seq<Order>, oid: Seq<char>) -> int
    decreases s.len(),
{
    if s.len() == 0 {
        -1
    } else if s[0].id@ == oid {
        0
    } else {
        let r = order_index(s.drop_first(), oid);
        if r == -1 {
            -1
        } else {
            r + 1
        }
    }
}

/// What `product_index` returns: -1 when no row matches, else the position
/// of the first matching row.
pub proof fn lemma_product_index_props(s: Seq<Product>, pid: Seq<char>)
    ensures
        product_index(s, pid) == -1 ==> forall|i: int| 0 <= i < s.len() ==> s[i].id@ != pid,
        product_index(s, pid) != -1 ==> {
            let r = product_index(s, pid);
            &&& 0 <= r < s.len()
            &&& s[r].id@ == pid
            &&& forall|i: int| 0 <= i < r ==> s[i].id@ != pid
        },
    decreases s.len(),
{
    if s.len() > 0 && s[0].id@ != pid {
        lemma_product_index_props(s.drop_first(), pid);
        if product_index(s.drop_first(), pid) == -1 {
            assert forall|i: int| 0 <= i < s.len() implies s[i].id@ != pid by {
                if i > 0 {
                    assert(s.drop_first()[i - 1] == s[i]);
                }
            }
        } else {
            let r = product_index(s, pid);
            assert(s.drop_first()[r - 1] == s[r]);
            assert forall|i: int| 0 <= i < r implies s[i].id@ != pid by {
                if i > 0 {
                    assert(s.drop_first()[i - 1] == s[i]);
                }
            }
        }
    }
}

/// What `cart_pair_index` returns, in the same shape.
pub proof fn lemma_cart_pair_index_props(s: Seq<CartItem>, uid: Seq<char>, pid: Seq<char>)
    ensures
        cart_pair_index(s, uid, pid) == -1 ==> forall|i: int|
            0 <= i < s.len() ==> !(s[i].user_id@ == uid && s[i].product_id@ == pid),
        cart_pair_index(s, uid, pid) != -1 ==> {
            let r = cart_pair_index(s, uid, pid);
            &&& 0 <= r < s.len()
            &&& s[r].user_id@ == uid && s[r].product_id@ == pid
            &&& forall|i: int| 0 <= i < r ==> !(s[i].user_id@ == uid && s[i].product_id@ == pid)
        },
    decreases s.len(),
{
    if s.len() > 0 && !(s[0].user_id@ == uid && s[0].product_id@ == pid) {
        lemma_cart_pair_index_props(s.drop_first(), uid, pid);
        if cart_pair_index(s.drop_first(), uid, pid) == -1 {
            assert forall|i: int|
                0 <= i < s.len() implies !(s[i].user_id@ == uid && s[i].product_id@ == pid) by {
                if i > 0 {
                    assert(s.drop_first()[i - 1] == s[i]);
                }
            }
        } else {
            let r = cart_pair_index(s, uid, pid);
            assert(s.drop_first()[r - 1] == s[r]);
            assert forall|i: int|
                0 <= i < r implies !(s[i].user_id@ == uid && s[i].product_id@ == pid) by {
                if i > 0 {
                    assert(s.drop_first()[i - 1] == s[i]);
                }
            }
        }
    }
}

/// What `cart_entry_index` returns, in the same shape.
pub proof fn lemma_cart_entry_index_props(s: Seq<CartItem>, iid: Seq<char>, uid: Seq<char>)
    ensures
        cart_entry_index(s, iid, uid) == -1 ==> forall|i: int|
            0 <= i < s.len() ==> !(s[i].id@ == iid && s[i].user_id@ == uid),
        cart_entry_index(s, iid, uid) != -1 ==> {
            let r = cart_entry_index(s, iid, uid);
            &&& 0 <= r < s.len()
            &&& s[r].id@ == iid && s[r].user_id@ == uid
            &&& forall|i: int| 0 <= i < r ==> !(s[i].id@ == iid && s[i].user_id@ == uid)
        },
    decreases s.len(),
{
    if s.len() > 0 && !(s[0].id@ == iid && s[0].user_id@ == uid) {
        lemma_cart_entry_index_props(s.drop_first(), iid, uid);
        if cart_entry_index(s.drop_first(), iid, uid) == -1 {
            assert forall|i: int|
                0 <= i < s.len() implies !(s[i].id@ == iid && s[i].user_id@ == uid) by {
                if i > 0 {
                    assert(s.drop_first()[i - 1] == s[i]);
                }
            }
        } else {
            let r = cart_entry_index(s, iid, uid);
            assert(s.drop_first()[r - 1] == s[r]);
            assert forall|i: int| 0 <= i < r implies !(s[i].id@ == iid && s[i].user_id@ == uid) by {
                if i > 0 {
                    assert(s.drop_first()[i - 1] == s[i]);
                }
            }
        }
    }
}

/// What `order_index` returns, in the same shape.
pub proof fn lemma_order_index_props(s: Seq<Order>, oid: Seq<char>)
    ensures
        order_index(s, oid) == -1 ==> forall|i: int| 0 <= i < s.len() ==> s[i].id@ != oid,
        order_index(s, oid) != -1 ==> {
            let r = order_index(s, oid);
            &&& 0 <= r < s.len()
            &&& s[r].id@ == oid
            &&& forall|i: int| 0 <= i < r ==> s[i].id@ != oid
        },
    decreases s.len(),
{
    if s.len() > 0 && s[0].id@ != oid {
        lemma_order_index_props(s.drop_first(), oid);
        if order_index(s.drop_first(), oid) == -1 {
            assert forall|i: int| 0 <= i < s.len() implies s[i].id@ != oid by {
                if i > 0 {
                    assert(s.drop_first()[i - 1] == s[i]);
                }
            }
        } else {
            let r = order_index(s, oid);
            assert(s.drop_first()[r - 1] == s[r]);
            assert forall|i: int| 0 <= i < r implies s[i].id@ != oid by {
                if i > 0 {
                    assert(s.drop_first()[i - 1] == s[i]);
                }
            }
        }
    }
}

impl Store {
    pub fn find_product(&self, pid: &str) -> (r: Option<usize>)
        ensures
            ({
                let fi = product_index(self.products@, pid@);
                match r {
                    Some(j) => fi == j as int,
                    None => fi == -1,
                }
            }),
    {
        let n = self.products.len();
        let mut i: usize = 0;
        while i < n
            invariant
                n == self.products@.len(),
                i <= n,
                forall|j: int| 0 <= j < i ==> self.products@[j].id@ != pid@,
            decreases n - i,
        {
            if str_eq(self.products[i].id.as_str(), pid) {
                proof {
                    lemma_product_index_props(self.products@, pid@);
                }
                return Some(i);
            }
            i += 1;
        }
        proof {
            lemma_product_index_props(self.products@, pid@);
        }
        None
    }

    pub fn find_cart_pair(&self, uid: &str, pid: &str) -> (r: Option<usize>)
        ensures
            ({
                let fi = cart_pair_index(self.cart_items@, uid@, pid@);
                match r {
                    Some(j) => fi == j as int,
                    None => fi == -1,
                }
            }),
    {
        let n = self.cart_items.len();
        let mut i: usize = 0;
        while i < n
            invariant
                n == self.cart_items@.len(),
                i <= n,
                forall|j: int|
                    0 <= j < i ==> !(self.cart_items@[j].user_id@ == uid@
                        && self.cart_items@[j].product_id@ == pid@),
            decreases n - i,
        {
            if str_eq(self.cart_items[i].user_id.as_str(), uid) && str_eq(
                self.cart_items[i].product_id.as_str(),
                pid,
            ) {
                proof {
                    lemma_cart_pair_index_props(self.cart_items@, uid@, pid@);
                }
                return Some(i);
            }
            i += 1;
        }
        proof {
            lemma_cart_pair_index_props(self.cart_items@, uid@, pid@);
        }
        None
    }

    pub fn find_cart_entry(&self, iid: &str, uid: &str) -> (r: Option<usize>)
        ensures
            ({
                let fi = cart_entry_index(self.cart_items@, iid@, uid@);
                match r {
                    Some(j) => fi == j as int,
                    None => fi == -1,
                }
            }),
    {
        let n = self.cart_items.len();
        let mut i: usize = 0;
        while i < n
            invariant
                n == self.cart_items@.len(),
                i <= n,
                forall|j: int|
                    0 <= j < i ==> !(self.cart_items@[j].id@ == iid@ && self.cart_items@[j].user_id@
                        == uid@),
            decreases n - i,
        {
            if str_eq(self.cart_items[i].id.as_str(), iid) && str_eq(
                self.cart_items[i].user_id.as_str(),
                uid,
            ) {
                proof {
                    lemma_cart_entry_index_props(self.cart_items@, iid@, uid@);
                }
                return Some(i);
            }
            i += 1;
        }
        proof {
            lemma_cart_entry_index_props(self.cart_items@, iid@, uid@);
        }
        None
    }

    pub fn find_order(&self, oid: &str) -> (r: Option<usize>)
        ensures
            ({
                let fi = order_index(self.orders@, oid@);
                match r {
                    Some(j) => fi == j as int,
                    None => fi == -1,
                }
            }),
    {
        let n = self.orders.len();
        let mut i: usize = 0;
        while i < n
            invariant
                n == self.orders@.len(),
                i <= n,
                forall|j: int| 0 <= j < i ==> self.orders@[j].id@ != oid@,
            decreases n - i,
        {
            if str_eq(self.orders[i].id.as_str(), oid) {
                proof {
                    lemma_order_index_props(self.orders@, oid@);
                }
                return Some(i);
            }
            i += 1;
        }
        proof {
            lemma_order_index_props(self.orders@, oid@);
        }
        None
    }
}

// --- fresh keys and timestamps ---

/// Relies on uuid::Uuid::new_v4 and its Display form: a fresh random
/// version-4 UUID rendered as the 36-character hyphenated string. The value
/// is random; only its length is promised.
#[verifier::external_body]
pub(crate) fn fresh_id() -> (r: String)
    ensures
        r@.len() == 36,
{
    uuid::Uuid::new_v4().to_string()
}

/// Relies on chrono::Utc::now: the current time as seconds since the Unix
/// epoch. Nothing is promised of the value.
#[verifier::external_body]
pub(crate) fn now_ts() -> i64 {
    chrono::Utc::now().timestamp()
}

// --- value-equal copies of rows ---

impl CartItem {
    /// A copy equal to the row, field by field.
    pub fn duplicate(&self) -> (c: CartItem)
        ensures
            c == *self,
    {
        CartItem {
            id: self.id.clone(),
            user_id: self.user_id.clone(),
            product_id: self.product_id.clone(),
            quantity: self.quantity,
            created_at: self.created_at,
            updated_at: self.updated_at,
        }
    }
}

impl Order {
    /// A copy equal to the row, field by field.
    pub fn duplicate(&self) -> (o: Order)
        ensures
            o == *self,
    {
        Order {
            id: self.id.clone(),
            user_id: self.user_id.clone(),
            total: self.total,
            status: self.status,
            created_at: self.created_at,
            updated_at: self.updated_at,
        }
    }
}

impl OrderItem {
    /// A copy equal to the row, field by field.
    pub fn duplicate(&self) -> (o: OrderItem)
        ensures
            o == *self,
    {
        OrderItem {
            id: self.id.clone(),
            order_id: self.order_id.clone(),
            product_id: self.product_id.clone(),
            quantity: self.quantity,
            price: self.price,
        }
    }
}

impl Product {
    /// A copy equal to the row, field by field.
    pub fn duplicate(&self) -> (p: Product)
        ensures
            p == *self,
    {
        Product {
            id: self.id.clone(),
            name: self.name.clone(),
            description: self.description.clone(),
            price: self.price,
            vendor_id: self.vendor_id.clone(),
            stock: self.stock,
            created_at: self.created_at,
            updated_at: self.updated_at,
            category: match &self.category {
                Some(c) => Some(c.clone()),
                None => None,
            },
        }
    }
}

// --- row constructors ---

impl CartItem {
    pub fn new(user_id: String, product_id: String, quantity: i32) -> (c: CartItem)
        requires
            quantity >= 1,
        ensures
            c.user_id == user_id,
            c.product_id == product_id,
            c.quantity == quantity,
            c.created_at == c.updated_at,
            c.id@.len() == 36,
    {
        let now = now_ts();
        CartItem { id: fresh_id(), user_id, product_id, quantity, created_at: now, updated_at: now }
    }
}

impl Order {
    pub fn get_status(&self) -> (st: OrderStatus)
        ensures
            st == self.status,
    {
        self.status
    }

    pub fn new(user_id: String, total: u128) -> (o: Order)
        ensures
            o.user_id == user_id,
            o.total == total,
            o.status == OrderStatus::Pending,
            o.created_at == o.updated_at,
            o.id@.len() == 36,
    {
        let now = now_ts();
        Order {
            id: fresh_id(),
            user_id,
            total,
            status: OrderStatus::Pending,
            created_at: now,
            updated_at: now,
        }
    }
}

impl Product {
    /// Whether any stock is left.
    pub fn in_stock(&self) -> (r: bool)
        ensures
            r == (self.stock > 0),
    {
        self.stock > 0
    }

    pub fn new(
        name: String,
        description: String,
        price: u32,
        vendor_id: String,
        stock: i32,
        category: Option<String>,
    ) -> (p: Product)
        requires
            stock >= 0,
        ensures
            p.name == name,
            p.description == description,
            p.price == price,
            p.vendor_id == vendor_id,
            p.stock == stock,
            p.category == category,
            p.created_at == p.updated_at,
            p.id@.len() == 36,
    {
        let now = now_ts();
        Product {
            id: fresh_id(),
            name,
            description,
            price,
            vendor_id,
            stock,
            created_at: now,
            updated_at: now,
            category,
        }
    }
}

} // verus!
