//! Verified core of a multi-role shop backend.
//!
//! The crate models the state a storefront keeps — products, per-user carts,
//! orders and their line items — and implements the operations on it:
//! cart maintenance, the checkout engine that converts a cart into a priced,
//! stock-validated order, the order status machine, catalog maintenance,
//! and the input validators used at the account boundary.
//!
//! Every operation carries a contract; the store's well-formedness (unique
//! cart entries, positive quantities, non-negative stock) is an invariant
//! that all operations preserve.

pub mod auth;
pub mod cart;
pub mod checkout;
pub mod orders;
pub mod products;
pub mod role;
pub mod seqs;
pub mod status;
pub mod store;
pub mod text;
pub mod validators;
