//! Order checkout for a small online shop: a product catalog, per-size stock
//! counters, and the transaction that turns a cart into a committed order
//! with its items, its shipping address and its payment.
//!
//! [`checkout::checkout`] is the whole operation on a [`store::Store`].
//! Where the store's tables live elsewhere, [`checkout::prepare_checkout`]
//! does everything up to the commit and [`checkout::PendingCheckout::finish`]
//! takes the outcome of the commit. [`state::StoreView`] is the state of a
//! store as a value; every contract is stated over it, and [`laws`] says what
//! follows for all states.

pub mod catalog;
pub mod checkout;
pub mod error;
pub mod inventory;
pub mod laws;
pub mod mail;
pub mod order;
pub mod schema;
pub mod state;
pub mod store;
pub mod text;
pub mod user;
