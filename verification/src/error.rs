//! Why an operation of the shop is refused.

use vstd::prelude::*;

verus! {

/// Why a checkout, or one of its steps, was refused.
#[derive(Clone, Copy, Debug, PartialEq, Eq, Structural)]
pub enum CheckoutError {
    /// The cart is empty, a line asks for no units or fewer, or a line names a
    /// product or a size that the catalog does not hold.
    ValidationError,
    /// A reservation asked for more units than the counter holds.
    InsufficientStock,
    /// The store could not take the transaction.
    PersistenceError,
}

/// The confirmation message for an order could not be composed or sent.
#[derive(Clone, Copy, Debug, PartialEq, Eq, Structural)]
pub enum NotificationError {
    /// The mail settings are incomplete or malformed.
    Settings,
    /// An address is not one that the mail library accepts.
    Address,
    /// The mail library refused to build the message.
    Message,
    /// The transport failed to deliver the message.
    Delivery,
}

} // verus!
