//! The messages that the shop sends: what they say and to whom they go.

pub mod body;
pub mod compose;
pub mod settings;
