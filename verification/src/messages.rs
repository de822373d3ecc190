//! The bodies of the messages, one module for each.

pub mod admin;
pub mod beacon;
pub mod channel;
pub mod channel_data;
pub mod channel_init;
pub mod echo;
pub mod into;
pub mod search;
pub mod status;
pub mod validation;
