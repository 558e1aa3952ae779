//! A support-ticketing core: credentials, session tokens, and the ticket, comment and
//! notification store, with the rules of each stated and proved.

pub mod credential;
pub mod error;
pub mod model;
pub mod notify;
pub mod store;
pub mod token;
