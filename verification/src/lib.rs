//! Core of a push-notification gateway: debouncing of device tokens,
//! routing of tokens to a push provider, and the decisions taken around a
//! single delivery attempt.

pub mod apns;
pub mod apns_client;
pub mod debouncer;
pub mod fcm;
pub mod gateway;
pub mod heartbeat;
pub mod history;
pub mod outcome;
pub mod text;
pub mod token;
