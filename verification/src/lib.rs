//! Control plane of a remote-access VPN client: the session state machine,
//! its observers, and the recognition of the redirect that ends a federated
//! login.

pub mod auth;
pub mod error;
pub mod observer;
pub mod recognizer;
pub mod session;
pub mod status;
