//! A local secret store: secrets are kept encrypted under a key derived from
//! one master password, and listed only in masked form.
pub mod text;
pub mod mask;
pub mod error;
pub mod model;
pub mod crypto;
pub mod auth;
pub mod vault;
pub mod listing;
pub mod store;
pub mod confirm;
