//! Credential handling for a small user-management service: salted and
//! peppered password hashes, signed session tokens with an absolute expiry,
//! and the decisions that connect the two to login and to request guarding.

pub mod jwt_impl;
pub mod models;
pub mod pw_hashing;
pub mod routes;
pub mod settings;
