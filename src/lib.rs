//! Credential issuance and account records for an exchange backend.

pub mod error;
pub mod credential;
pub mod token;
pub mod user;
pub mod auth;
pub mod amount;
pub mod order;
pub mod balance;
