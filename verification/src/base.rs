//! Accounts and schools.

pub mod account;
pub mod schools;
