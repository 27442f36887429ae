//! An investment vault, verified.
//!
//! Investors deposit USDC and get shares; the vault funds projects with the deposits and
//! redeems the shares. [`model`] says what a vault is and what each request does to it,
//! [`vault::InvestmentVault`] carries the requests out, [`outcomes`] says in plain numbers what
//! each of them comes to, and [`laws`] holds what is true of vaults across requests.

#![allow(unused_imports)]

pub mod accounts;
pub mod admin;
pub mod deposits;
pub mod error;
pub mod flash;
pub mod funding;
pub mod host;
pub mod laws;
pub mod model;
pub mod outcomes;
pub mod ownership;
pub mod sums;
pub mod table;
pub mod types;
pub mod vault;
pub mod withdrawals;
