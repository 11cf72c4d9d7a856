//! Shared-expense ledger: splitting expenses into shares, netting balances
//! between members of a group, two-party settlement, loyalty tracking and
//! overdue notifications, with the users and groups they concern.

pub mod money;
pub mod date;
pub mod search;
pub mod validate;
pub mod auth;
pub mod debt;
pub mod settlement;
pub mod user;
pub mod group;
pub mod notification;
pub mod expenses;
pub mod model;
pub mod ledger;
pub mod laws;
pub mod screens;
