//! A peer-to-peer escrow for swapping one unique asset against one payment.
//!
//! A seller lists an asset for a named buyer, a trusted arbiter confirms or
//! rejects the listing and fixes the fee fractions, and the buyer then pays
//! price plus fee to have the asset moved and the funds split. The library
//! keeps the table of open trades with its secondary indices, decides every
//! state transition, and returns the instructions that the host carries out.

pub mod contract;
pub mod disburse;
pub mod error;
pub mod execute;
pub mod helpers;
pub mod index;
pub mod lex;
pub mod math;
pub mod msg;
pub mod sorted;
pub mod payment;
pub mod query;
pub mod response;
pub mod state;
pub mod store;
