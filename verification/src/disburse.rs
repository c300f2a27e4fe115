//! The splitting of a commission among payees, each by his share.

pub mod contract;
pub mod error;
pub mod msg;
pub mod state;
