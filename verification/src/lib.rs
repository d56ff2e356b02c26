//! A location-tagged guestbook: holders of a positioned token leave one text
//! entry per coordinate they occupy, for a fee.
//!
//! The entries live in a `cosmwasm_std` storage, laid out by `cw_storage_plus`
//! as one primary map and two multi-indexes. Every call into those crates goes
//! through a small trusted function whose doc comment says what is taken on
//! trust; everything around those calls is verified.

pub mod codec;
pub mod contract;
pub mod error;
pub mod msg;
pub mod paging;
pub mod state;
pub mod store;

pub use crate::error::ContractError;
