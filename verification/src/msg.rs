//! What the guestbook is asked, and what it answers.

use vstd::prelude::*;
use crate::codec::Coordinates;
use crate::state::{Coin, Config, Entry};

verus! {

/// Creates the guestbook.
#[derive(Clone, Debug, PartialEq)]
pub struct InstantiateMsg {
    pub config: Config,
}

/// A request that changes the guestbook.
#[derive(Clone, Debug, PartialEq)]
pub enum ExecuteMsg {
    CreateEntry { author_xyz_id: String, text: String },
    Withdraw { amount: Vec<Coin> },
}

/// A request that reads the guestbook.
#[derive(Clone, Debug, PartialEq)]
pub enum QueryMsg {
    Entry { author_xyz_id: String, coordinates: Coordinates },
    EntriesForXyz { author_xyz_id: String, start_after: Option<String>, limit: Option<u32> },
    EntriesForCoordinates {
        coordinates: Coordinates,
        start_after: Option<String>,
        limit: Option<u32>,
    },
    Config {  },
}

/// One page of entries.
#[derive(Clone, Debug, PartialEq)]
pub struct EntriesResponse {
    pub entries: Vec<Entry>,
}

/// What a query answers, by the kind of the query.
#[derive(Clone, Debug, PartialEq)]
pub enum QueryResponse {
    Entry(Entry),
    Entries(EntriesResponse),
    Config(Config),
}

/// A key and a value that a successful operation reports.
#[derive(Clone, Debug, PartialEq)]
pub struct Attribute {
    pub key: String,
    pub value: String,
}

/// An instruction to pay `amount` out to `to_address`.
#[derive(Clone, Debug, PartialEq)]
pub struct BankSend {
    pub to_address: String,
    pub amount: Vec<Coin>,
}

/// What a successful operation hands back to the host.
#[derive(Clone, Debug, PartialEq)]
pub struct Response {
    pub attributes: Vec<Attribute>,
    pub messages: Vec<BankSend>,
}

} // verus!
