//! The records the guestbook keeps and the values it is handed.

use vstd::prelude::*;
use crate::codec::Coordinates;

verus! {

/// What a stored entry is, as plain values: author, location, text.
pub type EntryModel = (Seq<char>, (i64, i64, i64), Seq<char>);

/// An amount of one denomination.
#[derive(Clone, Debug, PartialEq)]
pub struct Coin {
    pub denom: String,
    pub amount: u128,
}

impl View for Coin {
    type V = (Seq<char>, u128);

    open spec fn view(&self) -> (Seq<char>, u128) {
        (self.denom@, self.amount)
    }
}

/// Set once when the guestbook is created, read-only afterwards.
#[derive(Clone, Debug, PartialEq)]
pub struct Config {
    /// The address of the token registry.
    pub xyz_nft_contract: String,
    /// The longest text an entry may hold, in bytes.
    pub character_limit: u32,
    /// The fee required to leave an entry.
    pub entry_fee: Coin,
}

/// One guestbook post.
#[derive(Clone, Debug, PartialEq)]
pub struct Entry {
    /// The token that wrote the entry.
    pub author_xyz_id: String,
    /// Where the token stood when it wrote.
    pub coordinates: Coordinates,
    /// The text of the entry.
    pub text: String,
}

impl View for Entry {
    type V = EntryModel;

    open spec fn view(&self) -> EntryModel {
        (self.author_xyz_id@, self.coordinates@, self.text@)
    }
}

/// What the registry reports of a token.
#[derive(Clone, Debug, PartialEq)]
pub struct TokenInfo {
    /// The address that holds the token.
    pub owner: String,
    /// Where the token is, or is travelling to.
    pub coordinates: Coordinates,
    /// When the token arrives there, in nanoseconds since the epoch.
    pub arrival: u64,
}

} // verus!
