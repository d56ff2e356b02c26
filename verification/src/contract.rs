//! The operations of the guestbook: the checks a new entry passes, the
//! withdrawal of fees, and the queries.

use vstd::prelude::*;
use vstd::string::{to_string_from_display_ensures, StringSliceAdditionalSpecFns};
use vstd::utf8::encode_utf8;
use cosmwasm_std::{Deps, DepsMut, StdError, Timestamp};
use cw_storage_plus::Item;
use crate::codec::{coordinate_bytes, coordinates_to_bytes, entries_key, key_bytes, Coordinates};
use crate::error::ContractError;
use crate::msg::{Attribute, BankSend, EntriesResponse, ExecuteMsg, QueryMsg, QueryResponse, Response};
use crate::paging::{effective_limit, is_page, page_limit};
use crate::state::{Coin, Config, Entry, EntryModel, TokenInfo};
use crate::store::{
    entries_of, entry_rows, entry_rows_mut, fits_prefix, get, index_rows, index_rows_mut,
    index_with, insert_if_absent, models, owner_text, owner_text_mut, reader, rows_with,
    scan_by_author, scan_by_coordinates,
};

verus! {

/// The length of a text as the character limit counts it: its UTF-8 bytes.
pub open spec fn text_len(text: Seq<char>) -> nat {
    encode_utf8(text).len()
}

/// One coin pays the fee: the denomination is the fee's and the amount is
/// at least the fee's.
pub open spec fn pays(coin: Coin, fee: Coin) -> bool {
    coin.denom@ == fee.denom@ && coin.amount >= fee.amount
}

/// Some attached coin pays the fee.
pub open spec fn fee_paid(funds: Seq<Coin>, fee: Coin) -> bool {
    exists|i: int| 0 <= i < funds.len() && pays(#[trigger] funds[i], fee)
}

/// Whether some attached coin pays the fee.
pub fn covers_fee(funds: &Vec<Coin>, fee: &Coin) -> (r: bool)
    ensures
        r == fee_paid(funds@, *fee),
{
    let mut i: usize = 0;
    while i < funds.len()
        invariant
            i <= funds.len(),
            forall|j: int| 0 <= j < i ==> !pays(#[trigger] funds[j], *fee),
        decreases funds.len() - i,
    {
        if funds[i].denom == fee.denom && funds[i].amount >= fee.amount {
            return true;
        }
        i += 1;
    }
    false
}

/// The local checks of a new entry, made before the registry is asked: the
/// text fits the character limit, then the fee is paid.
pub fn check_request(config: &Config, text: &String, funds: &Vec<Coin>) -> (r: Result<
    (),
    ContractError,
>)
    ensures
        match r {
            Ok(()) => text_len(text@) <= config.character_limit && fee_paid(
                funds@,
                config.entry_fee,
            ),
            Err(ContractError::CharacterLimitExceeded {  }) => text_len(text@)
                > config.character_limit,
            Err(ContractError::InsufficientFunds {  }) => text_len(text@) <= config.character_limit
                && !fee_paid(funds@, config.entry_fee),
            Err(_) => false,
        },
{
    if text.as_str().as_bytes().len() > config.character_limit as usize {
        return Err(ContractError::CharacterLimitExceeded {  });
    }
    if !covers_fee(funds, &config.entry_fee) {
        return Err(ContractError::InsufficientFunds {  });
    }
    Ok(())
}

/// Trusted: `collectxyz::nft::XyzExtension::has_arrived`, which compares the
/// arrival time with the current time. The contract claims that a token has
/// arrived exactly where its arrival is not later than `now`, both in
/// nanoseconds.
#[verifier::external_body]
pub(crate) fn has_arrived(token: &TokenInfo, now: u64) -> (r: bool)
    ensures
        r == (token.arrival <= now),
{
    let at = token.coordinates;
    collectxyz::nft::XyzExtension {
        coordinates: collectxyz::nft::Coordinates { x: at.x, y: at.y, z: at.z },
        prev_coordinates: None,
        arrival: Timestamp::from_nanos(token.arrival),
    }.has_arrived(Timestamp::from_nanos(now))
}

/// Trusted: `cosmwasm_std::QuerierWrapper::query_wasm_smart`, asked for
/// `XyzNftInfo` of one token. What the registry answers is not known here,
/// so nothing is claimed of the result.
#[verifier::external_body]
pub(crate) fn query_token(deps: Deps, registry: &String, token_id: &String) -> (r: Result<
    TokenInfo,
    StdError,
>) {
    let msg = collectxyz::nft::QueryMsg::XyzNftInfo { token_id: token_id.clone() };
    let xyz: collectxyz::nft::XyzTokenInfo = deps.querier.query_wasm_smart(registry.clone(), &msg)?;
    let at = xyz.extension.coordinates;
    let coordinates = Coordinates { x: at.x, y: at.y, z: at.z };
    Ok(TokenInfo { owner: xyz.owner.into_string(), coordinates, arrival: xyz.extension.arrival.nanos() })
}

/// The checks on what the registry reports: the sender holds the token, then
/// the token has arrived.
pub fn check_token(sender: &String, token: &TokenInfo, now: u64) -> (r: Result<(), ContractError>)
    ensures
        match r {
            Ok(()) => token.owner@ == sender@ && token.arrival <= now,
            Err(ContractError::Unauthorized {  }) => token.owner@ != sender@,
            Err(ContractError::RelocationInProgress {  }) => token.owner@ == sender@ && now
                < token.arrival,
            Err(_) => false,
        },
{
    if token.owner != *sender {
        return Err(ContractError::Unauthorized {  });
    }
    if !has_arrived(token, now) {
        return Err(ContractError::RelocationInProgress {  });
    }
    Ok(())
}

/// The text is the decimal form of the number, as `to_string` writes it.
pub open spec fn is_decimal(v: i64, text: String) -> bool {
    to_string_from_display_ensures::<i64>(&v, text)
}

/// The report of a created entry: the action, the token and the three
/// components of its location in decimal, and no instruction.
pub open spec fn reports_entry(resp: Response, author: Seq<char>, at: (i64, i64, i64)) -> bool {
    &&& resp.messages@.len() == 0
    &&& resp.attributes@.len() == 5
    &&& resp.attributes@[0].key@ == "action"@
    &&& resp.attributes@[0].value@ == "entry_created"@
    &&& resp.attributes@[1].key@ == "xyz_id"@
    &&& resp.attributes@[1].value@ == author
    &&& resp.attributes@[2].key@ == "xyz_coordinates_x"@
    &&& is_decimal(at.0, resp.attributes@[2].value)
    &&& resp.attributes@[3].key@ == "xyz_coordinates_y"@
    &&& is_decimal(at.1, resp.attributes@[3].value)
    &&& resp.attributes@[4].key@ == "xyz_coordinates_z"@
    &&& is_decimal(at.2, resp.attributes@[4].value)
}

/// The storage after the call holds what it held before and the entry `e`
/// under its own key, which was free, with one row in each index.
pub open spec fn entry_added(before: DepsMut, after: DepsMut, e: EntryModel) -> bool {
    &&& !entry_rows_mut(before).contains_key(key_bytes(e.0, e.1))
    &&& entry_rows_mut(after) == rows_with(entry_rows_mut(before), e)
    &&& index_rows_mut(after) == index_with(index_rows_mut(before), e)
}

/// The storage holds after the call what it held before.
pub open spec fn untouched(before: DepsMut, after: DepsMut) -> bool {
    &&& entry_rows_mut(after) == entry_rows_mut(before)
    &&& index_rows_mut(after) == index_rows_mut(before)
}

/// What posting an entry comes to once the registry has answered with
/// `token`: the result `r` and the storage after the call.
pub open spec fn posted(
    before: DepsMut,
    after: DepsMut,
    sender: Seq<char>,
    author: Seq<char>,
    text: Seq<char>,
    now: u64,
    token: TokenInfo,
    r: Result<Response, ContractError>,
) -> bool {
    let e = (author, token.coordinates@, text);
    if token.owner@ != sender {
        r == Err::<Response, ContractError>(ContractError::Unauthorized {  }) && untouched(
            before,
            after,
        )
    } else if now < token.arrival {
        r == Err::<Response, ContractError>(ContractError::RelocationInProgress {  })
            && untouched(before, after)
    } else {
        match r {
            Ok(resp) => entry_added(before, after, e) && reports_entry(resp, author, e.1),
            Err(ContractError::EntryAlreadyExists {  }) => entry_rows_mut(before).contains_key(
                key_bytes(e.0, e.1),
            ) && untouched(before, after),
            Err(ContractError::Std(_)) => entry_rows_mut(after) == entry_rows_mut(before),
            Err(_) => false,
        }
    }
}

fn attribute(key: &str, value: String) -> (r: Attribute)
    ensures
        r.key@ == key@,
        r.value == value,
{
    Attribute { key: key.to_owned(), value }
}

/// The second half of creating an entry, from the registry's answer on: a
/// miss is passed on as it came; then the sender must hold the token and the
/// token must have arrived; then the entry is written at the token's own
/// location, unless the token has already written there.
pub fn post_entry(
    deps: &mut DepsMut,
    sender: &String,
    author_xyz_id: String,
    text: String,
    now: u64,
    lookup: Result<TokenInfo, StdError>,
) -> (r: Result<Response, ContractError>)
    requires
        fits_prefix(author_xyz_id@),
    ensures
        match lookup {
            Err(miss) => r == Err::<Response, ContractError>(ContractError::Std(miss))
                && untouched(*old(deps), *final(deps)),
            Ok(token) => posted(
                *old(deps),
                *final(deps),
                sender@,
                author_xyz_id@,
                text@,
                now,
                token,
                r,
            ),
        },
{
    let token = match lookup {
        Err(miss) => {
            return Err(ContractError::Std(miss));
        },
        Ok(token) => token,
    };
    match check_token(sender, &token, now) {
        Err(refusal) => {
            return Err(refusal);
        },
        Ok(()) => {},
    }
    let at = token.coordinates;
    let new_entry = Entry { author_xyz_id: author_xyz_id.clone(), coordinates: at, text };
    let new_entry_key = entries_key(author_xyz_id.clone(), at);
    match insert_if_absent(deps, &new_entry_key, &new_entry) {
        Err(refusal) => {
            return Err(refusal);
        },
        Ok(()) => {},
    }
    let mut attributes: Vec<Attribute> = Vec::new();
    attributes.push(attribute("action", "entry_created".to_owned()));
    attributes.push(attribute("xyz_id", author_xyz_id));
    attributes.push(attribute("xyz_coordinates_x", at.x.to_string()));
    attributes.push(attribute("xyz_coordinates_y", at.y.to_string()));
    attributes.push(attribute("xyz_coordinates_z", at.z.to_string()));
    Ok(Response { attributes, messages: Vec::new() })
}

/// What creating an entry comes to, as far as it does not hang on the
/// registry's answer: the two local checks decide first and exactly; behind
/// them, success means one new entry of this author with this text, and
/// every refusal leaves the entries as they were.
pub open spec fn create_entry_outcome(
    before: DepsMut,
    after: DepsMut,
    config: Config,
    funds: Seq<Coin>,
    author: Seq<char>,
    text: Seq<char>,
    r: Result<Response, ContractError>,
) -> bool {
    &&& (r matches Err(ContractError::CharacterLimitExceeded {  })) <==> text_len(text)
        > config.character_limit
    &&& (r matches Err(ContractError::InsufficientFunds {  })) <==> text_len(text)
        <= config.character_limit && !fee_paid(funds, config.entry_fee)
    &&& match r {
        Ok(resp) => exists|at: (i64, i64, i64)|
            {
                &&& #[trigger] entry_added(before, after, (author, at, text))
                &&& reports_entry(resp, author, at)
            },
        Err(ContractError::EntryAlreadyExists {  }) => {
            &&& untouched(before, after)
            &&& exists|at: (i64, i64, i64)| #[trigger]
                entry_rows_mut(before).contains_key(key_bytes(author, at))
        },
        Err(ContractError::Std(_)) => entry_rows_mut(after) == entry_rows_mut(before),
        Err(ContractError::NotFound {  }) => false,
        Err(_) => untouched(before, after),
    }
}

/// Creates an entry for the token `author_xyz_id` at the place where the
/// registry says the token is.
///
/// The checks run in a fixed order and the first that fails decides: the
/// character limit, the fee, the registry's answer, the holder, the arrival,
/// and last whether the token has already written at that place. Only the
/// last step writes.
pub fn execute_create_entry(
    deps: &mut DepsMut,
    config: &Config,
    now: u64,
    sender: &String,
    funds: &Vec<Coin>,
    author_xyz_id: String,
    text: String,
) -> (r: Result<Response, ContractError>)
    requires
        fits_prefix(author_xyz_id@),
    ensures
        create_entry_outcome(*old(deps), *final(deps), *config, funds@, author_xyz_id@, text@, r),
{
    match check_request(config, &text, funds) {
        Err(refusal) => {
            return Err(refusal);
        },
        Ok(()) => {},
    }
    let lookup = query_token(reader(deps), &config.xyz_nft_contract, &author_xyz_id);
    let ghost answer = lookup;
    let r = post_entry(deps, sender, author_xyz_id, text, now, lookup);
    proof {
        if let Ok(token) = answer {
            assert(posted(
                *old(deps),
                *deps,
                sender@,
                author_xyz_id@,
                text@,
                now,
                token,
                r,
            ));
            if r.is_ok() {
                assert(entry_added(
                    *old(deps),
                    *deps,
                    (author_xyz_id@, token.coordinates@, text@),
                ));
            }
        }
    }
    r
}

/// Trusted: `cw_storage_plus::Item::load` on the owner's address. Where it
/// succeeds, the contract claims that it returns what the storage holds.
#[verifier::external_body]
pub(crate) fn load_owner(deps: Deps) -> (r: Result<String, StdError>)
    ensures
        r matches Ok(owner) ==> owner@ == owner_text(deps),
{
    Item::<String>::new("owner").load(deps.storage)
}

/// Trusted: `cw_storage_plus::Item::save` on the owner's address. It sets
/// the address under a key of its own, so the entries and their indexes are
/// not touched; where serialising fails it writes nothing.
#[verifier::external_body]
pub(crate) fn save_owner(deps: &mut DepsMut, owner: &String) -> (r: Result<(), StdError>)
    ensures
        untouched(*old(deps), *final(deps)),
        r.is_ok() ==> owner_text_mut(*final(deps)) == owner@,
        r.is_err() ==> owner_text_mut(*final(deps)) == owner_text_mut(*old(deps)),
{
    Item::<String>::new("owner").save(deps.storage, owner)
}

/// Makes the sender the owner of the guestbook, the one address that may
/// withdraw the fees.
pub fn instantiate(deps: &mut DepsMut, sender: &String) -> (r: Result<Response, ContractError>)
    ensures
        untouched(*old(deps), *final(deps)),
        match r {
            Ok(resp) => {
                &&& owner_text_mut(*final(deps)) == sender@
                &&& resp.messages@.len() == 0
                &&& resp.attributes@.len() == 2
                &&& resp.attributes@[0].key@ == "method"@
                &&& resp.attributes@[0].value@ == "instantiate"@
                &&& resp.attributes@[1].key@ == "owner"@
                &&& resp.attributes@[1].value@ == sender@
            },
            Err(ContractError::Std(_)) => owner_text_mut(*final(deps)) == owner_text_mut(
                *old(deps),
            ),
            Err(_) => false,
        },
{
    match save_owner(deps, sender) {
        Err(fault) => {
            return Err(ContractError::Std(fault));
        },
        Ok(()) => {},
    }
    let mut attributes: Vec<Attribute> = Vec::new();
    attributes.push(attribute("method", "instantiate".to_owned()));
    attributes.push(attribute("owner", sender.clone()));
    Ok(Response { attributes, messages: Vec::new() })
}

/// Decides a withdrawal: only the owner may withdraw, and the owner is paid
/// exactly what was asked for.
pub fn withdraw(sender: &String, owner: String, amount: Vec<Coin>) -> (r: Result<
    Response,
    ContractError,
>)
    ensures
        match r {
            Ok(resp) => {
                &&& sender@ == owner@
                &&& resp.attributes@.len() == 0
                &&& resp.messages@.len() == 1
                &&& resp.messages@[0].to_address == owner
                &&& resp.messages@[0].amount == amount
            },
            Err(ContractError::Unauthorized {  }) => sender@ != owner@,
            Err(_) => false,
        },
{
    if *sender != owner {
        return Err(ContractError::Unauthorized {  });
    }
    let mut messages: Vec<BankSend> = Vec::new();
    messages.push(BankSend { to_address: owner, amount });
    Ok(Response { attributes: Vec::new(), messages })
}

/// What a withdrawal comes to, given the owner that the storage holds: the
/// owner is paid exactly what was asked for, anyone else is refused.
pub open spec fn withdraw_outcome(
    owner: Seq<char>,
    sender: Seq<char>,
    amount: Vec<Coin>,
    r: Result<Response, ContractError>,
) -> bool {
    match r {
        Ok(resp) => {
            &&& sender == owner
            &&& resp.attributes@.len() == 0
            &&& resp.messages@.len() == 1
            &&& resp.messages@[0].to_address@ == sender
            &&& resp.messages@[0].amount == amount
        },
        Err(ContractError::Unauthorized {  }) => sender != owner,
        Err(ContractError::Std(_)) => true,
        Err(_) => false,
    }
}

/// Pays `amount` out to the owner, if it is the owner who asks.
pub fn execute_withdraw(deps: Deps, sender: &String, amount: Vec<Coin>) -> (r: Result<
    Response,
    ContractError,
>)
    ensures
        withdraw_outcome(owner_text(deps), sender@, amount, r),
{
    match load_owner(deps) {
        Err(fault) => Err(ContractError::Std(fault)),
        Ok(owner) => withdraw(sender, owner, amount),
    }
}

/// Carries out a request that changes the guestbook.
pub fn execute(
    deps: &mut DepsMut,
    config: &Config,
    now: u64,
    sender: &String,
    funds: &Vec<Coin>,
    msg: ExecuteMsg,
) -> (r: Result<Response, ContractError>)
    requires
        msg matches ExecuteMsg::CreateEntry { author_xyz_id, .. } ==> fits_prefix(author_xyz_id@),
    ensures
        match msg {
            ExecuteMsg::CreateEntry { author_xyz_id, text } => create_entry_outcome(
                *old(deps),
                *final(deps),
                *config,
                funds@,
                author_xyz_id@,
                text@,
                r,
            ),
            ExecuteMsg::Withdraw { amount } => {
                &&& untouched(*old(deps), *final(deps))
                &&& withdraw_outcome(owner_text_mut(*old(deps)), sender@, amount, r)
            },
        },
{
    match msg {
        ExecuteMsg::CreateEntry { author_xyz_id, text } => execute_create_entry(
            deps,
            config,
            now,
            sender,
            funds,
            author_xyz_id,
            text,
        ),
        ExecuteMsg::Withdraw { amount } => execute_withdraw(
            reader(deps),
            sender,
            amount,
        ),
    }
}

/// The cursor of a request, as the bytes that keys are compared with.
pub open spec fn cursor_bytes(start_after: Option<String>) -> Option<Seq<u8>> {
    match start_after {
        Some(text) => Some(encode_utf8(text@)),
        None => None,
    }
}

fn cursor_of(start_after: Option<String>) -> (r: Option<Vec<u8>>)
    ensures
        crate::store::cursor_model(r) == cursor_bytes(start_after),
{
    match start_after {
        None => None,
        Some(text) => {
            let mut bytes: Vec<u8> = Vec::new();
            bytes.extend_from_slice(text.as_str().as_bytes());
            Some(bytes)
        },
    }
}

/// The entry that a token wrote at a place.
pub fn query_entry(deps: Deps, author_xyz_id: String, coordinates: Coordinates) -> (r: Result<
    Entry,
    ContractError,
>)
    ensures
        match r {
            Ok(entry) => {
                &&& entry_rows(deps).contains_key(key_bytes(author_xyz_id@, coordinates@))
                &&& entry_rows(deps)[key_bytes(author_xyz_id@, coordinates@)] == entry@
            },
            Err(ContractError::NotFound {  }) => !entry_rows(deps).contains_key(
                key_bytes(author_xyz_id@, coordinates@),
            ),
            Err(ContractError::Std(_)) => true,
            Err(_) => false,
        },
{
    let key = entries_key(author_xyz_id, coordinates);
    get(deps, &key)
}

/// One page of the entries that a token wrote, in ascending order of
/// primary key, from strictly behind `start_after`.
pub fn query_entries_for_xyz(
    deps: Deps,
    author_xyz_id: String,
    start_after: Option<String>,
    limit: Option<u32>,
) -> (r: Result<EntriesResponse, ContractError>)
    requires
        fits_prefix(author_xyz_id@),
    ensures
        match r {
            Ok(resp) => exists|page: Seq<(Seq<u8>, EntryModel)>|
                {
                    &&& #[trigger] is_page(
                        index_rows(deps),
                        entry_rows(deps),
                        true,
                        encode_utf8(author_xyz_id@),
                        cursor_bytes(start_after),
                        effective_limit(limit),
                        page,
                    )
                    &&& models(resp.entries@) == entries_of(page)
                },
            Err(ContractError::Std(_)) => true,
            Err(_) => false,
        },
{
    let limit = page_limit(limit);
    let start = cursor_of(start_after);
    match scan_by_author(deps, &author_xyz_id, start, limit) {
        Err(fault) => Err(fault),
        Ok(entries) => Ok(EntriesResponse { entries }),
    }
}

/// One page of the entries written at a place, in ascending order of
/// primary key, from strictly behind `start_after`.
pub fn query_entries_for_coordinates(
    deps: Deps,
    coordinates: Coordinates,
    start_after: Option<String>,
    limit: Option<u32>,
) -> (r: Result<EntriesResponse, ContractError>)
    ensures
        match r {
            Ok(resp) => exists|page: Seq<(Seq<u8>, EntryModel)>|
                {
                    &&& #[trigger] is_page(
                        index_rows(deps),
                        entry_rows(deps),
                        false,
                        coordinate_bytes(coordinates@),
                        cursor_bytes(start_after),
                        effective_limit(limit),
                        page,
                    )
                    &&& models(resp.entries@) == entries_of(page)
                },
            Err(ContractError::Std(_)) => true,
            Err(_) => false,
        },
{
    let limit = page_limit(limit);
    let start = cursor_of(start_after);
    let at = coordinates_to_bytes(coordinates);
    match scan_by_coordinates(deps, &at, start, limit) {
        Err(fault) => Err(fault),
        Ok(entries) => Ok(EntriesResponse { entries }),
    }
}

fn copy_config(config: &Config) -> (r: Config)
    ensures
        r == *config,
{
    Config {
        xyz_nft_contract: config.xyz_nft_contract.clone(),
        character_limit: config.character_limit,
        entry_fee: Coin { denom: config.entry_fee.denom.clone(), amount: config.entry_fee.amount },
    }
}

/// The settings of the guestbook.
pub fn query_config(config: &Config) -> (r: Config)
    ensures
        r == *config,
{
    copy_config(config)
}

/// What a query must answer, by the kind of the query.
pub open spec fn answers(
    deps: Deps,
    config: Config,
    msg: QueryMsg,
    r: Result<QueryResponse, ContractError>,
) -> bool {
    match msg {
        QueryMsg::Entry { author_xyz_id, coordinates } => match r {
            Ok(QueryResponse::Entry(entry)) => {
                &&& entry_rows(deps).contains_key(key_bytes(author_xyz_id@, coordinates@))
                &&& entry_rows(deps)[key_bytes(author_xyz_id@, coordinates@)] == entry@
            },
            Err(ContractError::NotFound {  }) => !entry_rows(deps).contains_key(
                key_bytes(author_xyz_id@, coordinates@),
            ),
            Err(ContractError::Std(_)) => true,
            _ => false,
        },
        QueryMsg::EntriesForXyz { author_xyz_id, start_after, limit } => match r {
            Ok(QueryResponse::Entries(resp)) => exists|page: Seq<(Seq<u8>, EntryModel)>|
                {
                    &&& #[trigger] is_page(
                        index_rows(deps),
                        entry_rows(deps),
                        true,
                        encode_utf8(author_xyz_id@),
                        cursor_bytes(start_after),
                        effective_limit(limit),
                        page,
                    )
                    &&& models(resp.entries@) == entries_of(page)
                },
            Err(ContractError::Std(_)) => true,
            _ => false,
        },
        QueryMsg::EntriesForCoordinates { coordinates, start_after, limit } => match r {
            Ok(QueryResponse::Entries(resp)) => exists|page: Seq<(Seq<u8>, EntryModel)>|
                {
                    &&& #[trigger] is_page(
                        index_rows(deps),
                        entry_rows(deps),
                        false,
                        coordinate_bytes(coordinates@),
                        cursor_bytes(start_after),
                        effective_limit(limit),
                        page,
                    )
                    &&& models(resp.entries@) == entries_of(page)
                },
            Err(ContractError::Std(_)) => true,
            _ => false,
        },
        QueryMsg::Config {  } => r == Ok::<QueryResponse, ContractError>(
            QueryResponse::Config(config),
        ),
    }
}

/// Answers a request that reads the guestbook.
pub fn query(deps: Deps, config: &Config, msg: QueryMsg) -> (r: Result<
    QueryResponse,
    ContractError,
>)
    requires
        msg matches QueryMsg::EntriesForXyz { author_xyz_id, .. } ==> fits_prefix(author_xyz_id@),
    ensures
        answers(deps, *config, msg, r),
{
    match msg {
        QueryMsg::Entry { author_xyz_id, coordinates } => {
            match query_entry(deps, author_xyz_id, coordinates) {
                Err(refusal) => Err(refusal),
                Ok(entry) => Ok(QueryResponse::Entry(entry)),
            }
        },
        QueryMsg::EntriesForXyz { author_xyz_id, start_after, limit } => {
            match query_entries_for_xyz(deps, author_xyz_id, start_after, limit) {
                Err(refusal) => Err(refusal),
                Ok(resp) => Ok(QueryResponse::Entries(resp)),
            }
        },
        QueryMsg::EntriesForCoordinates { coordinates, start_after, limit } => {
            match query_entries_for_coordinates(deps, coordinates, start_after, limit) {
                Err(refusal) => Err(refusal),
                Ok(resp) => Ok(QueryResponse::Entries(resp)),
            }
        },
        QueryMsg::Config {  } => Ok(QueryResponse::Config(query_config(config))),
    }
}

/// A token that holds no entry at its place gets one: once the sender holds
/// the token and the token has arrived, posting ends in success or in a
/// fault of the storage, never in a refusal.
pub proof fn lemma_first_post_is_admitted(
    before: DepsMut,
    after: DepsMut,
    sender: Seq<char>,
    author: Seq<char>,
    text: Seq<char>,
    now: u64,
    token: TokenInfo,
    r: Result<Response, ContractError>,
)
    requires
        posted(before, after, sender, author, text, now, token, r),
        token.owner@ == sender,
        token.arrival <= now,
        !entry_rows_mut(before).contains_key(key_bytes(author, token.coordinates@)),
    ensures
        r is Ok || r matches Err(ContractError::Std(_)),
        r is Ok ==> entry_rows_mut(after).contains_key(key_bytes(author, token.coordinates@))
            && entry_rows_mut(after)[key_bytes(author, token.coordinates@)] == (
            author,
            token.coordinates@,
            text,
        ),
{
}

/// An entry is written once: after a token has posted at a place, posting
/// again for the same token at the same place never succeeds, whatever the
/// text, and leaves the entries as they were. Unless the storage fails, the
/// refusal is `EntryAlreadyExists` and the indexes are as they were too.
pub proof fn lemma_second_post_is_refused(
    before: DepsMut,
    between: DepsMut,
    after: DepsMut,
    sender: Seq<char>,
    author: Seq<char>,
    text: Seq<char>,
    again: Seq<char>,
    now: u64,
    token: TokenInfo,
    first: Result<Response, ContractError>,
    second: Result<Response, ContractError>,
)
    requires
        posted(before, between, sender, author, text, now, token, first),
        first is Ok,
        posted(between, after, sender, author, again, now, token, second),
    ensures
        second matches Err(ContractError::EntryAlreadyExists {  }) || second matches Err(
            ContractError::Std(_),
        ),
        second matches Err(ContractError::EntryAlreadyExists {  }) ==> untouched(between, after),
        entry_rows_mut(after) == entry_rows_mut(between),
        entry_rows_mut(after)[key_bytes(author, token.coordinates@)] == (
            author,
            token.coordinates@,
            text,
        ),
{
}

} // verus!
