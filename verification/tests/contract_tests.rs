use std::collections::HashMap;

use collectxyz::nft::{Coordinates as XyzCoordinates, QueryMsg as XyzQueryMsg, XyzExtension, XyzTokenInfo};
use cosmwasm_std::testing::{mock_env, MockApi, MockStorage};
use cosmwasm_std::{
    from_binary, from_slice, to_binary, Addr, ContractResult, Empty, OwnedDeps, Querier,
    QuerierResult, QueryRequest, StdError, SystemError, SystemResult, Timestamp, WasmQuery,
};
use cw_storage_plus::Item;

use guestbook::codec::{entries_key, Coordinates};
use guestbook::contract;
use guestbook::msg::{
    Attribute, BankSend, EntriesResponse, ExecuteMsg, QueryMsg, QueryResponse, Response,
};
use guestbook::paging::page_limit;
use guestbook::state::{Coin, Config, Entry, TokenInfo};
use guestbook::store;
use guestbook::ContractError;

const OWNER: &str = "owner";
const ADDR1: &str = "addr1";
const ADDR2: &str = "addr2";

struct XyzMockQuerier {
    xyz_balances: HashMap<String, XyzTokenInfo>,
}

impl Querier for XyzMockQuerier {
    fn raw_query(&self, bin_request: &[u8]) -> QuerierResult {
        let request: QueryRequest<Empty> = match from_slice(bin_request) {
            Ok(v) => v,
            Err(e) => {
                return SystemResult::Err(SystemError::InvalidRequest {
                    error: format!("Parsing query request: {}", e),
                    request: bin_request.into(),
                })
            }
        };
        match &request {
            QueryRequest::Wasm(WasmQuery::Smart { contract_addr, msg }) => {
                if contract_addr.starts_with("xyz-nft-contract") {
                    if let XyzQueryMsg::XyzNftInfo { token_id } =
                        from_binary::<XyzQueryMsg>(msg).unwrap()
                    {
                        return self
                            .xyz_balances
                            .get(&token_id)
                            .map(|xyz| SystemResult::Ok(ContractResult::from(to_binary(xyz))))
                            .unwrap_or(SystemResult::Ok(ContractResult::from(Err(
                                StdError::not_found("xyz"),
                            ))));
                    } else {
                        panic!("unsupported message type! {}", msg)
                    }
                }
                panic!("unsupported query");
            }
            _ => panic!("unsupported query"),
        }
    }
}

type TestDeps = OwnedDeps<MockStorage, MockApi, XyzMockQuerier>;

fn token(owner: &str, name: &str, at: (i64, i64, i64), arrival: Timestamp) -> XyzTokenInfo {
    XyzTokenInfo {
        owner: Addr::unchecked(owner),
        approvals: vec![],
        name: name.to_string(),
        description: "".to_string(),
        image: None,
        extension: XyzExtension {
            coordinates: XyzCoordinates { x: at.0, y: at.1, z: at.2 },
            arrival,
            prev_coordinates: None,
        },
    }
}

fn get_initial_xyz_balances() -> HashMap<String, XyzTokenInfo> {
    HashMap::from([
        ("xyz #1".to_string(), token(ADDR1, "xyz #1", (1, 1, 1), Timestamp::from_nanos(0))),
        ("xyz #2".to_string(), token(ADDR2, "xyz #2", (2, 2, 2), Timestamp::from_seconds(10000))),
    ])
}

fn get_initial_config() -> Config {
    Config {
        character_limit: 240,
        entry_fee: coin(1000, "uluna"),
        xyz_nft_contract: "xyz-nft-contract".to_string(),
    }
}

fn coin(amount: u128, denom: &str) -> Coin {
    Coin { denom: denom.to_string(), amount }
}

fn mock_dependencies_xyz(xyz_balances: HashMap<String, XyzTokenInfo>) -> TestDeps {
    let mut deps = OwnedDeps {
        storage: MockStorage::default(),
        api: MockApi::default(),
        querier: XyzMockQuerier { xyz_balances },
    };
    setup_contract(&mut deps);
    deps
}

fn setup_contract(deps: &mut TestDeps) {
    let mut handle = deps.as_mut();
    contract::instantiate(&mut handle, &OWNER.to_string()).unwrap();
}

fn now() -> u64 {
    mock_env().block.time.nanos()
}

fn execute_at(
    deps: &mut TestDeps,
    time: u64,
    sender: &str,
    funds: &[Coin],
    msg: ExecuteMsg,
) -> Result<Response, ContractError> {
    let mut handle = deps.as_mut();
    contract::execute(
        &mut handle,
        &get_initial_config(),
        time,
        &sender.to_string(),
        &funds.to_vec(),
        msg,
    )
}

fn execute(
    deps: &mut TestDeps,
    sender: &str,
    funds: &[Coin],
    msg: ExecuteMsg,
) -> Result<Response, ContractError> {
    execute_at(deps, now(), sender, funds, msg)
}

fn create(author: &str, text: &str) -> ExecuteMsg {
    ExecuteMsg::CreateEntry { author_xyz_id: author.to_string(), text: text.to_string() }
}

fn query(deps: &TestDeps, msg: QueryMsg) -> Result<QueryResponse, ContractError> {
    contract::query(deps.as_ref(), &get_initial_config(), msg)
}

fn entries(answer: Result<QueryResponse, ContractError>) -> EntriesResponse {
    match answer.unwrap() {
        QueryResponse::Entries(resp) => resp,
        other => panic!("not a page of entries: {:?}", other),
    }
}

fn attr(key: &str, value: &str) -> Attribute {
    Attribute { key: key.to_string(), value: value.to_string() }
}

fn created(author: &str, x: &str, y: &str, z: &str) -> Response {
    Response {
        attributes: vec![
            attr("action", "entry_created"),
            attr("xyz_id", author),
            attr("xyz_coordinates_x", x),
            attr("xyz_coordinates_y", y),
            attr("xyz_coordinates_z", z),
        ],
        messages: vec![],
    }
}

fn key_cursor(author: &str, at: Coordinates) -> String {
    String::from_utf8(entries_key(author.to_string(), at)).unwrap()
}

#[test]
fn create_entry() {
    let xyz_balances = get_initial_xyz_balances();
    let mut deps = mock_dependencies_xyz(xyz_balances.clone());

    let entry_text = "0xja was here.";

    // can't create an entry at a non-existent xyz
    let err = execute(
        &mut deps,
        ADDR1,
        &[coin(1000, "uluna")],
        create("xyz #123456", entry_text),
    )
    .unwrap_err();
    assert_eq!(
        err,
        ContractError::Std(StdError::generic_err("Querier contract error: xyz not found"))
    );

    // can't create an entry for an xyz you don't own
    let err =
        execute(&mut deps, ADDR1, &[coin(1000, "uluna")], create("xyz #2", entry_text)).unwrap_err();
    assert_eq!(err, ContractError::Unauthorized {});

    // can't create an entry if you provide insufficient fees
    let err = execute(&mut deps, ADDR1, &[], create("xyz #1", entry_text)).unwrap_err();
    assert_eq!(err, ContractError::InsufficientFunds {});

    // can't create an entry if you provide insufficient fees
    let err = execute(&mut deps, ADDR1, &[], create("xyz #1", entry_text)).unwrap_err();
    assert_eq!(err, ContractError::InsufficientFunds {});

    // can't create an entry if your xyz hasn't arrived
    let err = execute_at(
        &mut deps,
        Timestamp::from_seconds(0).nanos(),
        ADDR2,
        &[coin(1000, "uluna")],
        create("xyz #2", entry_text),
    )
    .unwrap_err();
    assert_eq!(err, ContractError::RelocationInProgress {});

    // can create an entry if all conditions are satisfied
    let res =
        execute(&mut deps, ADDR1, &[coin(1000, "uluna")], create("xyz #1", entry_text)).unwrap();
    assert_eq!(res, created("xyz #1", "1", "1", "1"));

    // check that the entry was created
    let entry_coords = Coordinates { x: 1, y: 1, z: 1 };
    let entry = query(
        &deps,
        QueryMsg::Entry { author_xyz_id: "xyz #1".to_string(), coordinates: entry_coords },
    )
    .unwrap();
    assert_eq!(
        entry,
        QueryResponse::Entry(Entry {
            author_xyz_id: "xyz #1".to_string(),
            text: entry_text.to_string(),
            coordinates: entry_coords
        })
    );

    // can't create another entry at the same location
    let err =
        execute(&mut deps, ADDR1, &[coin(1000, "uluna")], create("xyz #1", entry_text)).unwrap_err();
    assert_eq!(err, ContractError::EntryAlreadyExists {});

    // can create an entry with same xyz at a different location
    let mut new_xyz_balances = xyz_balances.clone();
    let moved_xyz = new_xyz_balances.get_mut(&"xyz #1".to_string()).unwrap();
    moved_xyz.extension.coordinates = XyzCoordinates { x: 3, y: 3, z: 3 };
    deps.querier.xyz_balances = new_xyz_balances;
    let res =
        execute(&mut deps, ADDR1, &[coin(1000, "uluna")], create("xyz #1", entry_text)).unwrap();
    assert_eq!(res, created("xyz #1", "3", "3", "3"));
}

#[test]
fn withdraw() {
    let mut deps = mock_dependencies_xyz(HashMap::new());

    // non-owner can't withdraw
    let err = execute(
        &mut deps,
        ADDR1,
        &[],
        ExecuteMsg::Withdraw { amount: vec![coin(100, "uluna")] },
    )
    .unwrap_err();
    assert_eq!(err, ContractError::Unauthorized {});

    // owner can withdraw
    let res = execute(
        &mut deps,
        OWNER,
        &[],
        ExecuteMsg::Withdraw { amount: vec![coin(100, "uluna")] },
    )
    .unwrap();
    assert_eq!(
        res.messages[0],
        BankSend { amount: vec![coin(100, "uluna")], to_address: OWNER.to_string() }
    )
}

#[test]
fn read_entries() {
    let xyz_balances = get_initial_xyz_balances();
    let mut deps = mock_dependencies_xyz(xyz_balances.clone());

    let addr1_entry = Entry {
        author_xyz_id: "xyz #1".to_string(),
        text: "xyz #1 was here".to_string(),
        coordinates: Coordinates { x: 1, y: 1, z: 1 },
    };

    let addr2_entry = Entry {
        author_xyz_id: "xyz #2".to_string(),
        text: "xyz #2 was here".to_string(),
        coordinates: Coordinates { x: 2, y: 2, z: 2 },
    };

    // write entries for both xyz owners
    let _ = execute(
        &mut deps,
        ADDR1,
        &[coin(1000, "uluna")],
        create(&addr1_entry.author_xyz_id, &addr1_entry.text),
    )
    .unwrap();
    let _ = execute(
        &mut deps,
        ADDR2,
        &[coin(1000, "uluna")],
        create(&addr2_entry.author_xyz_id, &addr2_entry.text),
    )
    .unwrap();

    // read all entries for xyz #1
    let res = entries(query(
        &deps,
        QueryMsg::EntriesForXyz {
            author_xyz_id: addr1_entry.author_xyz_id.clone(),
            limit: None,
            start_after: None,
        },
    ));
    assert_eq!(res, EntriesResponse { entries: vec![addr1_entry.clone()] });

    // read all entries for xyz #2
    let res = entries(query(
        &deps,
        QueryMsg::EntriesForXyz {
            author_xyz_id: addr2_entry.author_xyz_id.clone(),
            limit: None,
            start_after: None,
        },
    ));
    assert_eq!(res, EntriesResponse { entries: vec![addr2_entry.clone()] });

    // read all entries for [1,1,1]
    let res = entries(query(
        &deps,
        QueryMsg::EntriesForCoordinates {
            coordinates: addr1_entry.coordinates,
            limit: None,
            start_after: None,
        },
    ));
    assert_eq!(res, EntriesResponse { entries: vec![addr1_entry.clone()] });

    // read all entries for [2,2,2]
    let res = entries(query(
        &deps,
        QueryMsg::EntriesForCoordinates {
            coordinates: addr2_entry.coordinates,
            limit: None,
            start_after: None,
        },
    ));
    assert_eq!(res, EntriesResponse { entries: vec![addr2_entry.clone()] });
}

#[test]
fn key_is_author_bytes_then_big_endian_coordinates() {
    let key = entries_key("T1".to_string(), Coordinates { x: 1, y: -1, z: 258 });
    let mut expected = vec![b'T', b'1'];
    expected.extend_from_slice(&[0, 0, 0, 0, 0, 0, 0, 1]);
    expected.extend_from_slice(&[255; 8]);
    expected.extend_from_slice(&[0, 0, 0, 0, 0, 0, 1, 2]);
    assert_eq!(key, expected);
    assert_eq!(key.len(), 2 + 24);
}

#[test]
fn keys_of_different_pairs_differ() {
    let at = Coordinates { x: 1, y: 1, z: 1 };
    let other = Coordinates { x: 1, y: 1, z: 2 };
    assert_ne!(entries_key("a".to_string(), at), entries_key("b".to_string(), at));
    assert_ne!(entries_key("a".to_string(), at), entries_key("a".to_string(), other));
    assert_eq!(entries_key("a".to_string(), at), entries_key("a".to_string(), at));
}

#[test]
fn index_functions_file_under_author_and_place() {
    let row = ("T1".to_string(), (1i64, 2i64, 3i64), "hi".to_string());
    assert_eq!(store::author_index(&row, vec![7, 8]), ("T1".to_string(), vec![7, 8]));
    let (place, pk) = store::coordinates_index(&row, vec![7, 8]);
    assert_eq!(pk, vec![7, 8]);
    assert_eq!(
        place,
        vec![0, 0, 0, 0, 0, 0, 0, 1, 0, 0, 0, 0, 0, 0, 0, 2, 0, 0, 0, 0, 0, 0, 0, 3]
    );
}

#[test]
fn page_limit_defaults_to_ten_and_stops_at_thirty() {
    assert_eq!(page_limit(None), 10);
    assert_eq!(page_limit(Some(0)), 0);
    assert_eq!(page_limit(Some(7)), 7);
    assert_eq!(page_limit(Some(30)), 30);
    assert_eq!(page_limit(Some(31)), 30);
    assert_eq!(page_limit(Some(u32::MAX)), 30);
}

#[test]
fn character_limit_is_inclusive() {
    let mut deps = mock_dependencies_xyz(get_initial_xyz_balances());
    let at_limit = "a".repeat(240);
    let over_limit = "a".repeat(241);
    let err =
        execute(&mut deps, ADDR1, &[coin(1000, "uluna")], create("xyz #1", &over_limit)).unwrap_err();
    assert_eq!(err, ContractError::CharacterLimitExceeded {});
    let res = execute(&mut deps, ADDR1, &[coin(1000, "uluna")], create("xyz #1", &at_limit));
    assert_eq!(res, Ok(created("xyz #1", "1", "1", "1")));
}

#[test]
fn character_limit_counts_bytes() {
    let config = get_initial_config();
    // 120 two-byte characters are 240 bytes; one more byte is too many
    let text = "\u{e9}".repeat(120);
    assert_eq!(contract::check_request(&config, &text, &vec![coin(1000, "uluna")]), Ok(()));
    let longer = format!("{}a", text);
    assert_eq!(
        contract::check_request(&config, &longer, &vec![coin(1000, "uluna")]),
        Err(ContractError::CharacterLimitExceeded {})
    );
}

#[test]
fn character_limit_is_checked_before_the_fee() {
    let config = get_initial_config();
    let over_limit = "a".repeat(241);
    assert_eq!(
        contract::check_request(&config, &over_limit, &vec![]),
        Err(ContractError::CharacterLimitExceeded {})
    );
}

#[test]
fn fee_is_inclusive_and_needs_the_denomination() {
    let fee = coin(1000, "uluna");
    assert!(contract::covers_fee(&vec![coin(1000, "uluna")], &fee));
    assert!(contract::covers_fee(&vec![coin(1001, "uluna")], &fee));
    assert!(!contract::covers_fee(&vec![coin(999, "uluna")], &fee));
    assert!(!contract::covers_fee(&vec![coin(5000, "uusd")], &fee));
    assert!(!contract::covers_fee(&vec![], &fee));
    assert!(contract::covers_fee(&vec![coin(5000, "uusd"), coin(1, "uluna"), coin(2000, "uluna")], &fee));
}

#[test]
fn insufficient_funds_then_success_with_more_than_the_fee() {
    let mut deps = mock_dependencies_xyz(get_initial_xyz_balances());
    let err = execute(&mut deps, ADDR1, &[coin(999, "uluna")], create("xyz #1", "hi")).unwrap_err();
    assert_eq!(err, ContractError::InsufficientFunds {});
    let err = execute(&mut deps, ADDR1, &[coin(1000, "uusd")], create("xyz #1", "hi")).unwrap_err();
    assert_eq!(err, ContractError::InsufficientFunds {});
    let res = execute(&mut deps, ADDR1, &[coin(1, "uusd"), coin(2500, "uluna")], create("xyz #1", "hi"));
    assert_eq!(res, Ok(created("xyz #1", "1", "1", "1")));
}

#[test]
fn arrival_is_inclusive() {
    let arrival = Timestamp::from_seconds(10000).nanos();
    let info = TokenInfo {
        owner: ADDR2.to_string(),
        coordinates: Coordinates { x: 2, y: 2, z: 2 },
        arrival,
    };
    let sender = ADDR2.to_string();
    assert_eq!(
        contract::check_token(&sender, &info, arrival - 1),
        Err(ContractError::RelocationInProgress {})
    );
    assert_eq!(contract::check_token(&sender, &info, arrival), Ok(()));
    assert_eq!(contract::check_token(&sender, &info, arrival + 1), Ok(()));

    let mut deps = mock_dependencies_xyz(get_initial_xyz_balances());
    let err = execute_at(&mut deps, arrival - 1, ADDR2, &[coin(1000, "uluna")], create("xyz #2", "hi"))
        .unwrap_err();
    assert_eq!(err, ContractError::RelocationInProgress {});
    let res = execute_at(&mut deps, arrival, ADDR2, &[coin(1000, "uluna")], create("xyz #2", "hi"));
    assert_eq!(res, Ok(created("xyz #2", "2", "2", "2")));
}

#[test]
fn holder_is_checked_before_arrival() {
    let info = TokenInfo {
        owner: ADDR2.to_string(),
        coordinates: Coordinates { x: 2, y: 2, z: 2 },
        arrival: 500,
    };
    assert_eq!(
        contract::check_token(&ADDR1.to_string(), &info, 0),
        Err(ContractError::Unauthorized {})
    );
}

#[test]
fn post_entry_passes_a_miss_on() {
    let mut deps = mock_dependencies_xyz(HashMap::new());
    let mut handle = deps.as_mut();
    let res = contract::post_entry(
        &mut handle,
        &ADDR1.to_string(),
        "T1".to_string(),
        "hi".to_string(),
        0,
        Err(StdError::generic_err("gone")),
    );
    assert_eq!(res, Err(ContractError::Std(StdError::generic_err("gone"))));
}

#[test]
fn entry_is_written_once_and_kept() {
    let mut deps = mock_dependencies_xyz(HashMap::new());
    let info = TokenInfo {
        owner: "A".to_string(),
        coordinates: Coordinates { x: 1, y: 1, z: 1 },
        arrival: 0,
    };
    let sender = "A".to_string();
    let mut handle = deps.as_mut();
    let first = contract::post_entry(
        &mut handle,
        &sender,
        "T1".to_string(),
        "hi".to_string(),
        5,
        Ok(info.clone()),
    );
    assert_eq!(first, Ok(created("T1", "1", "1", "1")));
    let second = contract::post_entry(
        &mut handle,
        &sender,
        "T1".to_string(),
        "again".to_string(),
        5,
        Ok(info.clone()),
    );
    assert_eq!(second, Err(ContractError::EntryAlreadyExists {}));
    let stored = contract::query_entry(deps.as_ref(), "T1".to_string(), info.coordinates);
    assert_eq!(
        stored,
        Ok(Entry {
            author_xyz_id: "T1".to_string(),
            coordinates: Coordinates { x: 1, y: 1, z: 1 },
            text: "hi".to_string()
        })
    );
    let page = contract::query_entries_for_xyz(deps.as_ref(), "T1".to_string(), None, None).unwrap();
    assert_eq!(page.entries.len(), 1);
}

#[test]
fn example_guestbook() {
    let mut deps = mock_dependencies_xyz(HashMap::from([(
        "T1".to_string(),
        token("A", "T1", (1, 1, 1), Timestamp::from_nanos(0)),
    )]));
    let res = execute(&mut deps, "A", &[coin(1000, "uluna")], create("T1", "hi"));
    assert_eq!(res, Ok(created("T1", "1", "1", "1")));
    let key = entries_key("T1".to_string(), Coordinates { x: 1, y: 1, z: 1 });
    assert_eq!(
        store::get(deps.as_ref(), &key),
        Ok(Entry {
            author_xyz_id: "T1".to_string(),
            coordinates: Coordinates { x: 1, y: 1, z: 1 },
            text: "hi".to_string()
        })
    );
    let res = execute(&mut deps, "A", &[coin(1000, "uluna")], create("T1", "hi"));
    assert_eq!(res, Err(ContractError::EntryAlreadyExists {}));
}

#[test]
fn missing_entry_is_not_found() {
    let deps = mock_dependencies_xyz(HashMap::new());
    let res = contract::query_entry(deps.as_ref(), "T1".to_string(), Coordinates { x: 0, y: 0, z: 0 });
    assert_eq!(res, Err(ContractError::NotFound {}));
    let key = entries_key("T1".to_string(), Coordinates { x: 0, y: 0, z: 0 });
    assert_eq!(store::get(deps.as_ref(), &key), Err(ContractError::NotFound {}));
}

#[test]
fn empty_scans_are_empty_pages() {
    let deps = mock_dependencies_xyz(HashMap::new());
    let by_author = contract::query_entries_for_xyz(deps.as_ref(), "T1".to_string(), None, None);
    assert_eq!(by_author, Ok(EntriesResponse { entries: vec![] }));
    let by_place = contract::query_entries_for_coordinates(
        deps.as_ref(),
        Coordinates { x: 1, y: 1, z: 1 },
        Some("zzz".to_string()),
        Some(5),
    );
    assert_eq!(by_place, Ok(EntriesResponse { entries: vec![] }));
}

fn post_at(deps: &mut TestDeps, author: &str, at: (i64, i64, i64), text: &str) -> Entry {
    let info = TokenInfo {
        owner: "A".to_string(),
        coordinates: Coordinates { x: at.0, y: at.1, z: at.2 },
        arrival: 0,
    };
    let mut handle = deps.as_mut();
    contract::post_entry(
        &mut handle,
        &"A".to_string(),
        author.to_string(),
        text.to_string(),
        0,
        Ok(info.clone()),
    )
    .unwrap();
    Entry { author_xyz_id: author.to_string(), coordinates: info.coordinates, text: text.to_string() }
}

#[test]
fn pages_follow_each_other_without_overlap_or_gap() {
    let mut deps = mock_dependencies_xyz(HashMap::new());
    // written out of order; the scan is by key
    let e3 = post_at(&mut deps, "T1", (3, 0, 0), "three");
    let e1 = post_at(&mut deps, "T1", (1, 0, 0), "one");
    let e5 = post_at(&mut deps, "T1", (5, 0, 0), "five");
    let e2 = post_at(&mut deps, "T1", (2, 0, 0), "two");
    let e4 = post_at(&mut deps, "T1", (4, 0, 0), "four");
    // another author whose name begins alike is not part of the scan
    let _ = post_at(&mut deps, "T12", (1, 0, 0), "other");

    let all = contract::query_entries_for_xyz(deps.as_ref(), "T1".to_string(), None, None).unwrap();
    assert_eq!(all.entries, vec![e1.clone(), e2.clone(), e3.clone(), e4.clone(), e5.clone()]);

    let first =
        contract::query_entries_for_xyz(deps.as_ref(), "T1".to_string(), None, Some(2)).unwrap();
    assert_eq!(first.entries, vec![e1.clone(), e2.clone()]);

    let cursor = key_cursor("T1", e2.coordinates);
    let second =
        contract::query_entries_for_xyz(deps.as_ref(), "T1".to_string(), Some(cursor), Some(2))
            .unwrap();
    assert_eq!(second.entries, vec![e3.clone(), e4.clone()]);

    let cursor = key_cursor("T1", e4.coordinates);
    let third =
        contract::query_entries_for_xyz(deps.as_ref(), "T1".to_string(), Some(cursor), Some(2))
            .unwrap();
    assert_eq!(third.entries, vec![e5.clone()]);

    let cursor = key_cursor("T1", e5.coordinates);
    let fourth =
        contract::query_entries_for_xyz(deps.as_ref(), "T1".to_string(), Some(cursor), Some(2))
            .unwrap();
    assert_eq!(fourth.entries, vec![]);
}

#[test]
fn store_scans_take_the_cursor_as_bytes() {
    let mut deps = mock_dependencies_xyz(HashMap::new());
    let e1 = post_at(&mut deps, "T1", (-1, 0, 0), "minus one");
    let e2 = post_at(&mut deps, "T1", (7, 0, 0), "seven");
    // in key order the negative coordinate comes last: its first byte is 0xff
    let all = store::scan_by_author(deps.as_ref(), &"T1".to_string(), None, 10).unwrap();
    assert_eq!(all, vec![e2.clone(), e1.clone()]);
    let cursor = entries_key("T1".to_string(), e2.coordinates);
    let rest = store::scan_by_author(deps.as_ref(), &"T1".to_string(), Some(cursor), 10).unwrap();
    assert_eq!(rest, vec![e1.clone()]);
    let none = store::scan_by_author(deps.as_ref(), &"T1".to_string(), None, 0).unwrap();
    assert_eq!(none, vec![]);
    let at = vec![0, 0, 0, 0, 0, 0, 0, 7, 0, 0, 0, 0, 0, 0, 0, 0, 0, 0, 0, 0, 0, 0, 0, 0];
    let here = store::scan_by_coordinates(deps.as_ref(), &at, None, 10).unwrap();
    assert_eq!(here, vec![e2]);
}

#[test]
fn limit_over_thirty_is_thirty() {
    let mut deps = mock_dependencies_xyz(HashMap::new());
    let mut i: i64 = 0;
    while i < 35 {
        let _ = post_at(&mut deps, "T1", (i, 0, 0), "x");
        i += 1;
    }
    let capped =
        contract::query_entries_for_xyz(deps.as_ref(), "T1".to_string(), None, Some(1000)).unwrap();
    let thirty =
        contract::query_entries_for_xyz(deps.as_ref(), "T1".to_string(), None, Some(30)).unwrap();
    assert_eq!(capped.entries.len(), 30);
    assert_eq!(capped, thirty);
    let default = contract::query_entries_for_xyz(deps.as_ref(), "T1".to_string(), None, None).unwrap();
    assert_eq!(default.entries.len(), 10);
    assert_eq!(default.entries[..], thirty.entries[..10]);
}

#[test]
fn neighbours_at_one_place_coexist() {
    let mut deps = mock_dependencies_xyz(HashMap::new());
    let a = post_at(&mut deps, "T1", (1, 1, 1), "first");
    let b = post_at(&mut deps, "T2", (1, 1, 1), "second");
    let at = Coordinates { x: 1, y: 1, z: 1 };
    let here = contract::query_entries_for_coordinates(deps.as_ref(), at, None, None).unwrap();
    assert_eq!(here.entries, vec![a.clone(), b.clone()]);
    let by_a = contract::query_entries_for_xyz(deps.as_ref(), "T1".to_string(), None, None).unwrap();
    assert_eq!(by_a.entries, vec![a.clone()]);
    let by_b = contract::query_entries_for_xyz(deps.as_ref(), "T2".to_string(), None, None).unwrap();
    assert_eq!(by_b.entries, vec![b.clone()]);
    assert_eq!(contract::query_entry(deps.as_ref(), "T1".to_string(), at), Ok(a));
    assert_eq!(contract::query_entry(deps.as_ref(), "T2".to_string(), at), Ok(b));
}

#[test]
fn insert_if_absent_refuses_a_taken_key() {
    let mut deps = mock_dependencies_xyz(HashMap::new());
    let entry = Entry {
        author_xyz_id: "T1".to_string(),
        coordinates: Coordinates { x: 9, y: 9, z: 9 },
        text: "kept".to_string(),
    };
    let other = Entry { text: "lost".to_string(), ..entry.clone() };
    let key = entries_key("T1".to_string(), entry.coordinates);
    let mut handle = deps.as_mut();
    assert_eq!(store::insert_if_absent(&mut handle, &key, &entry), Ok(()));
    assert_eq!(
        store::insert_if_absent(&mut handle, &key, &other),
        Err(ContractError::EntryAlreadyExists {})
    );
    assert_eq!(store::get(deps.as_ref(), &key), Ok(entry));
}

#[test]
fn withdraw_pays_the_owner_what_was_asked() {
    let amount = vec![coin(100, "uluna"), coin(5, "uusd")];
    let res = contract::withdraw(&"owner".to_string(), "owner".to_string(), amount.clone());
    assert_eq!(
        res,
        Ok(Response {
            attributes: vec![],
            messages: vec![BankSend { to_address: "owner".to_string(), amount }],
        })
    );
    let res = contract::withdraw(&"other".to_string(), "owner".to_string(), vec![]);
    assert_eq!(res, Err(ContractError::Unauthorized {}));
}

#[test]
fn withdraw_without_an_owner_is_a_storage_fault() {
    let deps: TestDeps = OwnedDeps {
        storage: MockStorage::default(),
        api: MockApi::default(),
        querier: XyzMockQuerier { xyz_balances: HashMap::new() },
    };
    let res = contract::execute_withdraw(deps.as_ref(), &OWNER.to_string(), vec![]);
    assert!(matches!(res, Err(ContractError::Std(_))));
}

#[test]
fn config_query_returns_the_config() {
    let deps = mock_dependencies_xyz(HashMap::new());
    assert_eq!(
        query(&deps, QueryMsg::Config {}),
        Ok(QueryResponse::Config(get_initial_config()))
    );
    assert_eq!(contract::query_config(&get_initial_config()), get_initial_config());
}

#[test]
fn instantiate_makes_the_sender_the_owner() {
    let mut deps: TestDeps = OwnedDeps {
        storage: MockStorage::default(),
        api: MockApi::default(),
        querier: XyzMockQuerier { xyz_balances: HashMap::new() },
    };
    let mut handle = deps.as_mut();
    let res = contract::instantiate(&mut handle, &"creator".to_string());
    assert_eq!(
        res,
        Ok(Response {
            attributes: vec![attr("method", "instantiate"), attr("owner", "creator")],
            messages: vec![],
        })
    );
    assert_eq!(Item::<String>::new("owner").load(&deps.storage), Ok("creator".to_string()));
    let paid = contract::execute_withdraw(deps.as_ref(), &"creator".to_string(), vec![coin(1, "uluna")]);
    assert_eq!(
        paid,
        Ok(Response {
            attributes: vec![],
            messages: vec![BankSend { to_address: "creator".to_string(), amount: vec![coin(1, "uluna")] }],
        })
    );
    let refused = contract::execute_withdraw(deps.as_ref(), &OWNER.to_string(), vec![]);
    assert_eq!(refused, Err(ContractError::Unauthorized {}));
}

#[test]
fn unauthorized_sender_changes_nothing() {
    let mut deps = mock_dependencies_xyz(get_initial_xyz_balances());
    let err = execute(&mut deps, ADDR2, &[coin(1000, "uluna")], create("xyz #1", "hi")).unwrap_err();
    assert_eq!(err, ContractError::Unauthorized {});
    let page = contract::query_entries_for_xyz(deps.as_ref(), "xyz #1".to_string(), None, None);
    assert_eq!(page, Ok(EntriesResponse { entries: vec![] }));
    let here = contract::query_entries_for_coordinates(
        deps.as_ref(),
        Coordinates { x: 1, y: 1, z: 1 },
        None,
        None,
    );
    assert_eq!(here, Ok(EntriesResponse { entries: vec![] }));
}
