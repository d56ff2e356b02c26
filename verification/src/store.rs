//! The entry store: one primary map and two secondary indexes in a
//! `cosmwasm_std` storage, written and read through `cw_storage_plus`.
//!
//! The storage is reached through `Deps` (reading) and `DepsMut` (writing).
//! What it holds is named by [`entry_rows`] and [`index_rows`]; the trusted
//! functions below say, over those names, what each call into
//! `cw_storage_plus` does. Index maintenance, the exactly-once insertion and
//! the scans are verified against them.
//!
//! An entry is written row by row, both index rows first and the primary row
//! last, which is the order of `cw_storage_plus::IndexedMap::replace`. The
//! host commits or drops a whole invocation, so a fault between two rows is
//! never seen by a later one. The three namespaces are written by this
//! module alone; the scans rely on that, as `cw_storage_plus` does.

use vstd::prelude::*;
use vstd::string::StringSliceAdditionalSpecFns;
use vstd::utf8::{decode_utf8, encode_utf8, encode_utf8_decode_utf8};
use cosmwasm_std::{Deps, DepsMut, Order, StdError};
use cw_storage_plus::{Bound, Index, Map as StorageMap, MultiIndex};
use crate::codec::{
    coordinate_bytes, coordinates_to_bytes, key_bytes, lemma_key_bytes_injective, Coordinates,
};
use crate::error::ContractError;
use crate::paging::{is_page, page_holds};
use crate::state::{Entry, EntryModel};

verus! {

#[verifier::external_type_specification]
#[verifier::external_body]
pub struct ExDepsMut<'a>(DepsMut<'a>);

#[verifier::external_type_specification]
#[verifier::external_body]
pub struct ExDeps<'a>(Deps<'a>);

/// An entry as the storage holds it: author, location, text.
pub type Row = (String, (i64, i64, i64), String);

/// The entries that the storage behind `deps` holds, by primary key.
pub uninterp spec fn entry_rows(deps: Deps) -> Map<Seq<u8>, (Seq<char>, (i64, i64, i64), Seq<char>)>;

/// The rows of the two secondary indexes in the storage behind `deps`, each
/// as `(by_author, prefix, primary key)`: `true` and the author's UTF-8 bytes
/// for the by-author index, `false` and the encoded location for the
/// by-coordinates index.
pub uninterp spec fn index_rows(deps: Deps) -> Set<(bool, Seq<u8>, Seq<u8>)>;

/// [`entry_rows`], of a storage that can be written.
pub uninterp spec fn entry_rows_mut(deps: DepsMut) -> Map<Seq<u8>, (Seq<char>, (i64, i64, i64), Seq<char>)>;

/// [`index_rows`], of a storage that can be written.
pub uninterp spec fn index_rows_mut(deps: DepsMut) -> Set<(bool, Seq<u8>, Seq<u8>)>;

/// The owner of the guestbook as the storage behind `deps` holds it.
pub uninterp spec fn owner_text(deps: Deps) -> Seq<char>;

/// [`owner_text`], of a storage that can be written.
pub uninterp spec fn owner_text_mut(deps: DepsMut) -> Seq<char>;

/// What a stored row is, as plain values.
pub open spec fn row_model(row: Row) -> EntryModel {
    (row.0@, row.1, row.2@)
}

/// What the rows of a scan are, as plain values: primary key and entry.
pub open spec fn rows_model(rows: Seq<(Vec<u8>, Row)>) -> Seq<(Seq<u8>, EntryModel)> {
    Seq::new(rows.len(), |i: int| (rows[i].0@, row_model(rows[i].1)))
}

/// The cursor of a scan, as plain bytes.
pub open spec fn cursor_model(cursor: Option<Vec<u8>>) -> Option<Seq<u8>> {
    match cursor {
        Some(c) => Some(c@),
        None => None,
    }
}

/// The by-author index row of an entry stored under `pk`.
pub open spec fn author_row(e: EntryModel, pk: Seq<u8>) -> (bool, Seq<u8>, Seq<u8>) {
    (true, encode_utf8(e.0), pk)
}

/// The by-coordinates index row of an entry stored under `pk`.
pub open spec fn coordinates_row(e: EntryModel, pk: Seq<u8>) -> (bool, Seq<u8>, Seq<u8>) {
    (false, coordinate_bytes(e.1), pk)
}

/// The longest index prefix that `cw_storage_plus` can length-prefix.
pub open spec fn fits_prefix(s: Seq<char>) -> bool {
    encode_utf8(s).len() <= 0xFFFF
}

/// The by-author index files an entry under its author and primary key.
pub fn author_index(row: &Row, pk: Vec<u8>) -> (r: (String, Vec<u8>))
    ensures
        r.0@ == row.0@,
        r.1@ == pk@,
{
    (row.0.clone(), pk)
}

/// The by-coordinates index files an entry under its encoded location and
/// primary key.
pub fn coordinates_index(row: &Row, pk: Vec<u8>) -> (r: (Vec<u8>, Vec<u8>))
    ensures
        r.0@ == coordinate_bytes(row.1),
        r.1@ == pk@,
{
    let at = Coordinates { x: row.1.0, y: row.1.1, z: row.1.2 };
    (coordinates_to_bytes(at), pk)
}

/// Trusted: `DepsMut::as_ref`, which lends the same storage for reading. The
/// contract claims that the reader sees what the writer holds.
#[verifier::external_body]
pub(crate) fn reader<'b>(deps: &'b DepsMut) -> (r: Deps<'b>)
    ensures
        entry_rows(r) == entry_rows_mut(*deps),
        index_rows(r) == index_rows_mut(*deps),
        owner_text(r) == owner_text_mut(*deps),
{
    deps.as_ref()
}

/// Trusted: `cw_storage_plus::Map::may_load` on the primary map. It returns
/// `Ok(None)` where the storage has nothing under the key, the parsed entry
/// where it has one, and an error where the bytes there do not parse.
#[verifier::external_body]
pub(crate) fn primary_may_load(deps: Deps, key: &Vec<u8>) -> (r: Result<Option<Row>, StdError>)
    ensures
        match r {
            Ok(Some(row)) => entry_rows(deps).contains_key(key@) && entry_rows(deps)[key@]
                == row_model(row),
            Ok(None) => !entry_rows(deps).contains_key(key@),
            Err(_) => true,
        },
{
    StorageMap::<&[u8], Row>::new("entries").may_load(deps.storage, key.as_slice())
}

/// Trusted: `cw_storage_plus::Map::save` on the primary map. It serialises
/// the entry and sets it under the key; where serialising fails it writes
/// nothing. The index namespaces are not touched.
#[verifier::external_body]
pub(crate) fn primary_save(deps: &mut DepsMut, key: &Vec<u8>, row: &Row) -> (r: Result<
    (),
    StdError,
>)
    ensures
        index_rows_mut(*final(deps)) == index_rows_mut(*old(deps)),
        r.is_ok() ==> entry_rows_mut(*final(deps)) == entry_rows_mut(*old(deps)).insert(
            key@,
            row_model(*row),
        ),
        r.is_err() ==> entry_rows_mut(*final(deps)) == entry_rows_mut(*old(deps)),
{
    StorageMap::<&[u8], Row>::new("entries").save(deps.storage, key.as_slice(), row)
}

/// Trusted: `cw_storage_plus::MultiIndex::new` with [`author_index`], and
/// `Index::save` on it, which files the primary key under what the index
/// function returns. The primary map is not touched. The author must fit
/// the two-byte length prefix, else the call panics.
#[verifier::external_body]
pub(crate) fn author_index_save(deps: &mut DepsMut, pk: &Vec<u8>, row: &Row) -> (r: Result<
    (),
    StdError,
>)
    requires
        fits_prefix(row.0@),
    ensures
        entry_rows_mut(*final(deps)) == entry_rows_mut(*old(deps)),
        r.is_ok() ==> index_rows_mut(*final(deps)) == index_rows_mut(*old(deps)).insert(
            author_row(row_model(*row), pk@),
        ),
        r.is_err() ==> index_rows_mut(*final(deps)) == index_rows_mut(*old(deps)),
{
    let index: MultiIndex<(String, Vec<u8>), Row> = MultiIndex::new(
        author_index,
        "entries",
        "entries__author_xyz_id",
    );
    index.save(deps.storage, pk.as_slice(), row)
}

/// Trusted: `cw_storage_plus::MultiIndex::new` with [`coordinates_index`],
/// and `Index::save` on it, which files the primary key under what the index
/// function returns. The primary map is not touched.
#[verifier::external_body]
pub(crate) fn coordinates_index_save(deps: &mut DepsMut, pk: &Vec<u8>, row: &Row) -> (r: Result<
    (),
    StdError,
>)
    ensures
        entry_rows_mut(*final(deps)) == entry_rows_mut(*old(deps)),
        r.is_ok() ==> index_rows_mut(*final(deps)) == index_rows_mut(*old(deps)).insert(
            coordinates_row(row_model(*row), pk@),
        ),
        r.is_err() ==> index_rows_mut(*final(deps)) == index_rows_mut(*old(deps)),
{
    let index: MultiIndex<(Vec<u8>, Vec<u8>), Row> = MultiIndex::new(
        coordinates_index,
        "entries",
        "entries__coordinates",
    );
    index.save(deps.storage, pk.as_slice(), row)
}

/// Trusted: `MultiIndex::prefix` and `Prefix::range` on the by-author index,
/// ascending from an exclusive `Bound`, cut off by `take`. Each index row is
/// resolved against the primary map; the first row that fails to resolve or
/// parse ends the call with its error. The author must fit the two-byte
/// length prefix, else the call panics.
#[verifier::external_body]
pub(crate) fn author_range(
    deps: Deps,
    author: &String,
    start_after: Option<Vec<u8>>,
    limit: usize,
) -> (r: Result<Vec<(Vec<u8>, Row)>, StdError>)
    requires
        fits_prefix(author@),
    ensures
        r matches Ok(rows) ==> is_page(
            index_rows(deps),
            entry_rows(deps),
            true,
            encode_utf8(author@),
            cursor_model(start_after),
            limit as nat,
            rows_model(rows@),
        ),
{
    let index: MultiIndex<(String, Vec<u8>), Row> = MultiIndex::new(
        author_index,
        "entries",
        "entries__author_xyz_id",
    );
    let start = start_after.map(Bound::exclusive);
    index.prefix(author.clone()).range(deps.storage, start, None, Order::Ascending).take(
        limit,
    ).collect()
}

/// Trusted: `MultiIndex::prefix` and `Prefix::range` on the by-coordinates
/// index, ascending from an exclusive `Bound`, cut off by `take`. Each index
/// row is resolved against the primary map; the first row that fails to
/// resolve or parse ends the call with its error. The prefix must fit the
/// two-byte length prefix, else the call panics.
#[verifier::external_body]
pub(crate) fn coordinates_range(
    deps: Deps,
    at: &Vec<u8>,
    start_after: Option<Vec<u8>>,
    limit: usize,
) -> (r: Result<Vec<(Vec<u8>, Row)>, StdError>)
    requires
        at@.len() <= 0xFFFF,
    ensures
        r matches Ok(rows) ==> is_page(
            index_rows(deps),
            entry_rows(deps),
            false,
            at@,
            cursor_model(start_after),
            limit as nat,
            rows_model(rows@),
        ),
{
    let index: MultiIndex<(Vec<u8>, Vec<u8>), Row> = MultiIndex::new(
        coordinates_index,
        "entries",
        "entries__coordinates",
    );
    let start = start_after.map(Bound::exclusive);
    index.prefix(at.clone()).range(deps.storage, start, None, Order::Ascending).take(
        limit,
    ).collect()
}

/// The entries of a page, without their keys.
pub open spec fn entries_of(page: Seq<(Seq<u8>, EntryModel)>) -> Seq<EntryModel> {
    Seq::new(page.len(), |i: int| page[i].1)
}

/// What a list of entries is, as plain values.
pub open spec fn models(found: Seq<Entry>) -> Seq<EntryModel> {
    Seq::new(found.len(), |i: int| found[i]@)
}

fn to_row(entry: &Entry) -> (row: Row)
    ensures
        row_model(row) == entry@,
{
    (
        entry.author_xyz_id.clone(),
        (entry.coordinates.x, entry.coordinates.y, entry.coordinates.z),
        entry.text.clone(),
    )
}

fn to_entry(row: &Row) -> (entry: Entry)
    ensures
        entry@ == row_model(*row),
{
    Entry {
        author_xyz_id: row.0.clone(),
        coordinates: Coordinates { x: row.1.0, y: row.1.1, z: row.1.2 },
        text: row.2.clone(),
    }
}

fn to_entries(rows: &Vec<(Vec<u8>, Row)>) -> (found: Vec<Entry>)
    ensures
        models(found@) == entries_of(rows_model(rows@)),
{
    let mut found: Vec<Entry> = Vec::new();
    let mut i: usize = 0;
    while i < rows.len()
        invariant
            i <= rows.len(),
            found.len() == i,
            forall|j: int| 0 <= j < i ==> (#[trigger] found[j])@ == row_model(rows[j].1),
        decreases rows.len() - i,
    {
        found.push(to_entry(&rows[i].1));
        i += 1;
    }
    proof {
        assert(models(found@) =~= entries_of(rows_model(rows@)));
    }
    found
}

/// Writes an entry under `key` unless the key is taken: the primary row and
/// one row in each secondary index, or nothing at all.
///
/// A taken key is refused with `EntryAlreadyExists` and the storage is left
/// as it was. A fault of the storage comes back as `Std`; the primary map is
/// then as it was, and the caller is expected to drop the whole write.
pub fn insert_if_absent(deps: &mut DepsMut, key: &Vec<u8>, entry: &Entry) -> (r: Result<
    (),
    ContractError,
>)
    requires
        fits_prefix(entry.author_xyz_id@),
    ensures
        match r {
            Ok(()) => {
                &&& !entry_rows_mut(*old(deps)).contains_key(key@)
                &&& entry_rows_mut(*final(deps)) == entry_rows_mut(*old(deps)).insert(
                    key@,
                    entry@,
                )
                &&& index_rows_mut(*final(deps)) == index_rows_mut(*old(deps)).insert(
                    author_row(entry@, key@),
                ).insert(coordinates_row(entry@, key@))
            },
            Err(ContractError::EntryAlreadyExists {  }) => {
                &&& entry_rows_mut(*old(deps)).contains_key(key@)
                &&& entry_rows_mut(*final(deps)) == entry_rows_mut(*old(deps))
                &&& index_rows_mut(*final(deps)) == index_rows_mut(*old(deps))
            },
            Err(ContractError::Std(_)) => entry_rows_mut(*final(deps)) == entry_rows_mut(
                *old(deps),
            ),
            Err(_) => false,
        },
{
    let present = primary_may_load(reader(deps), key);
    match present {
        Err(fault) => Err(ContractError::Std(fault)),
        Ok(Some(_)) => Err(ContractError::EntryAlreadyExists {  }),
        Ok(None) => {
            let row = to_row(entry);
            match author_index_save(deps, key, &row) {
                Err(fault) => {
                    return Err(ContractError::Std(fault));
                },
                Ok(()) => {},
            }
            match coordinates_index_save(deps, key, &row) {
                Err(fault) => {
                    return Err(ContractError::Std(fault));
                },
                Ok(()) => {},
            }
            match primary_save(deps, key, &row) {
                Err(fault) => Err(ContractError::Std(fault)),
                Ok(()) => Ok(()),
            }
        },
    }
}

/// Reads the entry stored under `key`.
///
/// `NotFound` comes exactly where the storage has nothing under the key; a
/// fault of the storage comes back as `Std`.
pub fn get(deps: Deps, key: &Vec<u8>) -> (r: Result<Entry, ContractError>)
    ensures
        match r {
            Ok(entry) => entry_rows(deps).contains_key(key@) && entry_rows(deps)[key@] == entry@,
            Err(ContractError::NotFound {  }) => !entry_rows(deps).contains_key(key@),
            Err(ContractError::Std(_)) => true,
            Err(_) => false,
        },
{
    match primary_may_load(deps, key) {
        Err(fault) => Err(ContractError::Std(fault)),
        Ok(None) => Err(ContractError::NotFound {  }),
        Ok(Some(row)) => Ok(to_entry(&row)),
    }
}

/// The entries filed under one author, in ascending order of primary key,
/// from strictly behind `start_after`, at most `limit` of them.
pub fn scan_by_author(
    deps: Deps,
    author: &String,
    start_after: Option<Vec<u8>>,
    limit: usize,
) -> (r: Result<Vec<Entry>, ContractError>)
    requires
        fits_prefix(author@),
    ensures
        match r {
            Ok(found) => exists|page: Seq<(Seq<u8>, EntryModel)>|
                {
                    &&& #[trigger] is_page(
                        index_rows(deps),
                        entry_rows(deps),
                        true,
                        encode_utf8(author@),
                        cursor_model(start_after),
                        limit as nat,
                        page,
                    )
                    &&& models(found@) == entries_of(page)
                },
            Err(ContractError::Std(_)) => true,
            Err(_) => false,
        },
{
    match author_range(deps, author, start_after, limit) {
        Err(fault) => Err(ContractError::Std(fault)),
        Ok(rows) => Ok(to_entries(&rows)),
    }
}

/// The entries filed under one encoded location, in ascending order of
/// primary key, from strictly behind `start_after`, at most `limit` of them.
pub fn scan_by_coordinates(
    deps: Deps,
    at: &Vec<u8>,
    start_after: Option<Vec<u8>>,
    limit: usize,
) -> (r: Result<Vec<Entry>, ContractError>)
    requires
        at@.len() <= 0xFFFF,
    ensures
        match r {
            Ok(found) => exists|page: Seq<(Seq<u8>, EntryModel)>|
                {
                    &&& #[trigger] is_page(
                        index_rows(deps),
                        entry_rows(deps),
                        false,
                        at@,
                        cursor_model(start_after),
                        limit as nat,
                        page,
                    )
                    &&& models(found@) == entries_of(page)
                },
            Err(ContractError::Std(_)) => true,
            Err(_) => false,
        },
{
    match coordinates_range(deps, at, start_after, limit) {
        Err(fault) => Err(ContractError::Std(fault)),
        Ok(rows) => Ok(to_entries(&rows)),
    }
}

/// The primary map and the indexes belong together: every entry lies under
/// its own key and has its row in each index, and the indexes hold no other
/// row.
pub open spec fn consistent(
    rows: Map<Seq<u8>, EntryModel>,
    index: Set<(bool, Seq<u8>, Seq<u8>)>,
) -> bool {
    &&& forall|pk: Seq<u8>| #[trigger]
        rows.contains_key(pk) ==> {
            &&& pk == key_bytes(rows[pk].0, rows[pk].1)
            &&& index.contains(author_row(rows[pk], pk))
            &&& index.contains(coordinates_row(rows[pk], pk))
        }
    &&& forall|row: (bool, Seq<u8>, Seq<u8>)| #[trigger]
        index.contains(row) ==> {
            &&& rows.contains_key(row.2)
            &&& (row == author_row(rows[row.2], row.2) || row == coordinates_row(
                rows[row.2],
                row.2,
            ))
        }
}

/// The primary map after `e` was written under its own key.
pub open spec fn rows_with(rows: Map<Seq<u8>, EntryModel>, e: EntryModel) -> Map<
    Seq<u8>,
    EntryModel,
> {
    rows.insert(key_bytes(e.0, e.1), e)
}

/// The indexes after `e` was written under its own key.
pub open spec fn index_with(index: Set<(bool, Seq<u8>, Seq<u8>)>, e: EntryModel) -> Set<
    (bool, Seq<u8>, Seq<u8>),
> {
    index.insert(author_row(e, key_bytes(e.0, e.1))).insert(
        coordinates_row(e, key_bytes(e.0, e.1)),
    )
}

/// Writing an entry under its own, free key keeps the primary map and the
/// indexes together: the entry gets exactly one row in each index.
pub proof fn lemma_insert_keeps_consistent(
    rows: Map<Seq<u8>, EntryModel>,
    index: Set<(bool, Seq<u8>, Seq<u8>)>,
    e: EntryModel,
)
    requires
        consistent(rows, index),
        !rows.contains_key(key_bytes(e.0, e.1)),
    ensures
        consistent(rows_with(rows, e), index_with(index, e)),
{
    let key = key_bytes(e.0, e.1);
    let rows2 = rows_with(rows, e);
    let index2 = index_with(index, e);
    assert forall|pk: Seq<u8>| #[trigger] rows2.contains_key(pk) implies {
        &&& pk == key_bytes(rows2[pk].0, rows2[pk].1)
        &&& index2.contains(author_row(rows2[pk], pk))
        &&& index2.contains(coordinates_row(rows2[pk], pk))
    } by {
        if pk != key {
            assert(rows.contains_key(pk));
        }
    }
    assert forall|row: (bool, Seq<u8>, Seq<u8>)| #[trigger] index2.contains(row) implies {
        &&& rows2.contains_key(row.2)
        &&& (row == author_row(rows2[row.2], row.2) || row == coordinates_row(
            rows2[row.2],
            row.2,
        ))
    } by {
        if index.contains(row) {
            assert(rows.contains_key(row.2));
        }
    }
}

/// Two tokens that write at the same place do not disturb each other: a
/// by-coordinates page that is not cut off holds both entries, and a
/// by-author page that is not cut off holds the author's entry and not the
/// other's.
pub proof fn lemma_neighbours_coexist(
    rows: Map<Seq<u8>, EntryModel>,
    index: Set<(bool, Seq<u8>, Seq<u8>)>,
    a: EntryModel,
    b: EntryModel,
    limit: nat,
    by_place: Seq<(Seq<u8>, EntryModel)>,
    by_a: Seq<(Seq<u8>, EntryModel)>,
    by_b: Seq<(Seq<u8>, EntryModel)>,
)
    requires
        consistent(rows, index),
        a.0 != b.0,
        a.1 == b.1,
        !rows.contains_key(key_bytes(a.0, a.1)),
        !rows.contains_key(key_bytes(b.0, b.1)),
        is_page(
            index_with(index_with(index, a), b),
            rows_with(rows_with(rows, a), b),
            false,
            coordinate_bytes(a.1),
            None,
            limit,
            by_place,
        ),
        is_page(
            index_with(index_with(index, a), b),
            rows_with(rows_with(rows, a), b),
            true,
            encode_utf8(a.0),
            None,
            limit,
            by_a,
        ),
        is_page(
            index_with(index_with(index, a), b),
            rows_with(rows_with(rows, a), b),
            true,
            encode_utf8(b.0),
            None,
            limit,
            by_b,
        ),
        by_place.len() < limit,
        by_a.len() < limit,
        by_b.len() < limit,
    ensures
        key_bytes(a.0, a.1) != key_bytes(b.0, b.1),
        rows_with(rows_with(rows, a), b)[key_bytes(a.0, a.1)] == a,
        rows_with(rows_with(rows, a), b)[key_bytes(b.0, b.1)] == b,
        page_holds(by_place, key_bytes(a.0, a.1)),
        page_holds(by_place, key_bytes(b.0, b.1)),
        page_holds(by_a, key_bytes(a.0, a.1)),
        !page_holds(by_a, key_bytes(b.0, b.1)),
        page_holds(by_b, key_bytes(b.0, b.1)),
        !page_holds(by_b, key_bytes(a.0, a.1)),
{
    let ka = key_bytes(a.0, a.1);
    let kb = key_bytes(b.0, b.1);
    let index2 = index_with(index_with(index, a), b);
    if ka == kb {
        lemma_key_bytes_injective(a.0, a.1, b.0, b.1);
    }
    encode_utf8_decode_utf8(a.0);
    encode_utf8_decode_utf8(b.0);
    assert(decode_utf8(encode_utf8(a.0)) == a.0);
    assert(decode_utf8(encode_utf8(b.0)) == b.0);
    assert(encode_utf8(a.0) != encode_utf8(b.0));
    assert(index2.contains(coordinates_row(a, ka)));
    assert(index2.contains(coordinates_row(b, kb)));
    assert(index2.contains(author_row(a, ka)));
    assert(index2.contains(author_row(b, kb)));
    if page_holds(by_a, kb) {
        let i = choose|i: int| 0 <= i < by_a.len() && (#[trigger] by_a[i]).0 == kb;
        assert(index2.contains((true, encode_utf8(a.0), kb)));
        if index.contains((true, encode_utf8(a.0), kb)) {
            assert(rows.contains_key(kb));
        }
    }
    if page_holds(by_b, ka) {
        let i = choose|i: int| 0 <= i < by_b.len() && (#[trigger] by_b[i]).0 == ka;
        assert(index2.contains((true, encode_utf8(b.0), ka)));
        if index.contains((true, encode_utf8(b.0), ka)) {
            assert(rows.contains_key(ka));
        }
    }
}

} // verus!
