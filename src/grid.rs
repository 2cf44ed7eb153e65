use vstd::prelude::*;

use crate::codec::{decode, decoded};
use crate::errors::Error;
use crate::format::{detect, get_data_format};
use crate::json::{grid_payload_of, json_accepts, parse_grid_payload, parse_json};
use crate::sql::{open_read_only, query_blob, query_text_pairs, RowOutcome};
use crate::entries::{keys_of, lemma_push_contains, upsert};

verus! {

/// The interactivity data of one tile: the grid rows, the key of each
/// feature id in them, and the attributes stored for each key.
#[derive(Debug)]
pub struct UTFGrid {
    /// One entry per key; no key appears twice.
    pub data: Vec<(String, serde_json::Value)>,
    pub grid: Vec<String>,
    pub keys: Vec<String>,
}

/// The keys of attribute entries, in order.
pub open spec fn entry_keys(data: Seq<(String, serde_json::Value)>) -> Seq<Seq<char>> {
    keys_of(data)
}

/// The key of each stored row, in order.
pub open spec fn row_keys(rows: Seq<(String, String)>) -> Seq<Seq<char>> {
    rows.map_values(|p: (String, String)| p.0@)
}

/// Whether every stored row holds one JSON document.
pub open spec fn all_rows_json(rows: Seq<(String, String)>) -> bool {
    forall|i: int| 0 <= i < rows.len() ==> json_accepts(#[trigger] rows[i].1@)
}

/// The text of a grid payload: decompressed by its detected format, then
/// read for its `grid` and `keys` arrays.
pub open spec fn payload_of(b: Seq<u8>) -> Result<(Seq<Seq<char>>, Seq<Seq<char>>), Error> {
    match decoded(b, detect(b)) {
        Ok(text) => match grid_payload_of(text) {
            Some(p) => Ok(p),
            None => Err(Error::CorruptData),
        },
        Err(_) => Err(Error::CorruptData),
    }
}

/// Reads the `grid` and `keys` arrays out of a stored grid payload; a grid
/// that was not found is `NotFound`, one that does not decompress or parse
/// is `CorruptData`.
pub fn grid_payload(found: RowOutcome<Vec<u8>>) -> (r: Result<(Vec<String>, Vec<String>), Error>)
    ensures
        match found {
            RowOutcome::Row(b) => match r {
                Ok((g, k)) => payload_of(b@) == Ok::<(Seq<Seq<char>>, Seq<Seq<char>>), Error>(
                    (g.deep_view(), k.deep_view()),
                ),
                Err(e) => payload_of(b@) == Err::<(Seq<Seq<char>>, Seq<Seq<char>>), Error>(e),
            },
            _ => r == Err::<(Vec<String>, Vec<String>), Error>(Error::NotFound),
        },
{
    let blob = match found {
        RowOutcome::Row(b) => b,
        _ => return Err(Error::NotFound),
    };
    let format = get_data_format(&blob);
    let text = match decode(blob, format) {
        Ok(t) => t,
        Err(_) => return Err(Error::CorruptData),
    };
    match parse_grid_payload(text.as_str()) {
        Some(p) => Ok(p),
        None => Err(Error::CorruptData),
    }
}

/// Assembles a grid from its arrays and its stored attribute rows. Each
/// row's value is read as JSON; a later row replaces an earlier one with
/// the same key. A value that is not JSON fails the whole grid.
pub fn grid_from_parts(grid: Vec<String>, keys: Vec<String>, rows: Vec<(String, String)>) -> (r:
    Result<UTFGrid, Error>)
    ensures
        r is Ok <==> all_rows_json(rows@),
        r is Err ==> r == Err::<UTFGrid, Error>(Error::CorruptData),
        r matches Ok(u) ==> u.grid.deep_view() == grid.deep_view() && u.keys.deep_view()
            == keys.deep_view() && entry_keys(u.data@).no_duplicates() && forall|k: Seq<char>|
            entry_keys(u.data@).contains(k) <==> row_keys(rows@).contains(k),
{
    let mut data: Vec<(String, serde_json::Value)> = Vec::new();
    let mut i: usize = 0;
    while i < rows.len()
        invariant
            i <= rows@.len(),
            forall|m: int| 0 <= m < i ==> json_accepts(#[trigger] rows@[m].1@),
            entry_keys(data@).no_duplicates(),
            forall|k: Seq<char>|
                entry_keys(data@).contains(k) <==> row_keys(rows@.take(i as int)).contains(k),
        decreases rows@.len() - i,
    {
        let key = rows[i].0.as_str();
        let value = match parse_json(rows[i].1.as_str()) {
            Some(v) => v,
            None => {
                assert(!all_rows_json(rows@));
                return Err(Error::CorruptData);
            },
        };
        let ghost taken = row_keys(rows@.take(i as int));
        assert(row_keys(rows@.take(i + 1)) =~= taken.push(key@));
        upsert(&mut data, key.to_owned(), value);
        assert forall|k: Seq<char>|
            entry_keys(data@).contains(k) <==> row_keys(rows@.take(i + 1)).contains(k) by {
            lemma_push_contains(taken, key@, k);
        }
        i = i + 1;
    }
    assert(rows@.take(i as int) =~= rows@);
    Ok(UTFGrid { data, grid, keys })
}

/// The interactivity grid at zoom `z`, column `x`, row `y` of the archive at
/// `tile_path`, with the attributes stored for the same coordinate.
pub fn get_grid_data(tile_path: &str, z: u32, x: u32, y: u32) -> (r: Result<UTFGrid, Error>)
    ensures
        r matches Err(e) ==> e == Error::NotAnArchive || e == Error::NotFound || e
            == Error::CorruptData,
        r matches Ok(u) ==> entry_keys(u.data@).no_duplicates(),
{
    let connection = match open_read_only(tile_path) {
        Some(c) => c,
        None => return Err(Error::NotAnArchive),
    };
    let params: [u32; 3] = [z, x, y];
    let found = query_blob(
        &connection,
        "SELECT grid FROM grids WHERE zoom_level = ?1 AND tile_column = ?2 AND tile_row = ?3",
        &params,
    );
    let (grid, keys) = match grid_payload(found) {
        Ok(p) => p,
        Err(e) => return Err(e),
    };
    let rows = match query_text_pairs(
        &connection,
        "SELECT key_name, key_json FROM grid_data WHERE zoom_level = ?1 AND tile_column = ?2 AND tile_row = ?3",
        &params,
    ) {
        Some(rows) => rows,
        None => return Err(Error::CorruptData),
    };
    grid_from_parts(grid, keys, rows)
}

} // verus!
