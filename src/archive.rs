use vstd::prelude::*;

use crate::errors::Error;
use crate::format::{detect, get_data_format, DataFormat};
use crate::number::{bounds_of, parse_bounds};
use crate::sql::{open_read_only, query_blob, query_count, query_text_pairs, RowOutcome};
use crate::text::{parse_u32, str_eq, u32_of};

verus! {

/// The description of one archive, read once when the archive is opened.
#[derive(Clone, Debug)]
pub struct TileMeta {
    pub path: String,
    pub name: Option<String>,
    pub version: Option<String>,
    pub tilejson: String,
    pub scheme: String,
    pub id: String,
    pub tile_format: DataFormat,
    pub grid_format: Option<DataFormat>,
    /// The components of the `bounds` entry that read as numbers, as
    /// written: west, south, east, north.
    pub bounds: Option<Vec<String>>,
    pub minzoom: Option<u32>,
    pub maxzoom: Option<u32>,
    pub description: Option<String>,
    pub attribution: Option<String>,
    pub legend: Option<String>,
    pub template: Option<String>,
}

/// The value of a `TileMeta`, with its texts as character sequences.
pub struct MetaView {
    pub path: Seq<char>,
    pub name: Option<Seq<char>>,
    pub version: Option<Seq<char>>,
    pub tilejson: Seq<char>,
    pub scheme: Seq<char>,
    pub id: Seq<char>,
    pub tile_format: DataFormat,
    pub grid_format: Option<DataFormat>,
    pub bounds: Option<Seq<Seq<char>>>,
    pub minzoom: Option<u32>,
    pub maxzoom: Option<u32>,
    pub description: Option<Seq<char>>,
    pub attribution: Option<Seq<char>>,
    pub legend: Option<Seq<char>>,
    pub template: Option<Seq<char>>,
}

/// The characters of an optional text.
pub open spec fn text_opt(o: Option<String>) -> Option<Seq<char>> {
    match o {
        Some(s) => Some(s@),
        None => None,
    }
}

impl View for TileMeta {
    type V = MetaView;

    open spec fn view(&self) -> MetaView {
        MetaView {
            path: self.path@,
            name: text_opt(self.name),
            version: text_opt(self.version),
            tilejson: self.tilejson@,
            scheme: self.scheme@,
            id: self.id@,
            tile_format: self.tile_format,
            grid_format: self.grid_format,
            bounds: match self.bounds {
                Some(b) => Some(b.deep_view()),
                None => None,
            },
            minzoom: self.minzoom,
            maxzoom: self.maxzoom,
            description: text_opt(self.description),
            attribution: text_opt(self.attribution),
            legend: text_opt(self.legend),
            template: text_opt(self.template),
        }
    }
}

/// The description of a freshly opened archive, before its metadata
/// entries are read: TileJSON 2.1.0, the `xyz` scheme, nothing else set.
pub open spec fn base_meta(
    path: Seq<char>,
    id: Seq<char>,
    tile_format: DataFormat,
    grid_format: Option<DataFormat>,
) -> MetaView {
    MetaView {
        path,
        name: None,
        version: None,
        tilejson: "2.1.0"@,
        scheme: "xyz"@,
        id,
        tile_format,
        grid_format,
        bounds: None,
        minzoom: None,
        maxzoom: None,
        description: None,
        attribution: None,
        legend: None,
        template: None,
    }
}

/// The description after one metadata entry is read. Entries with an empty
/// value and unknown labels change nothing; a zoom level that is not a
/// `u32` is a `ParseError`; components of `bounds` that are not numbers are
/// dropped.
pub open spec fn with_entry(m: MetaView, label: Seq<char>, value: Seq<char>) -> Result<
    MetaView,
    Error,
> {
    if value.len() == 0 {
        Ok(m)
    } else if label == "name"@ {
        Ok(MetaView { name: Some(value), ..m })
    } else if label == "version"@ {
        Ok(MetaView { version: Some(value), ..m })
    } else if label == "bounds"@ {
        Ok(MetaView { bounds: Some(bounds_of(value)), ..m })
    } else if label == "minzoom"@ {
        match u32_of(value) {
            Some(n) => Ok(MetaView { minzoom: Some(n), ..m }),
            None => Err(Error::ParseError),
        }
    } else if label == "maxzoom"@ {
        match u32_of(value) {
            Some(n) => Ok(MetaView { maxzoom: Some(n), ..m }),
            None => Err(Error::ParseError),
        }
    } else if label == "description"@ {
        Ok(MetaView { description: Some(value), ..m })
    } else if label == "attribution"@ {
        Ok(MetaView { attribution: Some(value), ..m })
    } else if label == "legend"@ {
        Ok(MetaView { legend: Some(value), ..m })
    } else if label == "template"@ {
        Ok(MetaView { template: Some(value), ..m })
    } else {
        Ok(m)
    }
}

/// The description after the given entries are read in order; the first
/// malformed entry decides the error.
pub open spec fn with_entries(m: MetaView, rows: Seq<(Seq<char>, Seq<char>)>) -> Result<
    MetaView,
    Error,
>
    decreases rows.len(),
{
    if rows.len() == 0 {
        Ok(m)
    } else {
        match with_entries(m, rows.drop_last()) {
            Ok(m2) => with_entry(m2, rows.last().0, rows.last().1),
            Err(e) => Err(e),
        }
    }
}

/// The characters of each label and value.
pub open spec fn pairs_view(rows: Seq<(String, String)>) -> Seq<(Seq<char>, Seq<char>)> {
    rows.map_values(|p: (String, String)| (p.0@, p.1@))
}

proof fn lemma_error_sticks(m: MetaView, rows: Seq<(Seq<char>, Seq<char>)>, k: int, e: Error)
    requires
        0 <= k <= rows.len(),
        with_entries(m, rows.take(k)) == Err::<MetaView, Error>(e),
    ensures
        with_entries(m, rows) == Err::<MetaView, Error>(e),
    decreases rows.len(),
{
    if k == rows.len() {
        assert(rows.take(k) =~= rows);
    } else {
        assert(rows.drop_last().take(k) =~= rows.take(k));
        lemma_error_sticks(m, rows.drop_last(), k, e);
    }
}

proof fn lemma_entries_keep_identity(m: MetaView, rows: Seq<(Seq<char>, Seq<char>)>)
    ensures
        with_entries(m, rows) matches Ok(r) ==> r.path == m.path && r.id == m.id && r.tilejson
            == m.tilejson && r.scheme == m.scheme && r.tile_format == m.tile_format
            && r.grid_format == m.grid_format,
        with_entries(m, rows) matches Err(e) ==> e == Error::ParseError,
    decreases rows.len(),
{
    if rows.len() > 0 {
        lemma_entries_keep_identity(m, rows.drop_last());
    }
}

impl TileMeta {
    /// Reads one metadata entry into this description.
    pub fn apply_metadata(&mut self, label: &str, value: &str) -> (r: Result<(), Error>)
        ensures
            match r {
                Ok(_) => with_entry(old(self)@, label@, value@) == Ok::<MetaView, Error>(
                    final(self)@,
                ),
                Err(e) => with_entry(old(self)@, label@, value@) == Err::<MetaView, Error>(e)
                    && final(self)@ == old(self)@,
            },
    {
        if value.unicode_len() == 0 {
            return Ok(());
        }
        if str_eq(label, "name") {
            self.name = Some(value.to_owned());
        } else if str_eq(label, "version") {
            self.version = Some(value.to_owned());
        } else if str_eq(label, "bounds") {
            self.bounds = Some(parse_bounds(value));
        } else if str_eq(label, "minzoom") {
            match parse_u32(value) {
                Some(n) => self.minzoom = Some(n),
                None => return Err(Error::ParseError),
            }
        } else if str_eq(label, "maxzoom") {
            match parse_u32(value) {
                Some(n) => self.maxzoom = Some(n),
                None => return Err(Error::ParseError),
            }
        } else if str_eq(label, "description") {
            self.description = Some(value.to_owned());
        } else if str_eq(label, "attribution") {
            self.attribution = Some(value.to_owned());
        } else if str_eq(label, "legend") {
            self.legend = Some(value.to_owned());
        } else if str_eq(label, "template") {
            self.template = Some(value.to_owned());
        }
        Ok(())
    }
}

/// Builds the description of an archive from its formats and its metadata
/// entries, read in order.
pub fn tile_meta_from_rows(
    path: &str,
    id: &str,
    tile_format: DataFormat,
    grid_format: Option<DataFormat>,
    rows: &Vec<(String, String)>,
) -> (r: Result<TileMeta, Error>)
    ensures
        match r {
            Ok(m) => with_entries(base_meta(path@, id@, tile_format, grid_format), pairs_view(rows@))
                == Ok::<MetaView, Error>(m@),
            Err(e) => with_entries(base_meta(path@, id@, tile_format, grid_format), pairs_view(
                rows@,
            )) == Err::<MetaView, Error>(e),
        },
{
    let mut meta = TileMeta {
        path: path.to_owned(),
        name: None,
        version: None,
        tilejson: "2.1.0".to_owned(),
        scheme: "xyz".to_owned(),
        id: id.to_owned(),
        tile_format,
        grid_format,
        bounds: None,
        minzoom: None,
        maxzoom: None,
        description: None,
        attribution: None,
        legend: None,
        template: None,
    };
    let ghost base = base_meta(path@, id@, tile_format, grid_format);
    let ghost pv = pairs_view(rows@);
    assert(meta@ == base);
    assert(pv.take(0) =~= Seq::<(Seq<char>, Seq<char>)>::empty());
    let mut i: usize = 0;
    while i < rows.len()
        invariant
            i <= rows@.len(),
            pv == pairs_view(rows@),
            pv.len() == rows@.len(),
            base == base_meta(path@, id@, tile_format, grid_format),
            with_entries(base, pv.take(i as int)) == Ok::<MetaView, Error>(meta@),
        decreases rows@.len() - i,
    {
        let label = rows[i].0.as_str();
        let value = rows[i].1.as_str();
        assert(pv.take(i + 1).drop_last() =~= pv.take(i as int));
        assert(pv.take(i + 1).last() == pv[i as int]);
        match meta.apply_metadata(label, value) {
            Ok(()) => {},
            Err(e) => {
                proof {
                    lemma_error_sticks(base, pv, i + 1, e);
                }
                return Err(e);
            },
        }
        i = i + 1;
    }
    assert(pv.take(i as int) =~= pv);
    Ok(meta)
}

/// The schema check: `count` of the required schema objects found must be
/// both of them.
pub fn check_schema(count: RowOutcome<i64>) -> (r: Result<(), Error>)
    ensures
        r is Ok <==> (count matches RowOutcome::Row(n) && n >= 2),
        r is Err ==> r == Err::<(), Error>(Error::NotAnArchive),
{
    match count {
        RowOutcome::Row(n) => if n >= 2 {
            Ok(())
        } else {
            Err(Error::NotAnArchive)
        },
        _ => Err(Error::NotAnArchive),
    }
}

/// The format of a sampled payload: an empty table gives `UNKNOWN`, a
/// failed query `NotAnArchive`.
pub fn format_from_sample(sample: RowOutcome<Vec<u8>>) -> (r: Result<DataFormat, Error>)
    ensures
        match sample {
            RowOutcome::Row(b) => r == Ok::<DataFormat, Error>(detect(b@)),
            RowOutcome::NoRow => r == Ok::<DataFormat, Error>(DataFormat::UNKNOWN),
            RowOutcome::Failed => r == Err::<DataFormat, Error>(Error::NotAnArchive),
        },
{
    match sample {
        RowOutcome::Row(b) => Ok(get_data_format(&b)),
        RowOutcome::NoRow => Ok(DataFormat::UNKNOWN),
        RowOutcome::Failed => Err(Error::NotAnArchive),
    }
}

/// Whether all five grid-support schema objects were found.
pub fn has_grid_tables(count: RowOutcome<i64>) -> (r: bool)
    ensures
        r <==> (count matches RowOutcome::Row(n) && n == 5),
{
    match count {
        RowOutcome::Row(n) => n == 5,
        _ => false,
    }
}

/// Samples one payload of the `tiles` (category `tile`) or `grid_utfgrid`
/// (category `grid`) table and classifies it.
pub fn get_data_format_via_query(connection: &rusqlite::Connection, category: &str) -> (r: Result<
    DataFormat,
    Error,
>)
    ensures
        category@ != "tile"@ && category@ != "grid"@ ==> r == Err::<DataFormat, Error>(
            Error::NotAnArchive,
        ),
        r is Err ==> r == Err::<DataFormat, Error>(Error::NotAnArchive),
        r matches Ok(f) ==> f != DataFormat::JSON && f != DataFormat::PBF,
{
    let query = if str_eq(category, "tile") {
        "SELECT tile_data FROM tiles LIMIT 1"
    } else if str_eq(category, "grid") {
        "SELECT grid_utfgrid FROM grid_utfgrid LIMIT 1"
    } else {
        return Err(Error::NotAnArchive);
    };
    let none: [u32; 0] = [];
    format_from_sample(query_blob(connection, query, &none))
}

/// The grid format of an archive: present only where all five grid tables
/// exist, and then the format of the sampled grid payload (`UNKNOWN` for an
/// empty table); absent where the sample cannot be read.
pub fn grid_format_from(has_tables: bool, sample: RowOutcome<Vec<u8>>) -> (r: Option<DataFormat>)
    ensures
        r == if has_tables {
            match sample {
                RowOutcome::Row(b) => Some(detect(b@)),
                RowOutcome::NoRow => Some(DataFormat::UNKNOWN),
                RowOutcome::Failed => None,
            }
        } else {
            None::<DataFormat>
        },
{
    if !has_tables {
        return None;
    }
    match sample {
        RowOutcome::Row(b) => Some(get_data_format(&b)),
        RowOutcome::NoRow => Some(DataFormat::UNKNOWN),
        RowOutcome::Failed => None,
    }
}

/// The grid format of the archive open on `connection`. Detection by
/// leading bytes never names JSON or PBF, whatever the tables hold.
fn get_grid_info(connection: &rusqlite::Connection) -> (r: Option<DataFormat>)
    ensures
        r matches Some(f) ==> f != DataFormat::JSON && f != DataFormat::PBF,
{
    let count = query_count(
        connection,
        "SELECT count(*) FROM sqlite_master WHERE name IN ('grids', 'grid_data', 'grid_utfgrid', 'keymap', 'grid_key')",
    );
    let has_tables = has_grid_tables(count);
    let sample = if has_tables {
        let none: [u32; 0] = [];
        query_blob(connection, "SELECT grid_utfgrid FROM grid_utfgrid LIMIT 1", &none)
    } else {
        RowOutcome::NoRow
    };
    grid_format_from(has_tables, sample)
}

/// The preview page for a tile format: vector tiles get their own.
pub fn template_for(format: DataFormat) -> (r: &'static str)
    ensures
        format == DataFormat::PBF ==> r@ == "templates/map_vector.html"@,
        format != DataFormat::PBF ==> r@ == "templates/map.html"@,
{
    match format {
        DataFormat::PBF => "templates/map_vector.html",
        _ => "templates/map.html",
    }
}

/// The preview page for the archive at `tile_path`, by its tile format.
pub fn get_template(tile_path: &str) -> (r: Result<&'static str, Error>)
    ensures
        r matches Ok(t) ==> t@ == "templates/map_vector.html"@ || t@ == "templates/map.html"@,
{
    let connection = match open_read_only(tile_path) {
        Some(c) => c,
        None => return Err(Error::NotAnArchive),
    };
    match get_data_format_via_query(&connection, "tile") {
        Ok(f) => Ok(template_for(f)),
        Err(e) => Err(e),
    }
}

/// Opens the archive at `path` and reads its description, under the id
/// `tile_name`.
pub fn get_tile_details(path: &str, tile_name: &str) -> (r: Result<TileMeta, Error>)
    ensures
        r matches Ok(m) ==> m@.id == tile_name@ && m@.path == path@ && m@.tilejson == "2.1.0"@
            && m@.scheme == "xyz"@,
        r matches Err(e) ==> e == Error::NotAnArchive || e == Error::ParseError,
        r matches Ok(m) ==> (m.grid_format matches Some(f) ==> f != DataFormat::JSON && f
            != DataFormat::PBF),
        r matches Ok(m) ==> m.tile_format != DataFormat::JSON && m.tile_format
            != DataFormat::PBF,
        r matches Ok(m) ==> exists|rows: Seq<(Seq<char>, Seq<char>)>|
            with_entries(base_meta(path@, tile_name@, m.tile_format, m.grid_format), rows)
                == Ok::<MetaView, Error>(m@),
{
    let connection = match open_read_only(path) {
        Some(c) => c,
        None => return Err(Error::NotAnArchive),
    };
    let count = query_count(
        &connection,
        "SELECT count(*) FROM sqlite_master WHERE name IN ('tiles', 'metadata')",
    );
    match check_schema(count) {
        Ok(()) => {},
        Err(e) => return Err(e),
    }
    let tile_format = match get_data_format_via_query(&connection, "tile") {
        Ok(f) => f,
        Err(e) => return Err(e),
    };
    let grid_format = get_grid_info(&connection);
    let none: [u32; 0] = [];
    let rows = match query_text_pairs(
        &connection,
        "SELECT CAST(name AS TEXT), CAST(value AS TEXT) FROM metadata WHERE value IS NOT NULL AND value != ''",
        &none,
    ) {
        Some(rows) => rows,
        None => return Err(Error::NotAnArchive),
    };
    let r = tile_meta_from_rows(path, tile_name, tile_format, grid_format, &rows);
    proof {
        lemma_entries_keep_identity(
            base_meta(path@, tile_name@, tile_format, grid_format),
            pairs_view(rows@),
        );
        if r is Ok {
            let m = r->Ok_0;
            assert(with_entries(base_meta(path@, tile_name@, m.tile_format, m.grid_format),
                pairs_view(rows@)) == Ok::<MetaView, Error>(m@));
        }
    }
    r
}

/// The single transparent pixel served in place of a missing tile.
pub open spec fn blank_png() -> Seq<u8> {
    seq![
        0x89u8, 0x50u8, 0x4Eu8, 0x47u8, 0x0Du8, 0x0Au8, 0x1Au8, 0x0Au8, 0x00u8, 0x00u8,
        0x00u8, 0x0Du8, 0x49u8, 0x48u8, 0x44u8, 0x52u8, 0x00u8, 0x00u8, 0x01u8, 0x00u8,
        0x00u8, 0x00u8, 0x01u8, 0x00u8, 0x01u8, 0x03u8, 0x00u8, 0x00u8, 0x00u8, 0x66u8,
        0xBCu8, 0x3Au8, 0x25u8, 0x00u8, 0x00u8, 0x00u8, 0x03u8, 0x50u8, 0x4Cu8, 0x54u8,
        0x45u8, 0x00u8, 0x00u8, 0x00u8, 0xA7u8, 0x7Au8, 0x3Du8, 0xDAu8, 0x00u8, 0x00u8,
        0x00u8, 0x01u8, 0x74u8, 0x52u8, 0x4Eu8, 0x53u8, 0x00u8, 0x40u8, 0xE6u8, 0xD8u8,
        0x66u8, 0x00u8, 0x00u8, 0x00u8, 0x1Fu8, 0x49u8, 0x44u8, 0x41u8, 0x54u8, 0x68u8,
        0xDEu8, 0xEDu8, 0xC1u8, 0x01u8, 0x0Du8, 0x00u8, 0x00u8, 0x00u8, 0xC2u8, 0x20u8,
        0xFBu8, 0xA7u8, 0x36u8, 0xC7u8, 0x37u8, 0x60u8, 0x00u8, 0x00u8, 0x00u8, 0x00u8,
        0x00u8, 0x00u8, 0x00u8, 0x00u8, 0x71u8, 0x07u8, 0x21u8, 0x00u8, 0x00u8, 0x01u8,
        0xA7u8, 0x57u8, 0x29u8, 0xD7u8, 0x00u8, 0x00u8, 0x00u8, 0x00u8, 0x49u8, 0x45u8,
        0x4Eu8, 0x44u8, 0xAEu8, 0x42u8, 0x60u8, 0x82u8,
    ]
}

/// The placeholder image for a missing tile.
pub fn get_blank_image() -> (r: Vec<u8>)
    ensures
        r@ == blank_png(),
{
    let image: Vec<u8> = vec![
        0x89, 0x50, 0x4E, 0x47, 0x0D, 0x0A, 0x1A, 0x0A, 0x00, 0x00,
        0x00, 0x0D, 0x49, 0x48, 0x44, 0x52, 0x00, 0x00, 0x01, 0x00,
        0x00, 0x00, 0x01, 0x00, 0x01, 0x03, 0x00, 0x00, 0x00, 0x66,
        0xBC, 0x3A, 0x25, 0x00, 0x00, 0x00, 0x03, 0x50, 0x4C, 0x54,
        0x45, 0x00, 0x00, 0x00, 0xA7, 0x7A, 0x3D, 0xDA, 0x00, 0x00,
        0x00, 0x01, 0x74, 0x52, 0x4E, 0x53, 0x00, 0x40, 0xE6, 0xD8,
        0x66, 0x00, 0x00, 0x00, 0x1F, 0x49, 0x44, 0x41, 0x54, 0x68,
        0xDE, 0xED, 0xC1, 0x01, 0x0D, 0x00, 0x00, 0x00, 0xC2, 0x20,
        0xFB, 0xA7, 0x36, 0xC7, 0x37, 0x60, 0x00, 0x00, 0x00, 0x00,
        0x00, 0x00, 0x00, 0x00, 0x71, 0x07, 0x21, 0x00, 0x00, 0x01,
        0xA7, 0x57, 0x29, 0xD7, 0x00, 0x00, 0x00, 0x00, 0x49, 0x45,
        0x4E, 0x44, 0xAE, 0x42, 0x60, 0x82,
    ];
    assert(image@ =~= blank_png());
    image
}

/// Looks up the tile at zoom `z`, column `x`, row `y` of the archive at
/// `tile_path`. An archive that cannot be opened is a failed lookup; the
/// file is closed again before this returns.
pub fn lookup_tile(tile_path: &str, z: u32, x: u32, y: u32) -> (r: RowOutcome<Vec<u8>>) {
    let connection = match open_read_only(tile_path) {
        Some(c) => c,
        None => return RowOutcome::Failed,
    };
    let params: [u32; 3] = [z, x, y];
    query_blob(
        &connection,
        "SELECT tile_data FROM tiles WHERE zoom_level = ?1 AND tile_column = ?2 AND tile_row = ?3",
        &params,
    )
}

/// The tile to serve for a lookup: the stored bytes unchanged where it found
/// a row, the placeholder image where it found none or failed.
pub fn get_tile_data(found: RowOutcome<Vec<u8>>) -> (r: Vec<u8>)
    ensures
        match found {
            RowOutcome::Row(b) => r@ == b@,
            _ => r@ == blank_png(),
        },
{
    match found {
        RowOutcome::Row(b) => b,
        _ => get_blank_image(),
    }
}

} // verus!
