use mbtileserver::{
    check_schema, encode, format_from_sample, get_blank_image, get_data_format_via_query,
    get_grid_data, get_template, grid_format_from, has_grid_tables, template_for, get_tile_data, get_tile_details, grid_from_parts, grid_payload,
    lookup_tile, tile_meta_from_rows, DataFormat, Error, RowOutcome, TileMeta,
};

const PNG_TILE: [u8; 10] = [0x89, 0x50, 0x4E, 0x47, 0x0D, 0x0A, 0x1A, 0x0A, 0x01, 0x02];

fn fresh_db(path: &str) -> rusqlite::Connection {
    let c = rusqlite::Connection::open(path).unwrap();
    c.execute_batch(
        "DROP TABLE IF EXISTS tiles; DROP TABLE IF EXISTS metadata; DROP TABLE IF EXISTS grids;
         DROP TABLE IF EXISTS grid_data; DROP TABLE IF EXISTS grid_utfgrid;
         DROP TABLE IF EXISTS keymap; DROP TABLE IF EXISTS grid_key;",
    )
    .unwrap();
    c
}

fn make_archive(path: &str, with_metadata: bool) {
    let c = fresh_db(path);
    c.execute_batch(
        "CREATE TABLE tiles (zoom_level INTEGER, tile_column INTEGER, tile_row INTEGER, tile_data BLOB);",
    )
    .unwrap();
    c.execute(
        "INSERT INTO tiles VALUES (1, 2, 3, ?1)",
        [PNG_TILE.to_vec()],
    )
    .unwrap();
    if with_metadata {
        c.execute_batch(
            "CREATE TABLE metadata (name TEXT, value TEXT);
             INSERT INTO metadata VALUES ('name', 'City');
             INSERT INTO metadata VALUES ('bounds', '-10,20,30,40.5');
             INSERT INTO metadata VALUES ('minzoom', '0');
             INSERT INTO metadata VALUES ('maxzoom', '14');
             INSERT INTO metadata VALUES ('description', '');
             INSERT INTO metadata VALUES ('color', 'red');",
        )
        .unwrap();
    }
}

fn add_grids(path: &str) {
    let c = rusqlite::Connection::open(path).unwrap();
    c.execute_batch(
        "CREATE TABLE grids (zoom_level INTEGER, tile_column INTEGER, tile_row INTEGER, grid BLOB);
         CREATE TABLE grid_data (zoom_level INTEGER, tile_column INTEGER, tile_row INTEGER, key_name TEXT, key_json TEXT);
         CREATE TABLE grid_utfgrid (grid_utfgrid BLOB);
         CREATE TABLE keymap (key_name TEXT, key_json TEXT);
         CREATE TABLE grid_key (grid_id TEXT, key_name TEXT);",
    )
    .unwrap();
    let payload = encode(b"{\"grid\":[\" !\",\"! \"],\"keys\":[\"\",\"7\"]}");
    c.execute("INSERT INTO grids VALUES (1, 2, 3, ?1)", [payload.clone()]).unwrap();
    c.execute("INSERT INTO grid_utfgrid VALUES (?1)", [payload]).unwrap();
    c.execute_batch(
        "INSERT INTO grid_data VALUES (1, 2, 3, '7', '{\"name\":\"park\"}');
         INSERT INTO grid_data VALUES (1, 2, 4, '8', '{\"name\":\"lake\"}');",
    )
    .unwrap();
}

fn meta(path: &str) -> TileMeta {
    tile_meta_from_rows(path, "x", DataFormat::PNG, None, &vec![]).unwrap()
}

#[test]
fn open_reads_id_format_and_metadata() {
    let path = "/tmp/mbtileserver_open_city.mbtiles";
    make_archive(path, true);
    let m = get_tile_details(path, "city").unwrap();
    assert_eq!(m.id, "city");
    assert_eq!(m.path, path);
    assert_eq!(m.tile_format, DataFormat::PNG);
    assert_eq!(m.grid_format, None);
    assert_eq!(m.tilejson, "2.1.0");
    assert_eq!(m.scheme, "xyz");
    assert_eq!(m.name, Some("City".to_string()));
    assert_eq!(m.bounds, Some(vec!["-10".to_string(), "20".to_string(), "30".to_string(), "40.5".to_string()]));
    assert_eq!(m.minzoom, Some(0));
    assert_eq!(m.maxzoom, Some(14));
    assert_eq!(m.description, None);
}

#[test]
fn open_without_metadata_is_not_an_archive() {
    let path = "/tmp/mbtileserver_open_nometa.mbtiles";
    make_archive(path, false);
    assert!(matches!(get_tile_details(path, "city"), Err(Error::NotAnArchive)));
}

#[test]
fn open_missing_file_is_not_an_archive() {
    assert!(matches!(
        get_tile_details("/tmp/mbtileserver_no_such_dir/none.mbtiles", "none"),
        Err(Error::NotAnArchive)
    ));
}

#[test]
fn open_reads_grid_format() {
    let path = "/tmp/mbtileserver_open_grids.mbtiles";
    make_archive(path, true);
    add_grids(path);
    let m = get_tile_details(path, "g").unwrap();
    assert_eq!(m.grid_format, Some(DataFormat::GZIP));
}

#[test]
fn sample_query_by_category() {
    let path = "/tmp/mbtileserver_sample.mbtiles";
    make_archive(path, true);
    let c = rusqlite::Connection::open(path).unwrap();
    assert_eq!(get_data_format_via_query(&c, "tile"), Ok(DataFormat::PNG));
    assert_eq!(get_data_format_via_query(&c, "other"), Err(Error::NotAnArchive));
    assert_eq!(get_data_format_via_query(&c, "grid"), Err(Error::NotAnArchive));
    assert_eq!(get_template(path), Ok("templates/map.html"));
}

#[test]
fn schema_and_sample_decisions() {
    assert_eq!(check_schema(RowOutcome::Row(2)), Ok(()));
    assert_eq!(check_schema(RowOutcome::Row(1)), Err(Error::NotAnArchive));
    assert_eq!(check_schema(RowOutcome::Failed), Err(Error::NotAnArchive));
    assert_eq!(format_from_sample(RowOutcome::Row(vec![0xFF, 0xD8, 0xFF])), Ok(DataFormat::JPG));
    assert_eq!(format_from_sample(RowOutcome::NoRow), Ok(DataFormat::UNKNOWN));
    assert_eq!(format_from_sample(RowOutcome::Failed), Err(Error::NotAnArchive));
}

#[test]
fn metadata_entries() {
    let rows = vec![
        ("version".to_string(), "1.0".to_string()),
        ("bounds".to_string(), "-10,x,30,40.5".to_string()),
        ("legend".to_string(), "L".to_string()),
        ("template".to_string(), "T".to_string()),
        ("attribution".to_string(), "A".to_string()),
    ];
    let m = tile_meta_from_rows("p", "id", DataFormat::PBF, Some(DataFormat::ZLIB), &rows).unwrap();
    assert_eq!(m.version, Some("1.0".to_string()));
    assert_eq!(m.bounds, Some(vec!["-10".to_string(), "30".to_string(), "40.5".to_string()]));
    assert_eq!(m.legend, Some("L".to_string()));
    assert_eq!(m.template, Some("T".to_string()));
    assert_eq!(m.attribution, Some("A".to_string()));
    assert_eq!(m.tile_format, DataFormat::PBF);
    assert_eq!(m.grid_format, Some(DataFormat::ZLIB));
}

#[test]
fn malformed_zoom_is_parse_error() {
    let rows = vec![
        ("name".to_string(), "n".to_string()),
        ("maxzoom".to_string(), "high".to_string()),
    ];
    assert!(matches!(tile_meta_from_rows("p", "id", DataFormat::PNG, None, &rows), Err(Error::ParseError)));
    let mut m = meta("p");
    assert_eq!(m.apply_metadata("minzoom", "-1"), Err(Error::ParseError));
    assert_eq!(m.minzoom, None);
    assert_eq!(m.apply_metadata("minzoom", "3"), Ok(()));
    assert_eq!(m.minzoom, Some(3));
}

#[test]
fn missing_tile_is_blank_image() {
    let path = "/tmp/mbtileserver_tile.mbtiles";
    make_archive(path, true);
    let blank = get_blank_image();
    assert_eq!(blank.len(), 116);
    assert_eq!(&blank[0..8], &[0x89, 0x50, 0x4E, 0x47, 0x0D, 0x0A, 0x1A, 0x0A]);
    assert_eq!(&blank[112..], &[0xAE, 0x42, 0x60, 0x82]);
    assert_eq!(get_tile_data(lookup_tile(path, 9, 9, 9)), blank);
    assert_eq!(get_tile_data(lookup_tile("/tmp/mbtileserver_no_such_dir/x.mbtiles", 1, 2, 3)), blank);
}

#[test]
fn present_tile_is_returned_unchanged() {
    let path = "/tmp/mbtileserver_tile_present.mbtiles";
    make_archive(path, true);
    assert_eq!(get_tile_data(lookup_tile(path, 1, 2, 3)), PNG_TILE.to_vec());
    assert_eq!(get_tile_data(RowOutcome::Row(vec![1, 2])), vec![1, 2]);
    assert_eq!(get_tile_data(RowOutcome::NoRow), get_blank_image());
}

#[test]
fn grid_merges_payload_and_rows() {
    let path = "/tmp/mbtileserver_grid.mbtiles";
    make_archive(path, true);
    add_grids(path);
    let g = get_grid_data(path, 1, 2, 3).unwrap();
    assert_eq!(g.grid, vec![" !".to_string(), "! ".to_string()]);
    assert_eq!(g.keys, vec!["".to_string(), "7".to_string()]);
    assert_eq!(g.data.len(), 1);
    assert_eq!(g.data[0].0, "7");
    let park: serde_json::Value = serde_json::from_str("{\"name\":\"park\"}").unwrap();
    assert_eq!(g.data[0].1, park);
}

#[test]
fn absent_grid_is_not_found() {
    let path = "/tmp/mbtileserver_grid_absent.mbtiles";
    make_archive(path, true);
    add_grids(path);
    assert!(matches!(get_grid_data(path, 5, 5, 5), Err(Error::NotFound)));
    assert!(matches!(grid_payload(RowOutcome::NoRow), Err(Error::NotFound)));
}

#[test]
fn corrupt_grid_payloads() {
    assert!(matches!(grid_payload(RowOutcome::Row(b"{\"grid\":[]}".to_vec())), Err(Error::CorruptData)));
    assert!(matches!(grid_payload(RowOutcome::Row(encode(b"{\"grid\":[]}"))), Err(Error::CorruptData)));
    assert!(matches!(grid_payload(RowOutcome::Row(encode(b"not json"))), Err(Error::CorruptData)));
    let (g, k) = grid_payload(RowOutcome::Row(encode(b"{\"grid\":[\"a\"],\"keys\":[\"b\"],\"data\":1}"))).unwrap();
    assert_eq!((g, k), (vec!["a".to_string()], vec!["b".to_string()]));
}

#[test]
fn grid_rows_later_key_wins_and_bad_json_fails() {
    let rows = vec![
        ("a".to_string(), "1".to_string()),
        ("b".to_string(), "true".to_string()),
        ("a".to_string(), "2".to_string()),
    ];
    let g = grid_from_parts(vec![], vec![], rows).unwrap();
    assert_eq!(g.data.len(), 2);
    let a = g.data.iter().find(|e| e.0 == "a").unwrap();
    assert_eq!(a.1, serde_json::Value::from(2));
    let bad = vec![("a".to_string(), "1".to_string()), ("b".to_string(), "{".to_string())];
    assert!(matches!(grid_from_parts(vec![], vec![], bad), Err(Error::CorruptData)));
}

#[test]
fn grid_tables_and_templates() {
    assert!(has_grid_tables(RowOutcome::Row(5)));
    assert!(!has_grid_tables(RowOutcome::Row(4)));
    assert!(!has_grid_tables(RowOutcome::NoRow));
    assert_eq!(template_for(DataFormat::PBF), "templates/map_vector.html");
    assert_eq!(template_for(DataFormat::PNG), "templates/map.html");
}

#[test]
fn grid_format_needs_all_tables() {
    assert_eq!(grid_format_from(true, RowOutcome::Row(vec![0x78, 0x9C, 0x00])), Some(DataFormat::ZLIB));
    assert_eq!(grid_format_from(true, RowOutcome::NoRow), Some(DataFormat::UNKNOWN));
    assert_eq!(grid_format_from(true, RowOutcome::Failed), None);
    assert_eq!(grid_format_from(false, RowOutcome::Row(vec![0x1F, 0x8B])), None);
}

#[test]
fn failed_lookup_is_blank_image() {
    assert_eq!(get_tile_data(RowOutcome::Failed), get_blank_image());
    assert!(matches!(
        lookup_tile("/tmp/mbtileserver_no_such_dir/x.mbtiles", 0, 0, 0),
        RowOutcome::Failed
    ));
}
