use mbtileserver::{child_prefix, tileset_id, TilesetIndex};

fn make_valid(path: &str) {
    let c = rusqlite::Connection::open(path).unwrap();
    c.execute_batch(
        "DROP TABLE IF EXISTS tiles; DROP TABLE IF EXISTS metadata;
         CREATE TABLE tiles (zoom_level INTEGER, tile_column INTEGER, tile_row INTEGER, tile_data BLOB);
         CREATE TABLE metadata (name TEXT, value TEXT);
         INSERT INTO metadata VALUES ('name', 'ok');",
    )
    .unwrap();
}

fn make_invalid(path: &str) {
    let c = rusqlite::Connection::open(path).unwrap();
    c.execute_batch("DROP TABLE IF EXISTS tiles; DROP TABLE IF EXISTS metadata; CREATE TABLE IF NOT EXISTS other (x INTEGER);")
        .unwrap();
}

#[test]
fn nested_path_gives_joined_id() {
    let p = child_prefix(&child_prefix("", "a"), "b");
    assert_eq!(p, "a/b/");
    assert_eq!(tileset_id(&p, "city.mbtiles"), Some("a/b/city".to_string()));
    assert_eq!(tileset_id("", "city.mbtiles"), Some("city".to_string()));
    assert_eq!(tileset_id("", "v1.2.mbtiles"), Some("v1.2".to_string()));
}

#[test]
fn other_extensions_have_no_id() {
    assert_eq!(tileset_id("", "city.MBTILES"), None);
    assert_eq!(tileset_id("", "city.mbtiles.bak"), None);
    assert_eq!(tileset_id("", ".mbtiles"), None);
    assert_eq!(tileset_id("a/", "readme.txt"), None);
}

#[test]
fn one_valid_one_corrupt_gives_one_entry() {
    let good = "/tmp/mbtileserver_index_good.mbtiles";
    let bad = "/tmp/mbtileserver_index_bad.mbtiles";
    make_valid(good);
    make_invalid(bad);
    let mut index = TilesetIndex::new();
    let prefix = child_prefix(&child_prefix("", "a"), "b");
    assert!(index.add_archive(&prefix, "city.mbtiles", good));
    assert!(!index.add_archive(&prefix, "broken.mbtiles", bad));
    assert!(!index.add_archive(&prefix, "gone.mbtiles", "/tmp/mbtileserver_no_such_dir/gone.mbtiles"));
    assert!(!index.add_archive(&prefix, "notes.txt", good));
    assert_eq!(index.len(), 1);
    assert_eq!(index.ids_vec(), vec!["a/b/city".to_string()]);
    let m = index.get("a/b/city").unwrap();
    assert_eq!(m.id, "a/b/city");
    assert_eq!(m.path, good);
    assert_eq!(m.name, Some("ok".to_string()));
    assert!(index.get("a/b/broken").is_none());
}

#[test]
fn same_id_replaces_entry() {
    let good = "/tmp/mbtileserver_index_twice.mbtiles";
    make_valid(good);
    let mut index = TilesetIndex::new();
    assert!(index.add_archive("", "twice.mbtiles", good));
    assert!(index.add_archive("", "twice.mbtiles", good));
    assert_eq!(index.len(), 1);
}
