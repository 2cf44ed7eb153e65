//! Access layer for map-tile archives: payload format detection, compression
//! codecs, archive metadata and per-coordinate tile and grid queries, and an
//! index of the archives found under a directory tree.

mod archive;
mod codec;
mod entries;
mod errors;
mod format;
mod grid;
mod index;
mod json;
mod number;
mod sql;
mod text;

pub use archive::{
    check_schema, format_from_sample, get_blank_image, get_data_format_via_query, grid_format_from,
    get_template, get_tile_data, get_tile_details, has_grid_tables, template_for,
    lookup_tile, tile_meta_from_rows, TileMeta,
};
pub use codec::{decode, encode};
pub use errors::Error;
pub use format::{get_data_format, DataFormat};
pub use grid::{get_grid_data, grid_from_parts, grid_payload, UTFGrid};
pub use index::{child_prefix, tileset_id, TilesetIndex};
pub use sql::RowOutcome;
pub use number::{is_number_text, parse_bounds};
pub use text::{parse_u32, split_on_commas};
