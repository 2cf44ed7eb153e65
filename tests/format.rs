use mbtileserver::{get_data_format, DataFormat};

#[test]
fn gzip_magic_is_gzip() {
    assert_eq!(get_data_format(&vec![0x1F, 0x8B, 0x08, 0x00]), DataFormat::GZIP);
}

#[test]
fn zlib_magic_is_zlib() {
    assert_eq!(get_data_format(&vec![0x78, 0x9C, 0x01]), DataFormat::ZLIB);
}

#[test]
fn png_signature_is_png() {
    let b = vec![0x89, 0x50, 0x4E, 0x47, 0x0D, 0x0A, 0x1A, 0x0A, 0x00];
    assert_eq!(get_data_format(&b), DataFormat::PNG);
}

#[test]
fn jpeg_signature_is_jpg() {
    assert_eq!(get_data_format(&vec![0xFF, 0xD8, 0xFF, 0xE0]), DataFormat::JPG);
}

#[test]
fn webp_ignores_size_field() {
    let mut b = b"RIFF".to_vec();
    b.extend_from_slice(&[0x12, 0x34, 0x00, 0x00]);
    b.extend_from_slice(b"WEBPVP8 ");
    assert_eq!(get_data_format(&b), DataFormat::WEBP);
    let mut other = b"RIFF".to_vec();
    other.extend_from_slice(&[0xC0, 0x00, 0x00, 0x00]);
    other.extend_from_slice(b"WAVE");
    assert_eq!(get_data_format(&other), DataFormat::UNKNOWN);
}

#[test]
fn short_and_empty_buffers_are_unknown() {
    assert_eq!(get_data_format(&vec![]), DataFormat::UNKNOWN);
    assert_eq!(get_data_format(&vec![0x1F]), DataFormat::UNKNOWN);
    assert_eq!(get_data_format(&vec![0x89, 0x50, 0x4E, 0x47]), DataFormat::UNKNOWN);
    assert_eq!(get_data_format(&vec![0xFF, 0xD8]), DataFormat::UNKNOWN);
    assert_eq!(get_data_format(&b"RIFF\0\0\0\0WEB".to_vec()), DataFormat::UNKNOWN);
    assert_eq!(get_data_format(&b"{\"a\":1}".to_vec()), DataFormat::UNKNOWN);
}

#[test]
fn gzip_is_checked_before_png() {
    let b = vec![0x1F, 0x8B, 0x4E, 0x47, 0x0D, 0x0A, 0x1A, 0x0A];
    assert_eq!(get_data_format(&b), DataFormat::GZIP);
}

#[test]
fn format_names_map_both_ways() {
    assert_eq!(DataFormat::new("png"), DataFormat::PNG);
    assert_eq!(DataFormat::new("jpg"), DataFormat::JPG);
    assert_eq!(DataFormat::new("jpeg"), DataFormat::JPG);
    assert_eq!(DataFormat::new("webp"), DataFormat::WEBP);
    assert_eq!(DataFormat::new("json"), DataFormat::JSON);
    assert_eq!(DataFormat::new("pbf"), DataFormat::PBF);
    assert_eq!(DataFormat::new("gzip"), DataFormat::GZIP);
    assert_eq!(DataFormat::new("zlib"), DataFormat::ZLIB);
    assert_eq!(DataFormat::new("PNG"), DataFormat::UNKNOWN);
    assert_eq!(DataFormat::new(""), DataFormat::UNKNOWN);
    assert_eq!(DataFormat::PNG.format(), "png");
    assert_eq!(DataFormat::JPG.format(), "jpg");
    assert_eq!(DataFormat::PBF.format(), "pbf");
    assert_eq!(DataFormat::GZIP.format(), "");
    assert_eq!(DataFormat::UNKNOWN.format(), "");
}

#[test]
fn content_types() {
    assert_eq!(DataFormat::PNG.content_type(), "image/png");
    assert_eq!(DataFormat::JPG.content_type(), "image/jpeg");
    assert_eq!(DataFormat::WEBP.content_type(), "image/webp");
    assert_eq!(DataFormat::JSON.content_type(), "application/json");
    assert_eq!(DataFormat::PBF.content_type(), "application/x-protobuf");
    assert_eq!(DataFormat::ZLIB.content_type(), "");
}
