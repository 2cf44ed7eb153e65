use vstd::prelude::*;

use crate::text::str_eq;

verus! {

/// The kinds of payload that an archive can hold.
#[derive(Clone, Copy, Debug, PartialEq, Eq, Structural)]
pub enum DataFormat {
    PNG,
    JPG,
    WEBP,
    JSON,
    PBF,
    GZIP,
    ZLIB,
    UNKNOWN,
}

/// The format that a lower-case format name stands for.
pub open spec fn format_of_name(s: Seq<char>) -> DataFormat {
    if s == "png"@ {
        DataFormat::PNG
    } else if s == "jpg"@ || s == "jpeg"@ {
        DataFormat::JPG
    } else if s == "webp"@ {
        DataFormat::WEBP
    } else if s == "json"@ {
        DataFormat::JSON
    } else if s == "pbf"@ {
        DataFormat::PBF
    } else if s == "gzip"@ {
        DataFormat::GZIP
    } else if s == "zlib"@ {
        DataFormat::ZLIB
    } else {
        DataFormat::UNKNOWN
    }
}

impl DataFormat {
    /// File extension of a tile of this format; empty for the compression
    /// wrappers and for unknown payloads.
    pub open spec fn extension(self) -> Seq<char> {
        match self {
            DataFormat::PNG => "png"@,
            DataFormat::JPG => "jpg"@,
            DataFormat::WEBP => "webp"@,
            DataFormat::JSON => "json"@,
            DataFormat::PBF => "pbf"@,
            DataFormat::GZIP => ""@,
            DataFormat::ZLIB => ""@,
            DataFormat::UNKNOWN => ""@,
        }
    }

    /// MIME type of a tile of this format; empty for the compression
    /// wrappers and for unknown payloads.
    pub open spec fn mime(self) -> Seq<char> {
        match self {
            DataFormat::PNG => "image/png"@,
            DataFormat::JPG => "image/jpeg"@,
            DataFormat::WEBP => "image/webp"@,
            DataFormat::JSON => "application/json"@,
            DataFormat::PBF => "application/x-protobuf"@,
            DataFormat::GZIP => ""@,
            DataFormat::ZLIB => ""@,
            DataFormat::UNKNOWN => ""@,
        }
    }

    /// The format named by `format`; any other name gives `UNKNOWN`.
    pub fn new(format: &str) -> (r: DataFormat)
        ensures
            r == format_of_name(format@),
    {
        if str_eq(format, "png") {
            DataFormat::PNG
        } else if str_eq(format, "jpg") || str_eq(format, "jpeg") {
            DataFormat::JPG
        } else if str_eq(format, "webp") {
            DataFormat::WEBP
        } else if str_eq(format, "json") {
            DataFormat::JSON
        } else if str_eq(format, "pbf") {
            DataFormat::PBF
        } else if str_eq(format, "gzip") {
            DataFormat::GZIP
        } else if str_eq(format, "zlib") {
            DataFormat::ZLIB
        } else {
            DataFormat::UNKNOWN
        }
    }

    /// The file extension for this format.
    pub fn format(&self) -> (r: &'static str)
        ensures
            r@ == self.extension(),
    {
        match *self {
            DataFormat::PNG => "png",
            DataFormat::JPG => "jpg",
            DataFormat::WEBP => "webp",
            DataFormat::JSON => "json",
            DataFormat::PBF => "pbf",
            DataFormat::GZIP => "",
            DataFormat::ZLIB => "",
            DataFormat::UNKNOWN => "",
        }
    }

    /// The content type for this format.
    pub fn content_type(&self) -> (r: &'static str)
        ensures
            r@ == self.mime(),
    {
        match *self {
            DataFormat::PNG => "image/png",
            DataFormat::JPG => "image/jpeg",
            DataFormat::WEBP => "image/webp",
            DataFormat::JSON => "application/json",
            DataFormat::PBF => "application/x-protobuf",
            DataFormat::GZIP => "",
            DataFormat::ZLIB => "",
            DataFormat::UNKNOWN => "",
        }
    }
}

/// The 8-byte signature that opens every PNG file.
pub open spec fn png_signature() -> Seq<u8> {
    seq![0x89u8, 0x50u8, 0x4Eu8, 0x47u8, 0x0Du8, 0x0Au8, 0x1Au8, 0x0Au8]
}

/// Whether `b` begins with the bytes of `p`.
pub open spec fn starts_with(b: Seq<u8>, p: Seq<u8>) -> bool {
    p.len() <= b.len() && b.subrange(0, p.len() as int) == p
}

/// A RIFF container (`RIFF` at offset 0) whose form type is `WEBP` (at
/// offset 8); the four size bytes between them may hold anything.
pub open spec fn is_webp(b: Seq<u8>) -> bool {
    12 <= b.len() && b.subrange(0, 4) == seq![0x52u8, 0x49u8, 0x46u8, 0x46u8]
        && b.subrange(8, 12) == seq![0x57u8, 0x45u8, 0x42u8, 0x50u8]
}

/// The format of a payload by its leading bytes, checked in a fixed order:
/// gzip, zlib, PNG, JPEG, WebP.
pub open spec fn detect(b: Seq<u8>) -> DataFormat {
    if starts_with(b, seq![0x1Fu8, 0x8Bu8]) {
        DataFormat::GZIP
    } else if starts_with(b, seq![0x78u8, 0x9Cu8]) {
        DataFormat::ZLIB
    } else if starts_with(b, png_signature()) {
        DataFormat::PNG
    } else if starts_with(b, seq![0xFFu8, 0xD8u8, 0xFFu8]) {
        DataFormat::JPG
    } else if is_webp(b) {
        DataFormat::WEBP
    } else {
        DataFormat::UNKNOWN
    }
}

/// Whether `data` holds `p` from offset `at` on.
fn has_at(data: &Vec<u8>, at: usize, p: &[u8]) -> (r: bool)
    ensures
        r == (at + p@.len() <= data@.len() && data@.subrange(at as int, at + p@.len()) == p@),
{
    let dl = data.len();
    if p.len() > dl || at > dl - p.len() {
        return false;
    }
    let mut i: usize = 0;
    while i < p.len()
        invariant
            i <= p@.len(),
            at + p@.len() <= data@.len(),
            dl == data@.len(),
            forall|j: int| 0 <= j < i ==> data@[at + j] == p@[j],
        decreases p@.len() - i,
    {
        assert(at + i < data@.len());
        if data[at + i] != p[i] {
            assert(data@.subrange(at as int, at + p@.len())[i as int] != p@[i as int]);
            return false;
        }
        i = i + 1;
    }
    assert(data@.subrange(at as int, at + p@.len()) =~= p@);
    true
}

/// Classifies a payload by its leading bytes. A buffer too short for a
/// signature simply does not match it.
pub fn get_data_format(data: &Vec<u8>) -> (r: DataFormat)
    ensures
        r == detect(data@),
{
    let gzip: [u8; 2] = [0x1F, 0x8B];
    let zlib: [u8; 2] = [0x78, 0x9C];
    let png: [u8; 8] = [0x89, 0x50, 0x4E, 0x47, 0x0D, 0x0A, 0x1A, 0x0A];
    let jpg: [u8; 3] = [0xFF, 0xD8, 0xFF];
    let riff: [u8; 4] = [0x52, 0x49, 0x46, 0x46];
    let webp: [u8; 4] = [0x57, 0x45, 0x42, 0x50];
    assert(gzip@ == seq![0x1Fu8, 0x8Bu8]);
    assert(zlib@ == seq![0x78u8, 0x9Cu8]);
    assert(png@ == png_signature());
    assert(jpg@ == seq![0xFFu8, 0xD8u8, 0xFFu8]);
    assert(riff@ == seq![0x52u8, 0x49u8, 0x46u8, 0x46u8]);
    assert(webp@ == seq![0x57u8, 0x45u8, 0x42u8, 0x50u8]);
    if has_at(data, 0, &gzip) {
        DataFormat::GZIP
    } else if has_at(data, 0, &zlib) {
        DataFormat::ZLIB
    } else if has_at(data, 0, &png) {
        DataFormat::PNG
    } else if has_at(data, 0, &jpg) {
        DataFormat::JPG
    } else if has_at(data, 0, &riff) && has_at(data, 8, &webp) {
        DataFormat::WEBP
    } else {
        DataFormat::UNKNOWN
    }
}

} // verus!
