use std::io::Read;
use std::io::Write;

use vstd::prelude::*;
use vstd::utf8::{decode_utf8, valid_utf8};

use crate::errors::Error;
use crate::format::{detect, DataFormat};

verus! {

/// What a gzip decoder yields on `b`: the decompressed bytes of its first
/// member, or nothing where `b` is not a well-formed gzip stream.
pub uninterp spec fn gunzip_of(b: Seq<u8>) -> Option<Seq<u8>>;

/// What a zlib decoder yields on `b`, or nothing where `b` is not a
/// well-formed zlib stream.
pub uninterp spec fn inflate_of(b: Seq<u8>) -> Option<Seq<u8>>;

/// The gzip stream that the encoder writes for `b` at the default level.
pub uninterp spec fn gzip_of(b: Seq<u8>) -> Seq<u8>;

/// Relies on flate2::read::GzDecoder with `read_to_end`: the bytes that
/// the gzip stream in `data` decompresses to.
#[verifier::external_body]
fn gunzip(data: &[u8]) -> (r: Option<Vec<u8>>)
    ensures
        match r {
            Some(v) => gunzip_of(data@) == Some(v@),
            None => gunzip_of(data@) is None,
        },
{
    let mut out: Vec<u8> = Vec::new();
    match flate2::read::GzDecoder::new(data).read_to_end(&mut out) {
        Ok(_) => Some(out),
        Err(_) => None,
    }
}

/// Relies on flate2::read::ZlibDecoder with `read_to_end`: the bytes that
/// the zlib stream in `data` decompresses to.
#[verifier::external_body]
fn inflate(data: &[u8]) -> (r: Option<Vec<u8>>)
    ensures
        match r {
            Some(v) => inflate_of(data@) == Some(v@),
            None => inflate_of(data@) is None,
        },
{
    let mut out: Vec<u8> = Vec::new();
    match flate2::read::ZlibDecoder::new(data).read_to_end(&mut out) {
        Ok(_) => Some(out),
        Err(_) => None,
    }
}

/// Relies on flate2::write::GzEncoder at `Compression::default()`, writing
/// into a `Vec`, which cannot fail: the stream opens with the gzip header's
/// magic bytes and is lossless, so the gzip decoder gives the input back.
#[verifier::external_body]
fn gzip(data: &[u8]) -> (r: Vec<u8>)
    ensures
        r@ == gzip_of(data@),
        gunzip_of(r@) == Some(data@),
        r@.len() >= 2 && r@[0] == 0x1Fu8 && r@[1] == 0x8Bu8,
{
    let mut e = flate2::write::GzEncoder::new(Vec::new(), flate2::Compression::default());
    let _ = e.write_all(data);
    e.finish().unwrap_or_default()
}

/// Relies on String::from_utf8: it accepts exactly the valid UTF-8
/// sequences and keeps their characters.
#[verifier::external_body]
fn utf8_string(bytes: Vec<u8>) -> (r: Option<String>)
    ensures
        r is Some <==> valid_utf8(bytes@),
        r is Some ==> r->0@ == decode_utf8(bytes@),
{
    String::from_utf8(bytes).ok()
}

/// The text of decompressed bytes, where they are valid UTF-8.
pub open spec fn text_of(raw: Option<Seq<u8>>) -> Result<Seq<char>, Error> {
    match raw {
        Some(b) => if valid_utf8(b) {
            Ok(decode_utf8(b))
        } else {
            Err(Error::CorruptData)
        },
        None => Err(Error::CorruptData),
    }
}

/// The text that a payload of the given format decompresses to.
pub open spec fn decoded(b: Seq<u8>, f: DataFormat) -> Result<Seq<char>, Error> {
    match f {
        DataFormat::GZIP => text_of(gunzip_of(b)),
        DataFormat::ZLIB => text_of(inflate_of(b)),
        _ => Err(Error::UnsupportedFormat),
    }
}

/// The view of a text result.
pub open spec fn text_result(r: Result<String, Error>) -> Result<Seq<char>, Error> {
    match r {
        Ok(s) => Ok(s@),
        Err(e) => Err(e),
    }
}

/// Decompresses a gzip or zlib payload to UTF-8 text. Other formats give
/// `UnsupportedFormat`; a broken stream or text that is not UTF-8 gives
/// `CorruptData`.
pub fn decode(data: Vec<u8>, data_type: DataFormat) -> (r: Result<String, Error>)
    ensures
        text_result(r) == decoded(data@, data_type),
{
    let raw = match data_type {
        DataFormat::GZIP => gunzip(data.as_slice()),
        DataFormat::ZLIB => inflate(data.as_slice()),
        _ => {
            return Err(Error::UnsupportedFormat);
        },
    };
    match raw {
        Some(bytes) => match utf8_string(bytes) {
            Some(s) => Ok(s),
            None => Err(Error::CorruptData),
        },
        None => Err(Error::CorruptData),
    }
}

/// Compresses `data` with gzip at the default level. The result is detected
/// as gzip, and the gzip decoder gives the input back; decoding it to text
/// gives the input's characters where it is UTF-8, and `CorruptData` where
/// it is not.
pub fn encode(data: &[u8]) -> (r: Vec<u8>)
    ensures
        r@ == gzip_of(data@),
        gunzip_of(r@) == Some(data@),
        detect(r@) == DataFormat::GZIP,
        decoded(r@, DataFormat::GZIP) == text_of(Some(data@)),
        valid_utf8(data@) ==> decoded(r@, DataFormat::GZIP) == Ok::<Seq<char>, Error>(decode_utf8(data@)),
        !valid_utf8(data@) ==> decoded(r@, DataFormat::GZIP) == Err::<Seq<char>, Error>(Error::CorruptData),
{
    let r = gzip(data);
    assert(r@.subrange(0, 2) =~= seq![0x1Fu8, 0x8Bu8]);
    r
}

} // verus!
