//! The decompression and text-decoding calls the container parser leans on.
//! Each outside call sits behind one trusted wrapper; what a call returns is
//! a function of its arguments alone, so each result carries a name that the
//! callers' contracts are phrased over.

use vstd::prelude::*;
use std::io::Read;

verus! {

/// What zlib inflation yields for a byte run, or `None` where the run is
/// not a well-formed zlib stream.
pub uninterp spec fn spec_inflate(data: Seq<u8>) -> Option<Seq<u8>>;

/// Relies on `flate2::read::ZlibDecoder`: inflates a zlib stream; the
/// result is determined by the input bytes alone.
#[verifier::external_body]
pub(crate) fn zlib_decompress(data: &Vec<u8>) -> (r: Option<Vec<u8>>)
    ensures
        r is Some <==> spec_inflate(data@) is Some,
        r is Some ==> r->0@ == spec_inflate(data@)->0,
{
    let mut out = Vec::new();
    match flate2::read::ZlibDecoder::new(data.as_slice()).read_to_end(&mut out) {
        Ok(_) => Some(out),
        Err(_) => None,
    }
}

/// What raw LZMA1 decoding yields for a 5-byte property header and a byte
/// run, or `None` where the properties or the run are malformed.
pub uninterp spec fn spec_lzma1(props: Seq<u8>, data: Seq<u8>) -> Option<Seq<u8>>;

/// Relies on `liblzma::stream::Filters::lzma1_properties`,
/// `liblzma::stream::Stream::new_raw_decoder` and
/// `liblzma::read::XzDecoder::new_stream`: decodes a raw (headerless) LZMA1
/// stream configured from the given property bytes; the result is
/// determined by the two inputs alone.
#[verifier::external_body]
pub(crate) fn lzma1_decompress(props: &Vec<u8>, data: &Vec<u8>) -> (r: Option<Vec<u8>>)
    ensures
        r is Some <==> spec_lzma1(props@, data@) is Some,
        r is Some ==> r->0@ == spec_lzma1(props@, data@)->0,
{
    let mut filters = liblzma::stream::Filters::new();
    if filters.lzma1_properties(props.as_slice()).is_err() {
        return None;
    }
    let stream = match liblzma::stream::Stream::new_raw_decoder(&filters) {
        Ok(s) => s,
        Err(_) => return None,
    };
    let mut out = Vec::new();
    match liblzma::read::XzDecoder::new_stream(data.as_slice(), stream).read_to_end(&mut out) {
        Ok(_) => Some(out),
        Err(_) => None,
    }
}

/// What Windows-1252 decoding yields for a byte run: one character per
/// byte.
pub uninterp spec fn spec_windows1252(bytes: Seq<u8>) -> Seq<char>;

/// Relies on `encoding_rs::WINDOWS_1252` via `decode_without_bom_handling`:
/// a single-byte encoding, one character per byte, that maps ASCII bytes to
/// themselves.
#[verifier::external_body]
pub(crate) fn windows1252_decode(bytes: &Vec<u8>) -> (r: String)
    ensures
        r@ == spec_windows1252(bytes@),
        r@.len() == bytes@.len(),
        forall|i: int| 0 <= i < bytes@.len() && bytes@[i] < 0x80 ==> r@[i] == bytes@[i] as char,
{
    let (text, _) = encoding_rs::WINDOWS_1252.decode_without_bom_handling(bytes.as_slice());
    text.into_owned()
}

/// What UTF-16LE decoding yields for a byte run.
pub uninterp spec fn spec_utf16le(bytes: Seq<u8>) -> Seq<char>;

/// The `i`-th 16-bit little-endian unit of a byte run.
pub open spec fn spec_utf16_unit(bytes: Seq<u8>, i: int) -> u16 {
    crate::installers::reader::spec_le16(bytes[2 * i], bytes[2 * i + 1])
}

/// Relies on `encoding_rs::UTF_16LE` via `decode_without_bom_handling`: an
/// even-length run of 16-bit units that are all below the surrogate range
/// decodes to one character per unit, each the unit's code point.
#[verifier::external_body]
pub(crate) fn utf16le_decode(bytes: &Vec<u8>) -> (r: String)
    ensures
        r@ == spec_utf16le(bytes@),
        (bytes@.len() % 2 == 0 && (forall|i: int|
            0 <= i < bytes@.len() / 2 ==> #[trigger] spec_utf16_unit(bytes@, i) < 0xD800)) ==> (
        r@.len() == bytes@.len() / 2 && (forall|i: int|
            0 <= i < bytes@.len() / 2 ==> r@[i] as u32 == #[trigger] spec_utf16_unit(
                bytes@,
                i,
            ) as u32)),
{
    let (text, _) = encoding_rs::UTF_16LE.decode_without_bom_handling(bytes.as_slice());
    text.into_owned()
}

/// Decodes a text field's raw bytes: fixed-width 16-bit little-endian text
/// for a unicode container, the single-byte Western code page otherwise.
pub open spec fn spec_decode_text(bytes: Seq<u8>, unicode: bool) -> Seq<char> {
    if unicode {
        spec_utf16le(bytes)
    } else {
        spec_windows1252(bytes)
    }
}

pub fn decode_text(bytes: &Vec<u8>, unicode: bool) -> (r: String)
    ensures
        r@ == spec_decode_text(bytes@, unicode),
{
    if unicode {
        utf16le_decode(bytes)
    } else {
        windows1252_decode(bytes)
    }
}

} // verus!
