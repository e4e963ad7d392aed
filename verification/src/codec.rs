//! Compression and digests, computed by outside crates.
//!
//! What each produces is named rather than written out; of a compressor it is stated that its
//! decoder gives back what went in. As everywhere, that memory runs out is left out of account.

use vstd::prelude::*;
use vstd::utf8::{decode_utf8, encode_utf8, encode_utf8_decode_utf8, encode_utf8_valid_utf8, valid_utf8};

use crate::error::opt;

verus! {

/// The error the standard library's readers and writers give.
#[verifier::external_type_specification]
#[verifier::external_body]
pub struct ExIoError(std::io::Error);

/// What the standard library says of an error: `std::io::Error`'s own text. Nothing is claimed
/// of the wording.
#[verifier::external_body]
pub(crate) fn io_text(error: &std::io::Error) -> (text: String)
{
    error.to_string()
}

/// What `flate2::write::GzEncoder` makes of some bytes at the default level.
pub uninterp spec fn gzip_image(input: Seq<u8>) -> Seq<u8>;

/// What `flate2::read::GzDecoder` makes of some bytes, if it accepts them.
pub uninterp spec fn gunzipped(image: Seq<u8>) -> Option<Seq<u8>>;

/// What `liblzma::write::XzEncoder` makes of some bytes at a level.
pub uninterp spec fn xz_image(input: Seq<u8>, level: u32) -> Seq<u8>;

/// Whether `liblzma::write::XzEncoder` compresses some bytes at a level.
pub uninterp spec fn xz_takes(input: Seq<u8>, level: u32) -> bool;

/// What `liblzma::read::XzDecoder` makes of some bytes, if it accepts them.
pub uninterp spec fn unxzed(image: Seq<u8>) -> Option<Seq<u8>>;

/// What `zstd::Encoder` makes of some bytes at a level.
pub uninterp spec fn zstd_image(input: Seq<u8>, level: i32) -> Seq<u8>;

/// Whether `zstd::Encoder` compresses some bytes at a level.
pub uninterp spec fn zstd_takes(input: Seq<u8>, level: i32) -> bool;

/// What `zstd::decode_all` makes of some bytes, if it accepts them.
pub uninterp spec fn unzstded(image: Seq<u8>) -> Option<Seq<u8>>;

/// Compresses with `flate2::write::GzEncoder` at flate2's default level, which writes no
/// timestamp or file name, so equal input gives equal output. Into a vector it cannot fail.
/// `GzDecoder` reads the input back.
#[verifier::external_body]
pub(crate) fn gzip(input: &[u8]) -> (r: core::result::Result<Vec<u8>, std::io::Error>)
    ensures
        r is Ok,
        r->Ok_0@ == gzip_image(input@),
        gunzipped(r->Ok_0@) == Some(input@),
{
    let mut encoder = flate2::write::GzEncoder::new(Vec::new(), flate2::Compression::default());
    std::io::Write::write_all(&mut encoder, input)?;
    encoder.finish()
}

/// Decompresses with `flate2::read::GzDecoder`.
#[verifier::external_body]
pub(crate) fn gunzip(image: &[u8]) -> (r: core::result::Result<Vec<u8>, std::io::Error>)
    ensures
        r is Ok ==> gunzipped(image@) == Some(r->Ok_0@),
        r is Err ==> gunzipped(image@) is None,
{
    let mut out = Vec::new();
    std::io::Read::read_to_end(&mut flate2::read::GzDecoder::new(image), &mut out)?;
    Ok(out)
}

/// Compresses with `liblzma::write::XzEncoder` on one thread, so equal input gives equal
/// output, and what it compresses depends on the input alone. `XzDecoder` reads the input back.
/// A preset above nine makes the encoder panic.
#[verifier::external_body]
pub(crate) fn xz(input: &[u8], level: u32) -> (r: core::result::Result<Vec<u8>, std::io::Error>)
    requires
        level <= 9,
    ensures
        (r is Ok) == xz_takes(input@, level),
        r is Ok ==> r->Ok_0@ == xz_image(input@, level),
        r is Ok ==> unxzed(r->Ok_0@) == Some(input@),
{
    let mut encoder = liblzma::write::XzEncoder::new(Vec::new(), level);
    std::io::Write::write_all(&mut encoder, input)?;
    encoder.finish()
}

/// Decompresses with `liblzma::read::XzDecoder`.
#[verifier::external_body]
pub(crate) fn unxz(image: &[u8]) -> (r: core::result::Result<Vec<u8>, std::io::Error>)
    ensures
        r is Ok ==> unxzed(image@) == Some(r->Ok_0@),
        r is Err ==> unxzed(image@) is None,
{
    let mut out = Vec::new();
    std::io::Read::read_to_end(&mut liblzma::read::XzDecoder::new(image), &mut out)?;
    Ok(out)
}

/// Compresses with `zstd::Encoder` on one thread, so equal input gives equal output, and what it
/// compresses depends on the input alone. `zstd::decode_all` reads the input back.
#[verifier::external_body]
pub(crate) fn zstd(input: &[u8], level: i32) -> (r: core::result::Result<Vec<u8>, std::io::Error>)
    requires
        1 <= level <= 22,
    ensures
        (r is Ok) == zstd_takes(input@, level),
        r is Ok ==> r->Ok_0@ == zstd_image(input@, level),
        r is Ok ==> unzstded(r->Ok_0@) == Some(input@),
{
    let mut encoder = ::zstd::Encoder::new(Vec::new(), level)?;
    std::io::Write::write_all(&mut encoder, input)?;
    encoder.finish()
}

/// Decompresses with `zstd::decode_all`.
#[verifier::external_body]
pub(crate) fn unzstd(image: &[u8]) -> (r: core::result::Result<Vec<u8>, std::io::Error>)
    ensures
        r is Ok ==> unzstded(image@) == Some(r->Ok_0@),
        r is Err ==> unzstded(image@) is None,
{
    ::zstd::decode_all(image)
}

/// The MD5 digest of some bytes, as `md5::Md5` computes it.
pub uninterp spec fn md5_of(input: Seq<u8>) -> Seq<u8>;

/// The SHA-256 digest of some bytes, as `sha2::Sha256` computes it.
pub uninterp spec fn sha256_of(input: Seq<u8>) -> Seq<u8>;

/// `md5::Md5::digest`: sixteen bytes.
#[verifier::external_body]
pub(crate) fn md5(input: &[u8]) -> (r: Vec<u8>)
    ensures
        r@ == md5_of(input@),
        r@.len() == 16,
{
    <::md5::Md5 as ::md5::Digest>::digest(input).to_vec()
}

/// `sha2::Sha256::digest`: thirty-two bytes.
#[verifier::external_body]
pub(crate) fn sha256(input: &[u8]) -> (r: Vec<u8>)
    ensures
        r@ == sha256_of(input@),
        r@.len() == 32,
{
    <::sha2::Sha256 as ::sha2::Digest>::digest(input).to_vec()
}

// ---- text ---------------------------------------------------------------------------------

/// `String::from_utf8`: the text some bytes encode, if they encode any.
#[verifier::external_body]
pub(crate) fn text_of(bytes: Vec<u8>) -> (r: Option<String>)
    ensures
        r is Some ==> encode_utf8(r->0@) == bytes@,
        r is None ==> !valid_utf8(bytes@),
{
    String::from_utf8(bytes).ok()
}

/// The text some bytes encode, if they encode any.
pub open spec fn decoded(bytes: Seq<u8>) -> Option<Seq<char>> {
    if valid_utf8(bytes) {
        Some(decode_utf8(bytes))
    } else {
        None
    }
}

/// The text the bytes between two positions encode, if they encode any.
pub(crate) fn text_between(bytes: &[u8], from: usize, to: usize) -> (r: Option<String>)
    requires
        from <= to <= bytes@.len(),
    ensures
        opt(r) == decoded(bytes@.subrange(from as int, to as int)),
{
    let mut part: Vec<u8> = Vec::new();
    let mut i: usize = from;
    while i < to
        invariant
            from <= i <= to <= bytes@.len(),
            part@ == bytes@.subrange(from as int, i as int),
        decreases to - i,
    {
        part.push(bytes[i]);
        i = i + 1;
        assert(part@ =~= bytes@.subrange(from as int, i as int));
    }
    match text_of(part) {
        Some(text) => {
            proof {
                encode_utf8_valid_utf8(text@);
                encode_utf8_decode_utf8(text@);
            }
            Some(text)
        },
        None => None,
    }
}

/// What `String::from_utf8_lossy` makes of some bytes.
pub uninterp spec fn lossy_text(bytes: Seq<u8>) -> Seq<char>;

/// `String::from_utf8_lossy`: the text some bytes encode, with a replacement character for
/// what encodes none.
#[verifier::external_body]
pub(crate) fn lossy(bytes: &[u8]) -> (s: String)
    ensures
        s@ == lossy_text(bytes@),
        valid_utf8(bytes@) ==> encode_utf8(s@) == bytes@,
{
    String::from_utf8_lossy(bytes).into_owned()
}

} // verus!
