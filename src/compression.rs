use vstd::prelude::*;

use crate::errors::{Error, Result};

verus! {

/// The compression scheme of a cluster.
#[derive(Debug, PartialEq, Eq, Clone, Copy, Hash, Structural)]
pub enum Compression {
    /// Stored as it is (codes 0 and 1).
    Uncompressed,
    Zlib,
    Bzip2,
    Lzma2,
    Zstd,
}

/// The scheme that an on-disk compression code selects.
pub open spec fn compression_of(raw: u8) -> Result<Compression> {
    if raw == 0 || raw == 1 {
        Ok(Compression::Uncompressed)
    } else if raw == 2 {
        Ok(Compression::Zlib)
    } else if raw == 3 {
        Ok(Compression::Bzip2)
    } else if raw == 4 {
        Ok(Compression::Lzma2)
    } else if raw == 5 {
        Ok(Compression::Zstd)
    } else {
        Err(Error::UnknownCompression(raw))
    }
}

/// The code that a scheme is written with.
pub open spec fn code_of(mode: Compression) -> u8 {
    match mode {
        Compression::Uncompressed => 0,
        Compression::Zlib => 2,
        Compression::Bzip2 => 3,
        Compression::Lzma2 => 4,
        Compression::Zstd => 5,
    }
}

impl Compression {
    pub fn from(raw: u8) -> (r: Result<Compression>)
        ensures
            r == compression_of(raw),
    {
        match raw {
            0 => Ok(Compression::Uncompressed),
            1 => Ok(Compression::Uncompressed),
            2 => Ok(Compression::Zlib),
            3 => Ok(Compression::Bzip2),
            4 => Ok(Compression::Lzma2),
            5 => Ok(Compression::Zstd),
            _ => Err(Error::UnknownCompression(raw)),
        }
    }
}

impl From<Compression> for u8 {
    fn from(mode: Compression) -> (r: u8) {
        match mode {
            Compression::Uncompressed => 0,
            Compression::Zlib => 2,
            Compression::Bzip2 => 3,
            Compression::Lzma2 => 4,
            Compression::Zstd => 5,
        }
    }
}

impl vstd::std_specs::convert::FromSpecImpl<Compression> for u8 {
    open spec fn obeys_from_spec() -> bool {
        true
    }

    open spec fn from_spec(mode: Compression) -> u8 {
        code_of(mode)
    }
}

/// What a zlib stream decodes to, or `None` where it is malformed.
pub uninterp spec fn zlib_decoded(b: Seq<u8>) -> Option<Seq<u8>>;

/// What a bzip2 stream decodes to, or `None` where it is malformed.
pub uninterp spec fn bzip2_decoded(b: Seq<u8>) -> Option<Seq<u8>>;

/// What an xz stream decodes to, or `None` where it is malformed.
pub uninterp spec fn xz_decoded(b: Seq<u8>) -> Option<Seq<u8>>;

/// What a zstd stream decodes to, or `None` where it is malformed.
pub uninterp spec fn zstd_decoded(b: Seq<u8>) -> Option<Seq<u8>>;

/// The bytes that a payload compressed with `mode` stands for.
pub open spec fn decoded(mode: Compression, payload: Seq<u8>) -> Option<Seq<u8>> {
    match mode {
        Compression::Uncompressed => Some(payload),
        Compression::Zlib => zlib_decoded(payload),
        Compression::Bzip2 => bzip2_decoded(payload),
        Compression::Lzma2 => xz_decoded(payload),
        Compression::Zstd => zstd_decoded(payload),
    }
}

#[verifier::external_type_specification]
#[verifier::external_body]
pub struct ExIoError(std::io::Error);

/// Relies on flate2::read::ZlibDecoder read to its end: the whole zlib stream, decoded.
#[verifier::external_body]
fn zlib_decode(b: &[u8]) -> (r: core::result::Result<Vec<u8>, std::io::Error>)
    ensures
        r is Ok <==> zlib_decoded(b@) is Some,
        r is Ok ==> r->Ok_0@ == zlib_decoded(b@)->0,
{
    let mut out = Vec::new();
    std::io::Read::read_to_end(&mut flate2::read::ZlibDecoder::new(b), &mut out).map(|_| out)
}

/// Relies on bzip2::read::BzDecoder read to its end: the whole bzip2 stream, decoded.
#[verifier::external_body]
fn bzip2_decode(b: &[u8]) -> (r: core::result::Result<Vec<u8>, std::io::Error>)
    ensures
        r is Ok <==> bzip2_decoded(b@) is Some,
        r is Ok ==> r->Ok_0@ == bzip2_decoded(b@)->0,
{
    let mut out = Vec::new();
    std::io::Read::read_to_end(&mut bzip2::read::BzDecoder::new(b), &mut out).map(|_| out)
}

/// Relies on xz2::read::XzDecoder read to its end: the whole xz stream, decoded.
#[verifier::external_body]
fn xz_decode(b: &[u8]) -> (r: core::result::Result<Vec<u8>, std::io::Error>)
    ensures
        r is Ok <==> xz_decoded(b@) is Some,
        r is Ok ==> r->Ok_0@ == xz_decoded(b@)->0,
{
    let mut out = Vec::new();
    std::io::Read::read_to_end(&mut xz2::read::XzDecoder::new(b), &mut out).map(|_| out)
}

/// Relies on zstd::stream::decode_all: every zstd frame of the input, decoded.
#[verifier::external_body]
fn zstd_decode(b: &[u8]) -> (r: core::result::Result<Vec<u8>, std::io::Error>)
    ensures
        r is Ok <==> zstd_decoded(b@) is Some,
        r is Ok ==> r->Ok_0@ == zstd_decoded(b@)->0,
{
    zstd::stream::decode_all(b)
}

/// Decodes a whole compressed payload. `Uncompressed` stands for itself: its bytes are
/// copied as they are.
pub fn decompress_payload(mode: Compression, payload: &[u8]) -> (r: Result<Vec<u8>>)
    ensures
        r is Ok <==> decoded(mode, payload@) is Some,
        r is Ok ==> r->Ok_0@ == decoded(mode, payload@)->0,
        r is Err ==> r == Err::<Vec<u8>, Error>(Error::Parsing),
{
    let out = match mode {
        Compression::Uncompressed => Ok(vstd::slice::slice_to_vec(payload)),
        Compression::Zlib => zlib_decode(payload),
        Compression::Bzip2 => bzip2_decode(payload),
        Compression::Lzma2 => xz_decode(payload),
        Compression::Zstd => zstd_decode(payload),
    };
    match out {
        Ok(v) => Ok(v),
        Err(_) => Err(Error::Parsing),
    }
}

} // verus!
