use vstd::prelude::*;

use crate::bytes::{le_u16_at, le_u32_at, le_u64_at, read_u16_le, read_u32_le, read_u64_le};
use crate::errors::{Error, Result};

verus! {

/// The magic number that opens every archive.
pub const ZIM_MAGIC_NUMBER: u32 = 72173914;

/// Size in bytes of the fixed header record.
pub const HEADER_SIZE: u64 = 80;

/// Size in bytes of the trailing checksum.
pub const CHECKSUM_SIZE: u64 = 16;

/// The value of an optional page index that marks it absent.
pub const NO_PAGE: u32 = 0xffff_ffff;

/// The fixed header at the start of an archive.
#[derive(Debug, Clone)]
pub struct Header {
    pub magic_number: u32,
    pub version_major: u16,
    pub version_minor: u16,
    pub uuid: Vec<u8>,
    pub article_count: u32,
    pub cluster_count: u32,
    pub url_ptr_pos: u64,
    pub title_ptr_pos: u64,
    pub cluster_ptr_pos: u64,
    pub mime_list_pos: u64,
    pub main_page: Option<u32>,
    pub layout_page: Option<u32>,
    pub checksum_pos: u64,
}

/// An optional page index as stored: all ones marks it absent.
pub open spec fn page_of(raw: int) -> Option<u32> {
    if raw == NO_PAGE {
        None
    } else {
        Some(raw as u32)
    }
}

/// Why the archive `b` has no readable header, if it has one.
pub open spec fn header_error(b: Seq<u8>) -> Option<Error> {
    if b.len() < HEADER_SIZE {
        Some(Error::InvalidHeader)
    } else if le_u32_at(b, 0) != ZIM_MAGIC_NUMBER {
        Some(Error::InvalidMagicNumber)
    } else if le_u16_at(b, 4) != 5 && le_u16_at(b, 4) != 6 {
        Some(Error::InvalidVersion(le_u16_at(b, 4) as u16))
    } else if le_u64_at(b, 32) > b.len() || le_u64_at(b, 40) > b.len() || le_u64_at(b, 48)
        > b.len() || le_u64_at(b, 56) > b.len() {
        Some(Error::InvalidHeader)
    } else if le_u64_at(b, 72) + CHECKSUM_SIZE != b.len() {
        Some(Error::MissingChecksum)
    } else {
        None
    }
}

impl Header {
    /// Whether every field holds what the header record of `b` stores.
    pub open spec fn read_from(&self, b: Seq<u8>) -> bool {
        &&& self.magic_number == le_u32_at(b, 0)
        &&& self.version_major == le_u16_at(b, 4)
        &&& self.version_minor == le_u16_at(b, 6)
        &&& self.uuid@ == b.subrange(8, 24)
        &&& self.article_count == le_u32_at(b, 24)
        &&& self.cluster_count == le_u32_at(b, 28)
        &&& self.url_ptr_pos == le_u64_at(b, 32)
        &&& self.title_ptr_pos == le_u64_at(b, 40)
        &&& self.cluster_ptr_pos == le_u64_at(b, 48)
        &&& self.mime_list_pos == le_u64_at(b, 56)
        &&& self.main_page == page_of(le_u32_at(b, 64))
        &&& self.layout_page == page_of(le_u32_at(b, 68))
        &&& self.checksum_pos == le_u64_at(b, 72)
    }

    /// Reads and checks the header of the archive `b`.
    pub fn parse(b: &[u8]) -> (r: Result<Header>)
        ensures
            match r {
                Ok(h) => header_error(b@) is None && h.read_from(b@),
                Err(e) => header_error(b@) == Some(e),
            },
    {
        let len = b.len() as u64;
        if len < HEADER_SIZE {
            return Err(Error::InvalidHeader);
        }
        let magic_number = read_u32_le(b, 0) as u32;
        if magic_number != ZIM_MAGIC_NUMBER {
            return Err(Error::InvalidMagicNumber);
        }
        let version_major = read_u16_le(b, 4);
        if version_major != 5 && version_major != 6 {
            return Err(Error::InvalidVersion(version_major));
        }
        let url_ptr_pos = read_u64_le(b, 32);
        let title_ptr_pos = read_u64_le(b, 40);
        let cluster_ptr_pos = read_u64_le(b, 48);
        let mime_list_pos = read_u64_le(b, 56);
        if url_ptr_pos > len || title_ptr_pos > len || cluster_ptr_pos > len || mime_list_pos
            > len {
            return Err(Error::InvalidHeader);
        }
        let checksum_pos = read_u64_le(b, 72);
        if checksum_pos > len || len - checksum_pos != CHECKSUM_SIZE {
            return Err(Error::MissingChecksum);
        }
        let main = read_u32_le(b, 64) as u32;
        let layout = read_u32_le(b, 68) as u32;
        Ok(Header {
            magic_number,
            version_major,
            version_minor: read_u16_le(b, 6),
            uuid: vstd::slice::slice_to_vec(vstd::slice::slice_subrange(b, 8, 24)),
            article_count: read_u32_le(b, 24) as u32,
            cluster_count: read_u32_le(b, 28) as u32,
            url_ptr_pos,
            title_ptr_pos,
            cluster_ptr_pos,
            mime_list_pos,
            main_page: if main == NO_PAGE {
                None
            } else {
                Some(main)
            },
            layout_page: if layout == NO_PAGE {
                None
            } else {
                Some(layout)
            },
            checksum_pos,
        })
    }
}

/// An archive whose first four bytes are not the magic number is refused with
/// `InvalidMagicNumber`, whatever follows.
pub proof fn lemma_magic_mismatch(b: Seq<u8>)
    requires
        b.len() >= HEADER_SIZE,
        le_u32_at(b, 0) != ZIM_MAGIC_NUMBER,
    ensures
        header_error(b) == Some(Error::InvalidMagicNumber),
{
}

} // verus!
