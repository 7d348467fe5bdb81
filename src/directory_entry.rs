use vstd::prelude::*;

use crate::bytes::{le_u16_at, le_u32_at, read_u16_le, read_u32_le};
use crate::errors::{Error, Result};
use crate::mime_type::MimeType;
use crate::target::Target;

verus! {

/// The classification prefix of a URL.
#[derive(Debug, Clone, Copy, PartialEq, Eq, Hash, Structural)]
pub enum Namespace {
    Layout,
    Articles,
    ArticleMetaData,
    Content,
    ImagesFile,
    ImagesText,
    Metadata,
    CategoriesText,
    CategoriesArticleList,
    CategoriesPerArticle,
    FulltextIndex,
}

/// The namespace that a stored character names: one of `-ABCIJMUVWX`.
pub open spec fn namespace_of(c: u8) -> Option<Namespace> {
    if c == 45 {
        Some(Namespace::Layout)
    } else if c == 65 {
        Some(Namespace::Articles)
    } else if c == 66 {
        Some(Namespace::ArticleMetaData)
    } else if c == 67 {
        Some(Namespace::Content)
    } else if c == 73 {
        Some(Namespace::ImagesFile)
    } else if c == 74 {
        Some(Namespace::ImagesText)
    } else if c == 77 {
        Some(Namespace::Metadata)
    } else if c == 85 {
        Some(Namespace::CategoriesText)
    } else if c == 86 {
        Some(Namespace::CategoriesArticleList)
    } else if c == 87 {
        Some(Namespace::CategoriesPerArticle)
    } else if c == 88 {
        Some(Namespace::FulltextIndex)
    } else {
        None
    }
}

impl Namespace {
    pub fn from_char(c: u8) -> (r: Result<Namespace>)
        ensures
            match namespace_of(c) {
                Some(n) => r == Ok::<Namespace, Error>(n),
                None => r == Err::<Namespace, Error>(Error::InvalidNamespace),
            },
    {
        match c {
            45 => Ok(Namespace::Layout),
            65 => Ok(Namespace::Articles),
            66 => Ok(Namespace::ArticleMetaData),
            67 => Ok(Namespace::Content),
            73 => Ok(Namespace::ImagesFile),
            74 => Ok(Namespace::ImagesText),
            77 => Ok(Namespace::Metadata),
            85 => Ok(Namespace::CategoriesText),
            86 => Ok(Namespace::CategoriesArticleList),
            87 => Ok(Namespace::CategoriesPerArticle),
            88 => Ok(Namespace::FulltextIndex),
            _ => Err(Error::InvalidNamespace),
        }
    }
}

impl Namespace {
    /// The character that the namespace is stored as.
    pub fn as_char(&self) -> (r: u8)
        ensures
            namespace_of(r) == Some(*self),
    {
        match self {
            Namespace::Layout => 45,
            Namespace::Articles => 65,
            Namespace::ArticleMetaData => 66,
            Namespace::Content => 67,
            Namespace::ImagesFile => 73,
            Namespace::ImagesText => 74,
            Namespace::Metadata => 77,
            Namespace::CategoriesText => 85,
            Namespace::CategoriesArticleList => 86,
            Namespace::CategoriesPerArticle => 87,
            Namespace::FulltextIndex => 88,
        }
    }
}

/// Position of the first zero byte of `b` at or after `i`, or `b.len()` if none.
pub open spec fn nul_from(b: Seq<u8>, i: int) -> int
    decreases b.len() - i,
{
    if i < 0 || i >= b.len() {
        b.len() as int
    } else if b[i] == 0 {
        i
    } else {
        nul_from(b, i + 1)
    }
}

pub proof fn lemma_nul_from_bounds(b: Seq<u8>, i: int)
    requires
        0 <= i,
    ensures
        i <= nul_from(b, i) || (i > b.len() && nul_from(b, i) == b.len()),
        nul_from(b, i) <= b.len(),
    decreases b.len() - i,
{
    if i < b.len() && b[i] != 0 {
        lemma_nul_from_bounds(b, i + 1);
    }
}

/// Finds the zero byte that ends the string starting at `start`.
pub fn find_nul(b: &[u8], start: usize) -> (r: usize)
    ensures
        r == nul_from(b@, start as int),
{
    let mut i = start;
    if i > b.len() {
        return b.len();
    }
    while i < b.len()
        invariant
            start <= i <= b@.len(),
            nul_from(b@, start as int) == nul_from(b@, i as int),
        decreases b@.len() - i,
    {
        if b[i] == 0 {
            return i;
        }
        i = i + 1;
    }
    i
}

/// The text that UTF-8 bytes stand for, or `None` where they are not UTF-8.
pub uninterp spec fn utf8_decoded(b: Seq<u8>) -> Option<Seq<char>>;

/// Relies on String::from_utf8: the text of valid UTF-8 bytes, an error otherwise.
#[verifier::external_body]
pub(crate) fn utf8_string(b: Vec<u8>) -> (r: Option<String>)
    ensures
        r is Some <==> utf8_decoded(b@) is Some,
        r is Some ==> r->0@ == utf8_decoded(b@)->0,
{
    String::from_utf8(b).ok()
}

/// Reads the zero-terminated UTF-8 string of `b` that starts at `start`.
pub fn read_cstr(b: &[u8], start: usize) -> (r: Result<(String, usize)>)
    requires
        start <= b@.len(),
    ensures
        match r {
            Ok((s, end)) => {
                &&& end == nul_from(b@, start as int) < b@.len()
                &&& utf8_decoded(b@.subrange(start as int, end as int)) == Some(s@)
            },
            Err(e) => {
                &&& e == Error::Parsing
                &&& {
                    ||| nul_from(b@, start as int) >= b@.len()
                    ||| utf8_decoded(b@.subrange(start as int, nul_from(b@, start as int)))
                        is None
                }
            },
        },
{
    let end = find_nul(b, start);
    proof {
        lemma_nul_from_bounds(b@, start as int);
    }
    if end >= b.len() {
        return Err(Error::Parsing);
    }
    let bytes = vstd::slice::slice_to_vec(vstd::slice::slice_subrange(b, start, end));
    match utf8_string(bytes) {
        Some(s) => Ok((s, end)),
        None => Err(Error::Parsing),
    }
}

/// Mimetype code of a redirect entry.
pub const MIME_REDIRECT: u16 = 0xffff;

/// Mimetype code of a link target entry.
pub const MIME_LINK_TARGET: u16 = 0xfffe;

/// Mimetype code of a deleted entry.
pub const MIME_DELETED: u16 = 0xfffd;

/// One record of the directory: what a URL leads to.
#[derive(Debug, Clone, PartialEq, Eq)]
pub struct DirectoryEntry {
    pub mime_type: MimeType,
    pub parameter_len: u8,
    pub namespace: Namespace,
    pub revision: u32,
    pub target: Option<Target>,
    pub url: String,
    pub title: String,
}

/// Where the URL of the entry at `pos` starts: past the redirect index for a
/// redirect, past cluster and blob index for content.
pub open spec fn url_start(b: Seq<u8>, pos: int) -> int {
    let m = le_u16_at(b, pos);
    if m == MIME_REDIRECT {
        pos + 12
    } else if m == MIME_LINK_TARGET || m == MIME_DELETED {
        pos + 8
    } else {
        pos + 16
    }
}

/// Whether `code` is one of the sentinel mimetype codes.
pub open spec fn is_sentinel(code: int) -> bool {
    code == MIME_REDIRECT || code == MIME_LINK_TARGET || code == MIME_DELETED
}

/// Why the entry at `pos` of `b` cannot be read, given `n_mimes` known mimetypes.
pub open spec fn entry_error(b: Seq<u8>, pos: int, n_mimes: int) -> Option<Error> {
    if pos + 8 > b.len() {
        Some(Error::OutOfBounds)
    } else if namespace_of(b[pos + 3]) is None {
        Some(Error::InvalidNamespace)
    } else if !is_sentinel(le_u16_at(b, pos)) && le_u16_at(b, pos) >= n_mimes {
        Some(Error::UnknownMimeType)
    } else if url_start(b, pos) > b.len() {
        Some(Error::OutOfBounds)
    } else {
        let u = nul_from(b, url_start(b, pos));
        let t = nul_from(b, u + 1);
        if u >= b.len() || utf8_decoded(b.subrange(url_start(b, pos), u)) is None || t >= b.len()
            || utf8_decoded(b.subrange(u + 1, t)) is None {
            Some(Error::Parsing)
        } else {
            None
        }
    }
}

/// Whether `m` is the mimetype that `code` names, with `mimes` the mimetype list.
pub open spec fn mime_named(m: MimeType, code: int, mimes: Seq<String>) -> bool {
    if code == MIME_REDIRECT {
        m == MimeType::Redirect
    } else if code == MIME_LINK_TARGET {
        m == MimeType::LinkTarget
    } else if code == MIME_DELETED {
        m == MimeType::DeletedEntry
    } else {
        0 <= code < mimes.len() && m == MimeType::Type(mimes[code])
    }
}

/// Where an entry whose mimetype code is `code` leads.
pub open spec fn target_of(b: Seq<u8>, pos: int) -> Option<Target> {
    let m = le_u16_at(b, pos);
    if m == MIME_REDIRECT {
        Some(Target::Redirect(le_u32_at(b, pos + 8) as u32))
    } else if m == MIME_LINK_TARGET || m == MIME_DELETED {
        None
    } else {
        Some(Target::Cluster(le_u32_at(b, pos + 8) as u32, le_u32_at(b, pos + 12) as u32))
    }
}

impl DirectoryEntry {
    /// Whether this entry holds what the record at `pos` of `b` stores.
    pub open spec fn read_from(&self, b: Seq<u8>, pos: int, mimes: Seq<String>) -> bool {
        let u = nul_from(b, url_start(b, pos));
        let t = nul_from(b, u + 1);
        &&& mime_named(self.mime_type, le_u16_at(b, pos), mimes)
        &&& self.parameter_len == b[pos + 2]
        &&& namespace_of(b[pos + 3]) == Some(self.namespace)
        &&& self.revision == le_u32_at(b, pos + 4)
        &&& self.target == target_of(b, pos)
        &&& utf8_decoded(b.subrange(url_start(b, pos), u)) == Some(self.url@)
        &&& self.title@ == if t == u + 1 {
            self.url@
        } else {
            utf8_decoded(b.subrange(u + 1, t))->0
        }
    }

    /// Reads the directory entry at `pos` of the archive `b`, resolving its
    /// mimetype through `mimes`. An empty title stands for the URL.
    pub fn parse(b: &[u8], pos: u64, mimes: &Vec<String>) -> (r: Result<DirectoryEntry>)
        ensures
            match r {
                Ok(e) => entry_error(b@, pos as int, mimes@.len() as int) is None && e.read_from(
                    b@,
                    pos as int,
                    mimes@,
                ),
                Err(err) => entry_error(b@, pos as int, mimes@.len() as int) == Some(err),
            },
    {
        let len = b.len() as u64;
        if pos > len || len - pos < 8 {
            return Err(Error::OutOfBounds);
        }
        let p = pos as usize;
        let code = read_u16_le(b, p);
        let parameter_len = b[p + 2];
        let namespace = match Namespace::from_char(b[p + 3]) {
            Ok(n) => n,
            Err(e) => return Err(e),
        };
        let revision = read_u32_le(b, p + 4) as u32;
        let mime_type = if code == MIME_REDIRECT {
            MimeType::Redirect
        } else if code == MIME_LINK_TARGET {
            MimeType::LinkTarget
        } else if code == MIME_DELETED {
            MimeType::DeletedEntry
        } else if (code as usize) < mimes.len() {
            MimeType::Type(mimes[code as usize].clone())
        } else {
            return Err(Error::UnknownMimeType);
        };
        let fields: usize = if code == MIME_REDIRECT {
            4
        } else if code == MIME_LINK_TARGET || code == MIME_DELETED {
            0
        } else {
            8
        };
        if len - pos < 8 + fields as u64 {
            return Err(Error::OutOfBounds);
        }
        let target = if code == MIME_REDIRECT {
            Some(Target::Redirect(read_u32_le(b, p + 8) as u32))
        } else if code == MIME_LINK_TARGET || code == MIME_DELETED {
            None
        } else {
            Some(Target::Cluster(read_u32_le(b, p + 8) as u32, read_u32_le(b, p + 12) as u32))
        };
        let start = p + 8 + fields;
        let (url, url_end) = match read_cstr(b, start) {
            Ok(s) => s,
            Err(e) => return Err(e),
        };
        let (title, title_end) = match read_cstr(b, url_end + 1) {
            Ok(s) => s,
            Err(e) => return Err(e),
        };
        let title = if title_end == url_end + 1 {
            url.clone()
        } else {
            title
        };
        Ok(DirectoryEntry { mime_type, parameter_len, namespace, revision, target, url, title })
    }
}

} // verus!
