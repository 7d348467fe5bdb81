use vstd::prelude::*;

use crate::bytes::{le_u32_at, le_u64_at, read_u64_le};
use crate::cluster::{blob_of, blob_result, cluster_opening, details_of, Blob, Cluster};
use crate::compression::Compression;
use crate::directory_entry::{
    entry_error,
    find_nul,
    lemma_nul_from_bounds,
    nul_from,
    utf8_decoded,
    utf8_string,
    DirectoryEntry,
};
use crate::errors::{Error, Result};
use crate::header::{
    header_error,
    lemma_magic_mismatch,
    Header,
    CHECKSUM_SIZE,
    HEADER_SIZE,
    ZIM_MAGIC_NUMBER,
};

verus! {

/// The texts of a sequence of strings.
pub open spec fn texts(v: Seq<String>) -> Seq<Seq<char>> {
    v.map_values(|s: String| s@)
}

/// The mimetype list that starts at `p` of `b`: zero-terminated UTF-8 strings,
/// up to an empty one.
pub open spec fn mime_list_at(b: Seq<u8>, p: int) -> Option<Seq<Seq<char>>>
    decreases b.len() - p,
{
    if p < 0 || p >= b.len() {
        None
    } else {
        let n = nul_from(b, p);
        if n >= b.len() {
            None
        } else if n == p {
            Some(Seq::empty())
        } else {
            match utf8_decoded(b.subrange(p, n)) {
                None => None,
                Some(s) => {
                    proof {
                        lemma_nul_from_bounds(b, p);
                    }
                    match mime_list_at(b, n + 1) {
                        None => None,
                        Some(rest) => Some(seq![s] + rest),
                    }
                },
            }
        }
    }
}

/// The `count` offsets of eight bytes each stored from `pos` on.
pub open spec fn pointers_at(b: Seq<u8>, pos: int, count: int) -> Seq<u64> {
    Seq::new(count as nat, |k: int| le_u64_at(b, pos + 8 * k) as u64)
}

/// Reads the mimetype list that starts at `pos`.
fn parse_mime_list(b: &[u8], pos: u64) -> (r: Result<Vec<String>>)
    ensures
        match r {
            Ok(v) => mime_list_at(b@, pos as int) == Some(texts(v@)),
            Err(e) => e == Error::Parsing && mime_list_at(b@, pos as int) is None,
        },
{
    if pos >= b.len() as u64 {
        return Err(Error::Parsing);
    }
    let mut p = pos as usize;
    let mut list: Vec<String> = Vec::new();
    loop
        invariant
            p <= b@.len(),
            mime_list_at(b@, pos as int) == match mime_list_at(b@, p as int) {
                Some(rest) => Some(texts(list@) + rest),
                None => None::<Seq<Seq<char>>>,
            },
        decreases b@.len() - p,
    {
        if p >= b.len() {
            return Err(Error::Parsing);
        }
        let n = find_nul(b, p);
        proof {
            lemma_nul_from_bounds(b@, p as int);
        }
        if n >= b.len() {
            return Err(Error::Parsing);
        }
        if n == p {
            assert(texts(list@) + Seq::<Seq<char>>::empty() =~= texts(list@));
            return Ok(list);
        }
        let bytes = vstd::slice::slice_to_vec(vstd::slice::slice_subrange(b, p, n));
        let s = match utf8_string(bytes) {
            Some(s) => s,
            None => return Err(Error::Parsing),
        };
        let ghost before = list@;
        list.push(s);
        proof {
            assert(texts(list@) =~= texts(before) + seq![s@]);
            match mime_list_at(b@, n + 1) {
                Some(rest) => {
                    assert(texts(before) + (seq![s@] + rest) =~= texts(list@) + rest);
                },
                None => {},
            }
        }
        p = n + 1;
    }
}

/// Reads `count` offsets of eight bytes each from `pos` on.
fn read_pointer_list(b: &[u8], pos: u64, count: u32) -> (r: Result<Vec<u64>>)
    ensures
        match r {
            Ok(v) => pos + 8 * count <= b@.len() && v@ == pointers_at(b@, pos as int, count as int),
            Err(e) => e == Error::OutOfBounds && pos + 8 * count > b@.len(),
        },
{
    let len = b.len() as u64;
    if pos > len || (len - pos) / 8 < count as u64 {
        return Err(Error::OutOfBounds);
    }
    let mut list: Vec<u64> = Vec::new();
    let mut k: u32 = 0;
    while k < count
        invariant
            k <= count,
            pos + 8 * count <= b@.len() <= usize::MAX,
            list@.len() == k,
            forall|j: int| 0 <= j < k ==> list@[j] == le_u64_at(b@, pos + 8 * j) as u64,
        decreases count - k,
    {
        list.push(read_u64_le(b, pos as usize + 8 * k as usize));
        k = k + 1;
    }
    assert(list@ =~= pointers_at(b@, pos as int, count as int));
    Ok(list)
}

/// Whether `r` is what reading the directory entry at `pos` gives.
pub open spec fn entry_read(b: Seq<u8>, pos: int, mimes: Seq<String>, r: Result<DirectoryEntry>) -> bool {
    match r {
        Ok(e) => entry_error(b, pos, mimes.len() as int) is None && e.read_from(b, pos, mimes),
        Err(err) => entry_error(b, pos, mimes.len() as int) == Some(err),
    }
}

/// Whether `r` is what reading the entries at `ptrs`, in order, gives: all of
/// them, or the error of the first that cannot be read.
pub open spec fn entries_read(
    b: Seq<u8>,
    ptrs: Seq<u64>,
    mimes: Seq<String>,
    r: Result<Vec<DirectoryEntry>>,
) -> bool {
    match r {
        Ok(v) => {
            &&& v@.len() == ptrs.len()
            &&& forall|k: int|
                0 <= k < ptrs.len() ==> #[trigger] entry_read(b, ptrs[k] as int, mimes, Ok(v@[k]))
        },
        Err(err) => exists|k: int|
            0 <= k < ptrs.len() && entry_error(b, ptrs[k] as int, mimes.len() as int) == Some(err)
                && forall|j: int|
                0 <= j < k ==> #[trigger] entry_error(b, ptrs[j] as int, mimes.len() as int) is None,
    }
}

/// Reads the entries at `ptrs`, in order.
fn read_entries(b: &[u8], ptrs: &Vec<u64>, mimes: &Vec<String>) -> (r: Result<Vec<DirectoryEntry>>)
    ensures
        entries_read(b@, ptrs@, mimes@, r),
{
    let mut out: Vec<DirectoryEntry> = Vec::new();
    let mut k: usize = 0;
    while k < ptrs.len()
        invariant
            k <= ptrs@.len(),
            out@.len() == k,
            forall|j: int|
                0 <= j < k ==> #[trigger] entry_read(b@, ptrs@[j] as int, mimes@, Ok(out@[j])),
        decreases ptrs@.len() - k,
    {
        match DirectoryEntry::parse(b, ptrs[k], mimes) {
            Ok(e) => out.push(e),
            Err(err) => {
                assert forall|j: int| 0 <= j < k implies #[trigger] entry_error(
                    b@,
                    ptrs@[j] as int,
                    mimes@.len() as int,
                ) is None by {
                    assert(entry_read(b@, ptrs@[j] as int, mimes@, Ok(out@[j])));
                }
                return Err(err);
            },
        }
        k = k + 1;
    }
    Ok(out)
}

/// The MD5 digest of `b`.
pub uninterp spec fn md5_of(b: Seq<u8>) -> Seq<u8>;

/// Relies on md5::compute: the 16-byte MD5 digest of its input.
#[verifier::external_body]
fn md5_digest(b: &[u8]) -> (r: Vec<u8>)
    ensures
        r@ == md5_of(b@),
        r@.len() == 16,
{
    md5::compute(b).0.to_vec()
}

/// Whether a computed digest equals the checksum stored in an archive.
pub fn checksum_matches(digest: &[u8], stored: &[u8]) -> (r: bool)
    ensures
        r == (digest@ == stored@),
{
    if digest.len() != stored.len() {
        return false;
    }
    let mut i: usize = 0;
    while i < digest.len()
        invariant
            digest@.len() == stored@.len(),
            i <= digest@.len(),
            forall|j: int| 0 <= j < i ==> digest@[j] == stored@[j],
        decreases digest@.len() - i,
    {
        if digest[i] != stored[i] {
            return false;
        }
        i = i + 1;
    }
    assert(digest@ =~= stored@);
    true
}

/// Blob `blob` of cluster `idx` of the archive `b`, whose cluster pointer list is
/// `ptrs`: the error of opening the cluster, or what the cluster serves.
pub open spec fn archive_blob(
    b: Seq<u8>,
    ptrs: Seq<u64>,
    idx: int,
    checksum_pos: u64,
    version: u16,
    blob: int,
) -> Result<Seq<u8>> {
    match cluster_opening(b, ptrs, idx, checksum_pos, version) {
        Err(e) => Err(e),
        Ok((start, end)) => {
            let raw = b.subrange(start, end);
            let (extended, mode) = details_of(raw[0])->Ok_0;
            blob_of(mode, extended, raw, blob)
        },
    }
}

/// Whether `c` is cluster `idx` of the archive `b` as opening it gives it.
pub open spec fn is_cluster_of(
    c: Cluster,
    b: Seq<u8>,
    ptrs: Seq<u64>,
    idx: int,
    checksum_pos: u64,
    version: u16,
) -> bool {
    &&& c.wf()
    &&& cluster_opening(b, ptrs, idx, checksum_pos, version) == Ok::<(int, int), Error>(
        (c.start_pos(), c.end_pos()),
    )
    &&& c.raw() == b.subrange(c.start_pos(), c.end_pos())
    &&& details_of(c.raw()[0]) == Ok::<(bool, Compression), Error>((c.is_extended(), c.scheme()))
}

/// Why the archive `b` cannot be opened, if it can.
pub open spec fn archive_error(b: Seq<u8>) -> Option<Error> {
    if header_error(b) is Some {
        header_error(b)
    } else if mime_list_at(b, le_u64_at(b, 56)) is None {
        Some(Error::Parsing)
    } else if le_u64_at(b, 32) + 8 * le_u32_at(b, 24) > b.len() {
        Some(Error::OutOfBounds)
    } else if le_u64_at(b, 40) + 8 * le_u32_at(b, 24) > b.len() {
        Some(Error::OutOfBounds)
    } else if le_u64_at(b, 48) + 8 * le_u32_at(b, 28) > b.len() {
        Some(Error::OutOfBounds)
    } else {
        None
    }
}

/// Opening an archive whose magic number is wrong fails with
/// `InvalidMagicNumber`.
pub proof fn lemma_open_wrong_magic(b: Seq<u8>)
    requires
        b.len() >= HEADER_SIZE,
        le_u32_at(b, 0) != ZIM_MAGIC_NUMBER,
    ensures
        archive_error(b) == Some(Error::InvalidMagicNumber),
{
    lemma_magic_mismatch(b);
}

/// An open archive over the bytes of a ZIM file.
pub struct Zim<'a> {
    master: &'a [u8],
    pub header: Header,
    url_list: Vec<u64>,
    title_list: Vec<u64>,
    cluster_list: Vec<u64>,
    mime_table: Vec<String>,
    pub checksum: Vec<u8>,
    clusters: Vec<Option<Cluster<'a>>>,
}

impl<'a> Zim<'a> {
    /// The bytes of the whole archive.
    pub closed spec fn bytes(&self) -> Seq<u8> {
        self.master@
    }

    /// The header record.
    pub closed spec fn head(&self) -> Header {
        self.header
    }

    /// The trailing checksum bytes.
    pub closed spec fn checksum_bytes(&self) -> Seq<u8> {
        self.checksum@
    }

    /// File offsets of the directory entries, in URL order.
    pub closed spec fn url_pointers(&self) -> Seq<u64> {
        self.url_list@
    }

    /// File offsets of the directory entries, in title order.
    pub closed spec fn title_pointers(&self) -> Seq<u64> {
        self.title_list@
    }

    /// File offsets of the clusters.
    pub closed spec fn cluster_pointers(&self) -> Seq<u64> {
        self.cluster_list@
    }

    /// The mimetype list.
    pub closed spec fn mimes(&self) -> Seq<String> {
        self.mime_table@
    }

    pub closed spec fn wf(&self) -> bool {
        let b = self.master@;
        &&& header_error(b) is None
        &&& self.header.read_from(b)
        &&& mime_list_at(b, self.header.mime_list_pos as int) == Some(texts(self.mime_table@))
        &&& self.url_list@ == pointers_at(
            b,
            self.header.url_ptr_pos as int,
            self.header.article_count as int,
        )
        &&& self.title_list@ == pointers_at(
            b,
            self.header.title_ptr_pos as int,
            self.header.article_count as int,
        )
        &&& self.cluster_list@ == pointers_at(
            b,
            self.header.cluster_ptr_pos as int,
            self.header.cluster_count as int,
        )
        &&& self.clusters@.len() == self.cluster_list@.len()
        &&& forall|i: int|
            0 <= i < self.clusters@.len() && #[trigger] self.clusters@[i] is Some ==> is_cluster_of(
                self.clusters@[i]->0,
                b,
                self.cluster_list@,
                i,
                self.header.checksum_pos,
                self.header.version_major,
            )
        &&& self.header.checksum_pos + CHECKSUM_SIZE == b.len()
        &&& self.checksum@ == b.subrange(self.header.checksum_pos as int, b.len() as int)
    }

    /// Opens the archive whose bytes are `master`: reads and checks its header,
    /// and reads its mimetype list and its URL and cluster pointer lists.
    pub fn new(master: &'a [u8]) -> (r: Result<Zim<'a>>)
        ensures
            match r {
                Ok(z) => {
                    &&& archive_error(master@) is None
                    &&& z.wf()
                    &&& z.bytes() == master@
                    &&& z.head().read_from(master@)
                    &&& texts(z.mimes()) == mime_list_at(master@, z.head().mime_list_pos as int)->0
                    &&& z.url_pointers() == pointers_at(
                        master@,
                        z.head().url_ptr_pos as int,
                        z.head().article_count as int,
                    )
                    &&& z.title_pointers() == pointers_at(
                        master@,
                        z.head().title_ptr_pos as int,
                        z.head().article_count as int,
                    )
                    &&& z.cluster_pointers() == pointers_at(
                        master@,
                        z.head().cluster_ptr_pos as int,
                        z.head().cluster_count as int,
                    )
                    &&& z.checksum_bytes() == master@.subrange(
                        z.head().checksum_pos as int,
                        master@.len() as int,
                    )
                },
                Err(e) => archive_error(master@) == Some(e),
            },
    {
        let header = match Header::parse(master) {
            Ok(h) => h,
            Err(e) => return Err(e),
        };
        let mime_table = match parse_mime_list(master, header.mime_list_pos) {
            Ok(m) => m,
            Err(e) => return Err(e),
        };
        let url_list = match read_pointer_list(master, header.url_ptr_pos, header.article_count) {
            Ok(l) => l,
            Err(e) => return Err(e),
        };
        let title_list = match read_pointer_list(
            master,
            header.title_ptr_pos,
            header.article_count,
        ) {
            Ok(l) => l,
            Err(e) => return Err(e),
        };
        let cluster_list = match read_pointer_list(
            master,
            header.cluster_ptr_pos,
            header.cluster_count,
        ) {
            Ok(l) => l,
            Err(e) => return Err(e),
        };
        let checksum = vstd::slice::slice_to_vec(
            vstd::slice::slice_subrange(master, header.checksum_pos as usize, master.len()),
        );
        let mut clusters: Vec<Option<Cluster<'a>>> = Vec::new();
        let mut k: usize = 0;
        while k < cluster_list.len()
            invariant
                k <= cluster_list@.len(),
                clusters@.len() == k,
                forall|i: int| 0 <= i < k ==> #[trigger] clusters@[i] is None,
            decreases cluster_list@.len() - k,
        {
            clusters.push(None);
            k = k + 1;
        }
        Ok(Zim { master, header, url_list, title_list, cluster_list, mime_table, checksum, clusters })
    }

    /// The number of entries in the URL pointer list.
    pub fn article_count(&self) -> (r: u32)
        ensures
            r == self.head().article_count,
    {
        self.header.article_count
    }

    /// The directory entry at position `idx` of the URL pointer list.
    pub fn get_by_url_index(&self, idx: u32) -> (r: Result<DirectoryEntry>)
        requires
            self.wf(),
        ensures
            idx >= self.url_pointers().len() ==> r is Err && r->Err_0 == Error::IndexOutOfRange,
            idx < self.url_pointers().len() ==> entry_read(
                self.bytes(),
                self.url_pointers()[idx as int] as int,
                self.mimes(),
                r,
            ),
    {
        let i = idx as usize;
        if i >= self.url_list.len() {
            return Err(Error::IndexOutOfRange);
        }
        DirectoryEntry::parse(self.master, self.url_list[i], &self.mime_table)
    }

    /// The directory entry at position `idx` of the title pointer list.
    pub fn get_by_title_index(&self, idx: u32) -> (r: Result<DirectoryEntry>)
        requires
            self.wf(),
        ensures
            idx >= self.title_pointers().len() ==> r is Err && r->Err_0 == Error::IndexOutOfRange,
            idx < self.title_pointers().len() ==> entry_read(
                self.bytes(),
                self.title_pointers()[idx as int] as int,
                self.mimes(),
                r,
            ),
    {
        let i = idx as usize;
        if i >= self.title_list.len() {
            return Err(Error::IndexOutOfRange);
        }
        DirectoryEntry::parse(self.master, self.title_list[i], &self.mime_table)
    }

    /// Every directory entry, in the order of the URL pointer list.
    pub fn iterate_by_urls(&self) -> (r: Result<Vec<DirectoryEntry>>)
        requires
            self.wf(),
        ensures
            entries_read(self.bytes(), self.url_pointers(), self.mimes(), r),
    {
        read_entries(self.master, &self.url_list, &self.mime_table)
    }

    /// Every directory entry, in the order of the title pointer list.
    pub fn iterate_by_titles(&self) -> (r: Result<Vec<DirectoryEntry>>)
        requires
            self.wf(),
        ensures
            entries_read(self.bytes(), self.title_pointers(), self.mimes(), r),
    {
        read_entries(self.master, &self.title_list, &self.mime_table)
    }

    /// Checks the stored checksum against the MD5 digest of every byte before it.
    /// Opening an archive does not do this: it reads the whole file.
    pub fn verify_checksum(&self) -> (r: Result<()>)
        requires
            self.wf(),
        ensures
            r is Ok <==> md5_of(self.bytes().subrange(0, self.head().checksum_pos as int))
                == self.checksum_bytes(),
            r is Err ==> r == Err::<(), Error>(Error::InvalidChecksum),
    {
        assert(self.master@.len() == self.master.len());
        let body = vstd::slice::slice_subrange(self.master, 0, self.header.checksum_pos as usize);
        let digest = md5_digest(body);
        if checksum_matches(digest.as_slice(), self.checksum.as_slice()) {
            Ok(())
        } else {
            Err(Error::InvalidChecksum)
        }
    }

    /// Blob `blob_idx` of cluster `cluster_idx`. The archive keeps each cluster
    /// it opens here, so that a cluster is opened and decoded once however many
    /// of its blobs are asked for.
    pub fn get_blob(&mut self, cluster_idx: u32, blob_idx: u32) -> (r: Result<Blob<'_>>)
        requires
            old(self).wf(),
        ensures
            final(self).wf(),
            final(self).bytes() == old(self).bytes(),
            final(self).head() == old(self).head(),
            final(self).url_pointers() == old(self).url_pointers(),
            final(self).title_pointers() == old(self).title_pointers(),
            final(self).cluster_pointers() == old(self).cluster_pointers(),
            final(self).mimes() == old(self).mimes(),
            final(self).checksum_bytes() == old(self).checksum_bytes(),
            blob_result(r) == archive_blob(
                old(self).bytes(),
                old(self).cluster_pointers(),
                cluster_idx as int,
                old(self).head().checksum_pos,
                old(self).head().version_major,
                blob_idx as int,
            ),
    {
        let i = cluster_idx as usize;
        if i >= self.clusters.len() {
            return Err(Error::IndexOutOfRange);
        }
        if self.clusters[i].is_none() {
            let c = match Cluster::new(
                self.master,
                &self.cluster_list,
                cluster_idx,
                self.header.checksum_pos,
                self.header.version_major,
            ) {
                Ok(c) => c,
                Err(e) => return Err(e),
            };
            self.clusters.set(i, Some(c));
        }
        let slot = &mut self.clusters[i];
        match slot {
            Some(c) => c.get_blob(blob_idx),
            None => Err(Error::MissingBlobList),
        }
    }

    /// Opens cluster `idx` of the archive.
    pub fn get_cluster(&self, idx: u32) -> (r: Result<Cluster<'a>>)
        requires
            self.wf(),
        ensures
            match r {
                Ok(c) => {
                    &&& c.wf()
                    &&& cluster_opening(
                        self.bytes(),
                        self.cluster_pointers(),
                        idx as int,
                        self.head().checksum_pos,
                        self.head().version_major,
                    ) == Ok::<(int, int), Error>((c.start_pos(), c.end_pos()))
                    &&& c.raw() == self.bytes().subrange(c.start_pos(), c.end_pos())
                    &&& c.decode_count() == 0
                },
                Err(e) => cluster_opening(
                    self.bytes(),
                    self.cluster_pointers(),
                    idx as int,
                    self.head().checksum_pos,
                    self.head().version_major,
                ) == Err::<(int, int), Error>(e),
            },
    {
        Cluster::new(
            self.master,
            &self.cluster_list,
            idx,
            self.header.checksum_pos,
            self.header.version_major,
        )
    }
}

} // verus!
