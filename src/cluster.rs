use vstd::prelude::*;

use crate::bytes::{le_u32_at, le_u64_at, read_u32_le, read_u64_le};
use crate::compression::{compression_of, decoded, decompress_payload, Compression};
use vstd::slice::slice_subrange;
use crate::errors::{Error, Result};

verus! {

/// Width in bytes of one blob-offset entry.
pub open spec fn entry_width(extended: bool) -> int {
    if extended {
        8
    } else {
        4
    }
}

/// Bytes taken by `n` blob-offset entries.
pub open spec fn table_bytes(extended: bool, n: int) -> int {
    if extended {
        8 * n
    } else {
        4 * n
    }
}

/// The `k`-th blob-offset entry stored at the start of `data`.
pub open spec fn entry_at(data: Seq<u8>, extended: bool, k: int) -> int {
    if extended {
        le_u64_at(data, 8 * k)
    } else {
        le_u32_at(data, 4 * k)
    }
}

/// The blob-offset table at the start of `data`: its first entry gives the
/// table's size in bytes, and so the number of entries. `None` where the data
/// ends before the table or the table would be empty.
pub open spec fn blob_table(data: Seq<u8>, extended: bool) -> Option<Seq<u64>> {
    if data.len() < entry_width(extended) {
        None
    } else {
        let n = entry_at(data, extended, 0) / entry_width(extended);
        if 1 <= n && table_bytes(extended, n) <= data.len() {
            Some(Seq::new(n as nat, |k: int| entry_at(data, extended, k) as u64))
        } else {
            None
        }
    }
}

/// Whether the details byte of a cluster sets the extended-offset flag (bit 4).
pub open spec fn details_extended(details: u8) -> bool {
    (details / 16) % 2 == 1
}

/// The compression code held by the low four bits of a details byte.
pub open spec fn details_code(details: u8) -> u8 {
    details % 16
}

/// The details byte read as its extended flag and compression scheme.
pub open spec fn details_of(details: u8) -> Result<(bool, Compression)> {
    match compression_of(details_code(details)) {
        Ok(c) => Ok((details_extended(details), c)),
        Err(e) => Err(e),
    }
}

/// The bytes that the blob-offset table of a cluster addresses: its raw bytes
/// past the details byte, decoded by its scheme.
pub open spec fn cluster_data(mode: Compression, raw: Seq<u8>) -> Option<Seq<u8>> {
    decoded(mode, raw.drop_first())
}

/// Blob `idx` of `data` whose offset table is `table`: it runs from its own offset
/// to the next one, the last up to the end of `data`.
pub open spec fn blob_in(data: Seq<u8>, table: Seq<u64>, idx: int) -> Result<Seq<u8>> {
    if idx < 0 || idx >= table.len() {
        Err(Error::IndexOutOfRange)
    } else {
        let start = table[idx] as int;
        let end = if idx + 1 < table.len() {
            table[idx + 1] as int
        } else {
            data.len() as int
        };
        if start <= end && end <= data.len() {
            Ok(data.subrange(start, end))
        } else {
            Err(Error::OutOfBounds)
        }
    }
}

/// Blob `idx` of a cluster whose raw bytes (details byte included) are `raw`.
pub open spec fn blob_of(mode: Compression, extended: bool, raw: Seq<u8>, idx: int) -> Result<
    Seq<u8>,
> {
    match cluster_data(mode, raw) {
        None => Err(Error::Parsing),
        Some(data) => match blob_table(data, extended) {
            None => Err(Error::Parsing),
            Some(table) => blob_in(data, table, idx),
        },
    }
}

/// Byte range `[start, end)` in the archive of cluster `idx`: it ends where the
/// next cluster starts, the last one where the checksum starts.
pub open spec fn cluster_bounds(list: Seq<u64>, idx: int, checksum_pos: u64) -> (int, int) {
    (
        list[idx] as int,
        if idx + 1 < list.len() {
            list[idx + 1] as int
        } else {
            checksum_pos as int
        },
    )
}

/// What opening cluster `idx` gives: its byte range, or why it cannot be read.
pub open spec fn cluster_opening(
    master: Seq<u8>,
    list: Seq<u64>,
    idx: int,
    checksum_pos: u64,
    version: u16,
) -> Result<(int, int)> {
    if idx >= list.len() {
        Err(Error::IndexOutOfRange)
    } else {
        let (start, end) = cluster_bounds(list, idx, checksum_pos);
        if end <= start || end > master.len() {
            Err(Error::OutOfBounds)
        } else {
            let raw = master.subrange(start, end);
            match details_of(raw[0]) {
                Err(e) => Err(e),
                Ok((extended, mode)) => if extended && version != 6 {
                    Err(Error::InvalidClusterExtension)
                } else if mode == Compression::Uncompressed && blob_table(
                    raw.drop_first(),
                    extended,
                ) is None {
                    Err(Error::Parsing)
                } else {
                    Ok((start, end))
                },
            }
        }
    }
}

/// The bytes of a blob result, as a sequence.
pub open spec fn bytes_result(r: Result<&[u8]>) -> Result<Seq<u8>> {
    match r {
        Ok(s) => Ok(s@),
        Err(e) => Err(e),
    }
}

/// Reads the extended flag and the compression scheme from a details byte.
fn parse_details(details: u8) -> (r: Result<(bool, Compression)>)
    ensures
        r == details_of(details),
{
    let extended = (details / 16) % 2 == 1;
    match Compression::from(details % 16) {
        Ok(c) => Ok((extended, c)),
        Err(e) => Err(e),
    }
}

/// Reads the blob-offset table at the start of `data`.
fn parse_blob_list(data: &[u8], extended: bool) -> (r: Result<Vec<u64>>)
    ensures
        match r {
            Ok(v) => blob_table(data@, extended) == Some(v@),
            Err(e) => blob_table(data@, extended) is None && e == Error::Parsing,
        },
{
    let width: usize = if extended {
        8
    } else {
        4
    };
    if data.len() < width {
        return Err(Error::Parsing);
    }
    let first = if extended {
        read_u64_le(data, 0)
    } else {
        read_u32_le(data, 0)
    };
    let count = first / (width as u64);
    if count == 0 || count > (data.len() / width) as u64 {
        return Err(Error::Parsing);
    }
    let count = count as usize;
    let mut blob_list: Vec<u64> = Vec::new();
    blob_list.push(first);
    let mut k: usize = 1;
    let mut pos: usize = width;
    assert(data@.len() == data.len());
    while k < count
        invariant
            width == entry_width(extended),
            1 <= k <= count,
            table_bytes(extended, count as int) <= data@.len() <= usize::MAX,
            pos == table_bytes(extended, k as int),
            blob_list@.len() == k,
            forall|j: int| 0 <= j < k ==> blob_list@[j] == entry_at(data@, extended, j) as u64,
        decreases count - k,
    {
        let next = if extended {
            read_u64_le(data, pos)
        } else {
            read_u32_le(data, pos)
        };
        blob_list.push(next);
        k = k + 1;
        pos = pos + width;
    }
    assert(blob_list@ =~= Seq::new(count as nat, |j: int| entry_at(data@, extended, j) as u64));
    Ok(blob_list)
}


/// A cluster index at or past the end of the cluster pointer list is refused
/// with an index error, whatever the archive holds.
pub proof fn lemma_cluster_index_past_end(
    master: Seq<u8>,
    list: Seq<u64>,
    idx: int,
    checksum_pos: u64,
    version: u16,
)
    requires
        idx >= list.len(),
    ensures
        cluster_opening(master, list, idx, checksum_pos, version) == Err::<(int, int), Error>(
            Error::IndexOutOfRange,
        ),
{
}

/// A cluster whose details byte sets the extended-offset flag cannot be opened
/// in an archive of major version 5.
pub proof fn lemma_extended_cluster_needs_version_six(
    master: Seq<u8>,
    list: Seq<u64>,
    idx: int,
    checksum_pos: u64,
)
    requires
        0 <= idx < list.len(),
        cluster_bounds(list, idx, checksum_pos).0 < cluster_bounds(list, idx, checksum_pos).1
            <= master.len(),
        details_extended(master[list[idx] as int]),
        details_of(master[list[idx] as int]) is Ok,
    ensures
        cluster_opening(master, list, idx, checksum_pos, 5) == Err::<(int, int), Error>(
            Error::InvalidClusterExtension,
        ),
{
    let (start, end) = cluster_bounds(list, idx, checksum_pos);
    assert(master.subrange(start, end)[0] == master[list[idx] as int]);
}

/// What a cluster serves as blob `idx` depends on its raw bytes, scheme and
/// offset width alone: two clusters read from the same source give the same
/// blob, however far each has got with decoding.
pub proof fn lemma_blob_depends_on_source(a: &Cluster, b: &Cluster, idx: int)
    requires
        a.same_source(b),
    ensures
        blob_of(a.scheme(), a.is_extended(), a.raw(), idx) == blob_of(
            b.scheme(),
            b.is_extended(),
            b.raw(),
            idx,
        ),
{
}

/// A cluster that serves blobs has run its decoder exactly once if it is
/// compressed, and never if it is not, whatever calls led there.
pub proof fn lemma_ready_cluster_decoded_once(c: &Cluster)
    requires
        c.wf(),
        c.is_ready(),
    ensures
        c.decode_count() == if c.scheme() == Compression::Uncompressed {
            0nat
        } else {
            1nat
        },
{
}

/// A cluster of blobs
///
/// Within an ZIM archive, clusters contain several blobs of data that are all compressed together.
/// Each blob is the data for an article.
pub struct Cluster<'a> {
    inner: InnerCluster<'a>,
}

/// The state of one cluster: its raw bytes, and once decoded, its data and
/// blob-offset table.
pub struct InnerCluster<'a> {
    extended: bool,
    compression: Compression,
    start: u64,
    end: u64,
    size: u64,
    view: &'a [u8],
    blob_list: Option<Vec<u64>>,
    decompressed: Option<Vec<u8>>,
    decodes: Ghost<nat>,
}

/// A borrowed view of the bytes of one blob.
pub struct Blob<'b> {
    bytes: &'b [u8],
}

impl<'b> View for Blob<'b> {
    type V = Seq<u8>;

    closed spec fn view(&self) -> Seq<u8> {
        self.bytes@
    }
}

impl<'b> Blob<'b> {
    pub fn as_bytes(&self) -> (r: &'b [u8])
        ensures
            r@ == self@,
    {
        self.bytes
    }
}

impl<'b> core::ops::Deref for Blob<'b> {
    type Target = [u8];

    fn deref(&self) -> &[u8] {
        self.bytes
    }
}

impl<'b> AsRef<[u8]> for Blob<'b> {
    fn as_ref(&self) -> &[u8] {
        self.bytes
    }
}

/// The bytes of a blob result, as a sequence.
pub open spec fn blob_result(r: Result<Blob>) -> Result<Seq<u8>> {
    match r {
        Ok(b) => Ok(b@),
        Err(e) => Err(e),
    }
}

impl<'a> InnerCluster<'a> {
    /// The raw bytes of the cluster, details byte included.
    pub closed spec fn raw(&self) -> Seq<u8> {
        self.view@
    }

    pub closed spec fn is_extended(&self) -> bool {
        self.extended
    }

    pub closed spec fn scheme(&self) -> Compression {
        self.compression
    }

    /// Offset in the archive of the cluster's first byte.
    pub closed spec fn start_pos(&self) -> int {
        self.start as int
    }

    /// Offset in the archive past the cluster's last byte.
    pub closed spec fn end_pos(&self) -> int {
        self.end as int
    }

    /// Whether the blob-offset table has been read, so that blobs can be served.
    pub closed spec fn is_ready(&self) -> bool {
        self.blob_list is Some
    }

    /// Whether the decoded data is held.
    pub closed spec fn has_data(&self) -> bool {
        self.compression == Compression::Uncompressed || self.decompressed is Some
    }

    /// How many times a decoder has run on this cluster.
    pub closed spec fn decode_count(&self) -> nat {
        self.decodes@
    }

    pub closed spec fn wf(&self) -> bool {
        &&& self.view@.len() >= 1
        &&& self.size == self.view@.len()
        &&& self.start < self.end
        &&& self.end - self.start == self.size
        &&& details_of(self.view@[0]) == Ok::<(bool, Compression), Error>(
            (self.extended, self.compression),
        )
        &&& self.compression == Compression::Uncompressed ==> {
            &&& self.decodes@ == 0
            &&& self.decompressed is None
            &&& self.blob_list is Some
            &&& blob_table(self.view@.drop_first(), self.extended) == Some(self.blob_list->0@)
        }
        &&& self.compression != Compression::Uncompressed ==> {
            &&& self.decompressed is Some ==> cluster_data(self.compression, self.view@) == Some(
                self.decompressed->0@,
            )
            &&& self.decompressed is Some ==> self.decodes@ == 1
            &&& self.decompressed is None && self.decodes@ > 0 ==> cluster_data(
                self.compression,
                self.view@,
            ) is None
            &&& self.blob_list is Some ==> {
                &&& self.decompressed is Some
                &&& blob_table(self.decompressed->0@, self.extended) == Some(self.blob_list->0@)
            }
        }
    }

    fn new(
        master_view: &'a [u8],
        cluster_list: &Vec<u64>,
        idx: u32,
        checksum_pos: u64,
        version: u16,
    ) -> (r: Result<Self>)
        ensures
            match r {
                Ok(c) => {
                    &&& c.wf()
                    &&& cluster_opening(
                        master_view@,
                        cluster_list@,
                        idx as int,
                        checksum_pos,
                        version,
                    ) == Ok::<(int, int), Error>((c.start_pos(), c.end_pos()))
                    &&& c.raw() == master_view@.subrange(c.start_pos(), c.end_pos())
                    &&& details_of(c.raw()[0]) == Ok::<(bool, Compression), Error>(
                        (c.is_extended(), c.scheme()),
                    )
                    &&& c.is_ready() <==> c.scheme() == Compression::Uncompressed
                    &&& c.decode_count() == 0
                },
                Err(e) => cluster_opening(
                    master_view@,
                    cluster_list@,
                    idx as int,
                    checksum_pos,
                    version,
                ) == Err::<(int, int), Error>(e),
            },
    {
        let i = idx as usize;
        if i >= cluster_list.len() {
            return Err(Error::IndexOutOfRange);
        }
        let start = cluster_list[i];
        let end = if i + 1 < cluster_list.len() {
            cluster_list[i + 1]
        } else {
            checksum_pos
        };
        if end <= start || end > master_view.len() as u64 {
            return Err(Error::OutOfBounds);
        }
        let cluster_size = end - start;
        let cluster_view = slice_subrange(master_view, start as usize, end as usize);
        let (extended, compression) = match parse_details(cluster_view[0]) {
            Ok(d) => d,
            Err(e) => return Err(e),
        };
        // extended clusters are only allowed in version 6
        if extended && version != 6 {
            return Err(Error::InvalidClusterExtension);
        }
        let blob_list = if compression == Compression::Uncompressed {
            let body = slice_subrange(cluster_view, 1, cluster_view.len());
            assert(body@ =~= cluster_view@.drop_first());
            match parse_blob_list(body, extended) {
                Ok(list) => Some(list),
                Err(e) => return Err(e),
            }
        } else {
            None
        };
        Ok(InnerCluster {
            extended,
            compression,
            start,
            end,
            size: cluster_size,
            view: cluster_view,
            blob_list,
            decompressed: None,
            decodes: Ghost(0),
        })
    }

    fn needs_decompression(&self) -> (r: bool)
        requires
            self.wf(),
        ensures
            r == !self.is_ready(),
    {
        match self.compression {
            Compression::Uncompressed => false,
            _ => self.decompressed.is_none() || self.blob_list.is_none(),
        }
    }

    fn decompress(&mut self) -> (r: Result<()>)
        requires
            old(self).wf(),
        ensures
            final(self).wf(),
            final(self).raw() == old(self).raw(),
            final(self).scheme() == old(self).scheme(),
            final(self).is_extended() == old(self).is_extended(),
            final(self).start_pos() == old(self).start_pos(),
            final(self).end_pos() == old(self).end_pos(),
            r is Ok <==> final(self).is_ready(),
            r is Ok <==> match cluster_data(old(self).scheme(), old(self).raw()) {
                Some(data) => blob_table(data, old(self).is_extended()) is Some,
                None => false,
            },
            r is Err ==> r == Err::<(), Error>(Error::Parsing),
            old(self).is_ready() ==> *final(self) == *old(self),
            old(self).has_data() ==> final(self).decode_count() == old(self).decode_count(),
            final(self).decode_count() <= old(self).decode_count() + 1,
    {
        if self.blob_list.is_some() {
            return Ok(());
        }
        if self.decompressed.is_none() {
            let payload = slice_subrange(self.view, 1, self.view.len());
            assert(payload@ =~= self.view@.drop_first());
            let decoded = decompress_payload(self.compression, payload);
            self.decodes = Ghost(self.decodes@ + 1);
            let data = match decoded {
                Ok(d) => d,
                Err(e) => return Err(e),
            };
            self.decompressed = Some(data);
        }
        let parsed = match &self.decompressed {
            Some(d) => parse_blob_list(d.as_slice(), self.extended),
            None => Err(Error::MissingBlobList),
        };
        match parsed {
            Ok(list) => {
                self.blob_list = Some(list);
                Ok(())
            },
            Err(e) => Err(e),
        }
    }

    fn get_blob(&self, idx: u32) -> (r: Result<&[u8]>)
        requires
            self.wf(),
        ensures
            !self.is_ready() ==> r == Err::<&[u8], Error>(Error::MissingBlobList),
            self.is_ready() ==> bytes_result(r) == blob_of(
                self.scheme(),
                self.is_extended(),
                self.raw(),
                idx as int,
            ),
    {
        match &self.blob_list {
            None => Err(Error::MissingBlobList),
            Some(list) => {
                let data: &[u8] = match &self.decompressed {
                    Some(d) => d.as_slice(),
                    None => slice_subrange(self.view, 1, self.view.len()),
                };
                assert(self.compression == Compression::Uncompressed ==> data@ =~= self.view@.drop_first());
                let i = idx as usize;
                if i >= list.len() {
                    return Err(Error::IndexOutOfRange);
                }
                let start = list[i];
                let end = if i + 1 < list.len() {
                    list[i + 1]
                } else {
                    data.len() as u64
                };
                if start <= end && end <= data.len() as u64 {
                    Ok(slice_subrange(data, start as usize, end as usize))
                } else {
                    Err(Error::OutOfBounds)
                }
            },
        }
    }
}

impl<'a> Cluster<'a> {
    /// The raw bytes of the cluster, details byte included.
    pub closed spec fn raw(&self) -> Seq<u8> {
        self.inner.raw()
    }

    pub closed spec fn is_extended(&self) -> bool {
        self.inner.is_extended()
    }

    pub closed spec fn scheme(&self) -> Compression {
        self.inner.scheme()
    }

    pub closed spec fn start_pos(&self) -> int {
        self.inner.start_pos()
    }

    pub closed spec fn end_pos(&self) -> int {
        self.inner.end_pos()
    }

    /// Whether blobs can be served without decoding anything.
    pub closed spec fn is_ready(&self) -> bool {
        self.inner.is_ready()
    }

    /// How many times a decoder has run on this cluster.
    pub closed spec fn decode_count(&self) -> nat {
        self.inner.decode_count()
    }

    pub closed spec fn wf(&self) -> bool {
        self.inner.wf()
    }

    /// Whether two clusters read the same bytes in the same way.
    pub open spec fn same_source(&self, other: &Cluster) -> bool {
        &&& self.raw() == other.raw()
        &&& self.scheme() == other.scheme()
        &&& self.is_extended() == other.is_extended()
        &&& self.start_pos() == other.start_pos()
        &&& self.end_pos() == other.end_pos()
    }

    /// Opens cluster `idx` of the archive `master_view`, whose cluster pointer
    /// list is `cluster_list` and whose checksum starts at `checksum_pos`. An
    /// uncompressed cluster has its blob-offset table read at once.
    pub fn new(
        master_view: &'a [u8],
        cluster_list: &Vec<u64>,
        idx: u32,
        checksum_pos: u64,
        version: u16,
    ) -> (r: Result<Cluster<'a>>)
        ensures
            match r {
                Ok(c) => {
                    &&& c.wf()
                    &&& cluster_opening(
                        master_view@,
                        cluster_list@,
                        idx as int,
                        checksum_pos,
                        version,
                    ) == Ok::<(int, int), Error>((c.start_pos(), c.end_pos()))
                    &&& c.raw() == master_view@.subrange(c.start_pos(), c.end_pos())
                    &&& details_of(c.raw()[0]) == Ok::<(bool, Compression), Error>(
                        (c.is_extended(), c.scheme()),
                    )
                    &&& c.is_ready() <==> c.scheme() == Compression::Uncompressed
                    &&& c.decode_count() == 0
                },
                Err(e) => cluster_opening(
                    master_view@,
                    cluster_list@,
                    idx as int,
                    checksum_pos,
                    version,
                ) == Err::<(int, int), Error>(e),
            },
    {
        match InnerCluster::new(master_view, cluster_list, idx, checksum_pos, version) {
            Ok(inner) => Ok(Cluster { inner }),
            Err(e) => Err(e),
        }
    }

    /// Decodes the cluster and reads its blob-offset table, unless that was done.
    pub fn decompress(&mut self) -> (r: Result<()>)
        requires
            old(self).wf(),
        ensures
            final(self).wf(),
            final(self).same_source(old(self)),
            r is Ok <==> final(self).is_ready(),
            r is Ok <==> match cluster_data(old(self).scheme(), old(self).raw()) {
                Some(data) => blob_table(data, old(self).is_extended()) is Some,
                None => false,
            },
            r is Err ==> r == Err::<(), Error>(Error::Parsing),
            old(self).is_ready() ==> *final(self) == *old(self),
            final(self).decode_count() <= old(self).decode_count() + 1,
    {
        self.inner.decompress()
    }

    pub fn compression(&self) -> (r: Compression)
        ensures
            r == self.scheme(),
    {
        self.inner.compression
    }

    /// Blob `idx` of the cluster. The cluster is decoded on the first call that
    /// needs it; later calls reuse what was decoded.
    pub fn get_blob(&mut self, idx: u32) -> (r: Result<Blob<'_>>)
        requires
            old(self).wf(),
        ensures
            final(self).wf(),
            final(self).same_source(old(self)),
            blob_result(r) == blob_of(
                old(self).scheme(),
                old(self).is_extended(),
                old(self).raw(),
                idx as int,
            ),
            r is Ok ==> final(self).is_ready(),
            old(self).is_ready() ==> *final(self) == *old(self),
            final(self).decode_count() <= old(self).decode_count() + 1,
    {
        if self.inner.needs_decompression() {
            match self.inner.decompress() {
                Ok(()) => {},
                Err(e) => return Err(e),
            }
        }
        match self.inner.get_blob(idx) {
            Ok(bytes) => Ok(Blob { bytes }),
            Err(e) => Err(e),
        }
    }
}

} // verus!
