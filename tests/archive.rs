use zim::archive::checksum_matches;
use zim::{Compression, DirectoryEntry, Error, MimeType, Namespace, Target, Zim};

const MAGIC: u32 = 72173914;

struct Layout {
    bytes: Vec<u8>,
    entry_positions: Vec<u64>,
}

fn content_entry(mime: u16, ns: u8, cluster: u32, blob: u32, url: &str, title: &str) -> Vec<u8> {
    let mut e = Vec::new();
    e.extend_from_slice(&mime.to_le_bytes());
    e.push(0);
    e.push(ns);
    e.extend_from_slice(&7u32.to_le_bytes());
    e.extend_from_slice(&cluster.to_le_bytes());
    e.extend_from_slice(&blob.to_le_bytes());
    e.extend_from_slice(url.as_bytes());
    e.push(0);
    e.extend_from_slice(title.as_bytes());
    e.push(0);
    e
}

fn redirect_entry(ns: u8, target: u32, url: &str, title: &str) -> Vec<u8> {
    let mut e = Vec::new();
    e.extend_from_slice(&0xffffu16.to_le_bytes());
    e.push(0);
    e.push(ns);
    e.extend_from_slice(&0u32.to_le_bytes());
    e.extend_from_slice(&target.to_le_bytes());
    e.extend_from_slice(url.as_bytes());
    e.push(0);
    e.extend_from_slice(title.as_bytes());
    e.push(0);
    e
}

fn cluster_bytes(blobs: &[&[u8]]) -> Vec<u8> {
    let mut out = vec![0u8];
    let header = 4 * (blobs.len() as u32);
    let mut body = Vec::new();
    for b in blobs {
        out.extend_from_slice(&(header + body.len() as u32).to_le_bytes());
        body.extend_from_slice(b);
    }
    out.extend_from_slice(&body);
    out
}

/// An archive of major version 6 with the given entries (in URL order) and clusters.
fn build(entries: &[Vec<u8>], clusters: &[Vec<u8>]) -> Layout {
    let mut b = vec![0u8; 80];
    let mime_list_pos = b.len() as u64;
    b.extend_from_slice(b"text/html\0text/plain\0\0");
    let mut entry_positions = Vec::new();
    for e in entries {
        entry_positions.push(b.len() as u64);
        b.extend_from_slice(e);
    }
    let url_ptr_pos = b.len() as u64;
    for p in &entry_positions {
        b.extend_from_slice(&p.to_le_bytes());
    }
    // Titles sort in the reverse of URL order here.
    let title_ptr_pos = b.len() as u64;
    for p in entry_positions.iter().rev() {
        b.extend_from_slice(&p.to_le_bytes());
    }
    // The cluster pointer list comes before the clusters, so that the last
    // cluster runs up to the checksum.
    let cluster_ptr_pos = b.len() as u64;
    let mut next = cluster_ptr_pos + 8 * clusters.len() as u64;
    for c in clusters {
        b.extend_from_slice(&next.to_le_bytes());
        next += c.len() as u64;
    }
    for c in clusters {
        b.extend_from_slice(c);
    }
    let checksum_pos = b.len() as u64;
    b.extend_from_slice(&[0xab; 16]);

    b[0..4].copy_from_slice(&MAGIC.to_le_bytes());
    b[4..6].copy_from_slice(&6u16.to_le_bytes());
    b[6..8].copy_from_slice(&1u16.to_le_bytes());
    for (i, x) in b[8..24].iter_mut().enumerate() {
        *x = i as u8;
    }
    b[24..28].copy_from_slice(&(entries.len() as u32).to_le_bytes());
    b[28..32].copy_from_slice(&(clusters.len() as u32).to_le_bytes());
    b[32..40].copy_from_slice(&url_ptr_pos.to_le_bytes());
    b[40..48].copy_from_slice(&title_ptr_pos.to_le_bytes());
    b[48..56].copy_from_slice(&cluster_ptr_pos.to_le_bytes());
    b[56..64].copy_from_slice(&mime_list_pos.to_le_bytes());
    b[64..68].copy_from_slice(&1u32.to_le_bytes());
    b[68..72].copy_from_slice(&0xffff_ffffu32.to_le_bytes());
    b[72..80].copy_from_slice(&checksum_pos.to_le_bytes());
    Layout { bytes: b, entry_positions }
}

fn two_entry_archive() -> Layout {
    build(
        &[
            redirect_entry(b'A', 1, "Alias", ""),
            content_entry(0, b'A', 0, 0, "Page", "The Page"),
        ],
        &[cluster_bytes(&[b"<p>page</p>", b"second blob"])],
    )
}

#[test]
fn open_reads_header() {
    let a = two_entry_archive();
    let z = Zim::new(&a.bytes).unwrap();
    assert_eq!(z.header.magic_number, MAGIC);
    assert_eq!(z.header.version_major, 6);
    assert_eq!(z.header.version_minor, 1);
    assert_eq!(z.header.uuid, (0u8..16).collect::<Vec<u8>>());
    assert_eq!(z.header.cluster_count, 1);
    assert_eq!(z.header.main_page, Some(1));
    assert_eq!(z.header.layout_page, None);
    assert_eq!(z.header.checksum_pos + 16, a.bytes.len() as u64);
    assert_eq!(z.article_count(), 2);
    assert_eq!(z.checksum, vec![0xab; 16]);
}

#[test]
fn redirect_resolves_to_same_bytes() {
    let a = two_entry_archive();
    let z = Zim::new(&a.bytes).unwrap();
    let alias = z.get_by_url_index(0).unwrap();
    assert_eq!(alias.mime_type, MimeType::Redirect);
    assert_eq!(alias.url, "Alias");
    assert_eq!(alias.title, "Alias");
    let target = match alias.target {
        Some(Target::Redirect(t)) => t,
        other => panic!("not a redirect: {:?}", other),
    };
    let followed = z.get_by_url_index(target).unwrap();
    let direct = z.get_by_url_index(1).unwrap();
    let fetch = |e: &DirectoryEntry| -> Vec<u8> {
        match e.target {
            Some(Target::Cluster(c, b)) => {
                let mut cluster = z.get_cluster(c).unwrap();
                cluster.get_blob(b).unwrap().as_bytes().to_vec()
            }
            _ => panic!("not content"),
        }
    };
    assert_eq!(fetch(&followed), fetch(&direct));
    assert_eq!(fetch(&direct), b"<p>page</p>");
}

#[test]
fn content_entry_fields() {
    let a = two_entry_archive();
    let z = Zim::new(&a.bytes).unwrap();
    let e = z.get_by_url_index(1).unwrap();
    assert_eq!(e.mime_type, MimeType::Type("text/html".to_string()));
    assert_eq!(e.namespace, Namespace::Articles);
    assert_eq!(e.revision, 7);
    assert_eq!(e.parameter_len, 0);
    assert_eq!(e.target, Some(Target::Cluster(0, 0)));
    assert_eq!(e.url, "Page");
    assert_eq!(e.title, "The Page");
}

#[test]
fn every_content_entry_reaches_its_blob() {
    let a = build(
        &[
            content_entry(1, b'A', 0, 1, "A", ""),
            content_entry(0, b'A', 1, 0, "B", ""),
            redirect_entry(b'A', 0, "C", ""),
            content_entry(0, b'M', 0, 0, "D", ""),
        ],
        &[cluster_bytes(&[b"zero", b"one"]), cluster_bytes(&[b"other"])],
    );
    let z = Zim::new(&a.bytes).unwrap();
    let mut seen = 0;
    for i in 0..z.article_count() {
        let e = z.get_by_url_index(i).unwrap();
        if let Some(Target::Cluster(c, b)) = e.target {
            let mut cluster = z.get_cluster(c).unwrap();
            assert_eq!(cluster.compression(), Compression::Uncompressed);
            assert!(cluster.get_blob(b).is_ok());
            seen += 1;
        }
    }
    assert_eq!(seen, 3);
}

#[test]
fn url_order_is_kept() {
    let a = build(
        &[
            content_entry(0, b'A', 0, 0, "Apple", ""),
            content_entry(0, b'A', 0, 0, "Banana", ""),
            content_entry(0, b'A', 0, 0, "Cherry", ""),
        ],
        &[cluster_bytes(&[b"x"])],
    );
    let z = Zim::new(&a.bytes).unwrap();
    let urls: Vec<String> = (0..z.article_count())
        .map(|i| z.get_by_url_index(i).unwrap().url)
        .collect();
    assert_eq!(urls, vec!["Apple", "Banana", "Cherry"]);
    assert!(urls.windows(2).all(|w| w[0] <= w[1]));
    let all = z.iterate_by_urls().unwrap();
    let again = z.iterate_by_urls().unwrap();
    assert_eq!(all.len(), 3);
    assert_eq!(all, again);
    assert_eq!(all[2].url, "Cherry");
    let by_title: Vec<String> = z.iterate_by_titles().unwrap().into_iter().map(|e| e.url).collect();
    assert_eq!(by_title, vec!["Cherry", "Banana", "Apple"]);
    assert_eq!(z.get_by_title_index(0).unwrap().url, "Cherry");
    assert_eq!(z.get_by_title_index(3).err(), Some(Error::IndexOutOfRange));
}

#[test]
fn iteration_stops_at_first_bad_entry() {
    let a = build(
        &[
            content_entry(0, b'A', 0, 0, "Fine", ""),
            content_entry(0, b'?', 0, 0, "Bad namespace", ""),
            content_entry(7, b'A', 0, 0, "Bad mimetype", ""),
        ],
        &[cluster_bytes(&[b"x"])],
    );
    let z = Zim::new(&a.bytes).unwrap();
    assert_eq!(z.iterate_by_urls().err(), Some(Error::InvalidNamespace));
    assert_eq!(z.iterate_by_titles().err(), Some(Error::UnknownMimeType));
}

#[test]
fn wrong_magic_number() {
    let mut a = two_entry_archive();
    a.bytes[0] ^= 1;
    assert_eq!(Zim::new(&a.bytes).err(), Some(Error::InvalidMagicNumber));
}

#[test]
fn wrong_major_version() {
    let mut a = two_entry_archive();
    a.bytes[4..6].copy_from_slice(&7u16.to_le_bytes());
    assert_eq!(Zim::new(&a.bytes).err(), Some(Error::InvalidVersion(7)));
}

#[test]
fn short_header() {
    let a = two_entry_archive();
    assert_eq!(Zim::new(&a.bytes[..79]).err(), Some(Error::InvalidHeader));
}

#[test]
fn offset_past_end() {
    let mut a = two_entry_archive();
    let far = (a.bytes.len() as u64 + 1).to_le_bytes();
    a.bytes[32..40].copy_from_slice(&far);
    assert_eq!(Zim::new(&a.bytes).err(), Some(Error::InvalidHeader));
}

#[test]
fn checksum_not_at_end() {
    let mut a = two_entry_archive();
    a.bytes.push(0);
    assert_eq!(Zim::new(&a.bytes).err(), Some(Error::MissingChecksum));
}

#[test]
fn index_equal_to_count() {
    let a = two_entry_archive();
    let z = Zim::new(&a.bytes).unwrap();
    assert_eq!(z.get_by_url_index(2).err(), Some(Error::IndexOutOfRange));
    assert_eq!(z.get_cluster(z.header.cluster_count).err(), Some(Error::IndexOutOfRange));
}

#[test]
fn extended_cluster_in_version_five() {
    let mut a = build(
        &[content_entry(0, b'A', 0, 0, "P", "")],
        &[{
            let mut c = vec![0b000_1_0000u8];
            c.extend_from_slice(&8u64.to_le_bytes());
            c.extend_from_slice(b"blob");
            c
        }],
    );
    {
        let z = Zim::new(&a.bytes).unwrap();
        let mut c = z.get_cluster(0).unwrap();
        assert_eq!(c.get_blob(0).unwrap().as_bytes(), b"blob");
    }
    a.bytes[4..6].copy_from_slice(&5u16.to_le_bytes());
    let z = Zim::new(&a.bytes).unwrap();
    assert_eq!(z.get_cluster(0).err(), Some(Error::InvalidClusterExtension));
}

#[test]
fn bad_namespace_and_mimetype() {
    let a = build(
        &[
            content_entry(0, b'?', 0, 0, "Q", ""),
            content_entry(9, b'A', 0, 0, "R", ""),
        ],
        &[cluster_bytes(&[b"x"])],
    );
    let z = Zim::new(&a.bytes).unwrap();
    assert_eq!(z.get_by_url_index(0).err(), Some(Error::InvalidNamespace));
    assert_eq!(z.get_by_url_index(1).err(), Some(Error::UnknownMimeType));
    assert_eq!(a.entry_positions.len(), 2);
}

#[test]
fn entry_parse_at_position() {
    let a = two_entry_archive();
    let mimes = vec!["text/html".to_string(), "text/plain".to_string()];
    let e = DirectoryEntry::parse(&a.bytes, a.entry_positions[1], &mimes).unwrap();
    assert_eq!(e.url, "Page");
    let e = DirectoryEntry::parse(&a.bytes, a.entry_positions[0], &mimes).unwrap();
    assert_eq!(e.target, Some(Target::Redirect(1)));
    assert_eq!(
        DirectoryEntry::parse(&a.bytes, a.bytes.len() as u64 - 4, &mimes).err(),
        Some(Error::OutOfBounds)
    );
    // Bytes that are not UTF-8 in the URL.
    let mut bad = content_entry(0, b'A', 0, 0, "x", "");
    bad[16] = 0xff;
    assert_eq!(DirectoryEntry::parse(&bad, 0, &mimes).err(), Some(Error::Parsing));
    // A URL with no terminating zero.
    let cut = &a.bytes[..a.entry_positions[1] as usize + 18];
    assert_eq!(
        DirectoryEntry::parse(cut, a.entry_positions[1], &mimes).err(),
        Some(Error::Parsing)
    );
}

#[test]
fn checksum_verification() {
    let mut a = two_entry_archive();
    let body_len = a.bytes.len() - 16;
    let digest = md5::compute(&a.bytes[..body_len]).0;
    a.bytes[body_len..].copy_from_slice(&digest);
    {
        let z = Zim::new(&a.bytes).unwrap();
        assert_eq!(z.checksum, digest.to_vec());
        assert_eq!(z.verify_checksum(), Ok(()));
    }
    // Change one byte of the last blob.
    a.bytes[body_len - 1] ^= 0x20;
    let z = Zim::new(&a.bytes).unwrap();
    assert_eq!(z.verify_checksum(), Err(Error::InvalidChecksum));
}

#[test]
fn checksum_comparison() {
    assert!(checksum_matches(&[1, 2, 3], &[1, 2, 3]));
    assert!(!checksum_matches(&[1, 2, 3], &[1, 2, 4]));
    assert!(!checksum_matches(&[1, 2], &[1, 2, 3]));
    assert!(checksum_matches(&[], &[]));
}

#[test]
fn archive_keeps_opened_clusters() {
    let a = build(
        &[content_entry(0, b'A', 0, 0, "P", "")],
        &[cluster_bytes(&[b"zero", b"one"]), cluster_bytes(&[b"two"])],
    );
    let mut z = Zim::new(&a.bytes).unwrap();
    assert_eq!(z.get_blob(0, 1).unwrap().as_bytes(), b"one");
    assert_eq!(z.get_blob(1, 0).unwrap().as_bytes(), b"two");
    assert_eq!(z.get_blob(0, 0).unwrap().as_bytes(), b"zero");
    assert_eq!(z.get_blob(0, 1).unwrap().as_bytes(), b"one");
    assert_eq!(z.get_blob(0, 2).err(), Some(Error::IndexOutOfRange));
    assert_eq!(z.get_blob(2, 0).err(), Some(Error::IndexOutOfRange));
}

#[test]
fn archive_blob_of_compressed_cluster() {
    let mut data = Vec::new();
    data.extend_from_slice(&8u32.to_le_bytes());
    data.extend_from_slice(&13u32.to_le_bytes());
    data.extend_from_slice(b"hello world");
    let mut raw = vec![5u8];
    raw.extend_from_slice(&zstd::stream::encode_all(&data[..], 3).unwrap());
    let a = build(&[content_entry(0, b'C', 0, 1, "P", "")], &[raw]);
    let mut z = Zim::new(&a.bytes).unwrap();
    assert_eq!(z.get_blob(0, 0).unwrap().as_bytes(), b"hello");
    assert_eq!(z.get_blob(0, 1).unwrap().as_bytes(), b" world");
    assert_eq!(z.get_blob(0, 1).unwrap().as_bytes(), b" world");
    assert_eq!(z.get_cluster(0).unwrap().compression(), Compression::Zstd);
}
