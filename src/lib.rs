//! Random-access reading of ZIM archives: header, mimetype and pointer lists,
//! directory entries, and clusters decoded on demand into blobs.

pub mod archive;
mod bytes;
pub mod cluster;
pub mod compression;
pub mod directory_entry;
pub mod errors;
pub mod header;
pub mod mime_type;
pub mod target;

pub use archive::Zim;
pub use cluster::{Blob, Cluster, InnerCluster};
pub use compression::Compression;
pub use directory_entry::{DirectoryEntry, Namespace};
pub use errors::{Error, Result};
pub use header::Header;
pub use mime_type::MimeType;
pub use target::Target;
