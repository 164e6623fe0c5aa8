//! Image-folder browsing core: image discovery, sibling-folder navigation,
//! archive extraction planning and temporary-area bookkeeping.
//!
//! Filesystem access is left to the caller: the functions here take what was
//! read from disk as plain values and decide what to return or to write.

pub mod archive;
pub mod error;
pub mod images;
pub mod paths;
pub mod siblings;
pub mod temp;

pub use archive::{ArchiveManager, ExtractStep, RawEntry};
pub use error::CommandError;
pub use images::{FileEntry, ImageProcessor};
pub use siblings::DirEntryInfo;
pub use temp::{ArchiveHandler, ExtractionRegistry, TempFolder};
