//! Local cache resolution layer for a documentation-page viewer.
//!
//! Given a command name, this library decides which cached page file should be
//! shown: it searches a multi-language, multi-platform page tree in a strict
//! preference order, lets user-authored custom pages override the tree, and
//! lets user-authored patch fragments extend a tree match.  It also contains
//! the decision logic of the cache lifecycle: opening a cache root, computing
//! its age, enumerating available pages, detecting deprecated custom-page
//! naming, and refreshing the tree from a downloaded archive.
//!
//! All functions here are pure: they work on plain values (path components,
//! directory listings, file bytes, timestamps) that the surrounding
//! application reads from the filesystem and hands in.

pub mod cache;
pub mod error;
pub mod fs_model;
pub mod laws;
pub mod listing;
pub mod lookup;
pub mod path;
pub mod platform;
pub mod text;

pub use cache::Cache;
pub use cache::CacheConfig;
pub use cache::Language;
pub use error::Error;
pub use fs_model::CacheFile;
pub use fs_model::CacheTree;
pub use fs_model::DirEntryInfo;
pub use fs_model::DirListing;
pub use fs_model::FsView;
pub use fs_model::PathStatus;
pub use lookup::PageLookupResult;
pub use path::FsPath;
pub use platform::PlatformType;
