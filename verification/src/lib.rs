//! Package footprint analysis: how large an installed package is, which kinds
//! of files it holds, and which of its files are the largest.
//!
//! The footprint of a package is computed from the directory of its binary
//! distribution, a zip archive: no file is unpacked. One pass over the
//! entries adds up the sizes, counts the files by type, and keeps the largest
//! files in a selection of bounded size ([`scan`], [`top_files`],
//! [`type_counts`], [`ranking`]). What the registry says of a package is kept
//! for a limited time in a store that many threads may share ([`cache`],
//! [`shared_cache`]). [`analyzer`] puts the steps together; reaching the
//! registry and the archive's origin is left to the caller, who hands in the
//! functions that do it.

pub mod analyzer;
pub mod archive;
pub mod cache;
pub mod config;
pub mod error;
pub mod package;
pub mod ranking;
pub mod registry;
pub mod scan;
pub mod shared_cache;
pub mod text;
pub mod top_files;
pub mod type_counts;

pub use analyzer::PackageAnalyzer;
pub use cache::MetadataCache;
pub use error::AnalysisError;
pub use package::FileInfo;
pub use package::Package;
pub use package::PackageFootprint;
pub use package::PyPIMetadata;
pub use registry::PyPIFileInfo;
pub use registry::PyPIInfo;
pub use registry::PyPIResponse;
pub use shared_cache::SharedCache;
