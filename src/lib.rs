//! Scanning of media library trees into a catalog of mounted files.
//!
//! The pure parts of the pipeline (which walked paths are mounted, how a
//! file is mounted into the catalog, which records are orphans and how the
//! watch daemon reacts to a notification) live here and are verified. Walking
//! the disk, probing files and watching for changes is left to the caller.

pub mod daemon;
pub mod heuristic;
pub mod kinds;
pub mod paths;
pub mod scanner;
pub mod store;

pub use daemon::daemon_actions;
pub use daemon::scanner_from_library;
pub use daemon::DaemonAction;
pub use daemon::FsEvent;
pub use heuristic::is_heuristic_safe;
pub use heuristic::parse_file_name;
pub use heuristic::ParsedName;
pub use kinds::APIExec;
pub use kinds::ApiEpisode;
pub use kinds::ApiMedia;
pub use kinds::ApiMediaType;
pub use kinds::ApiSeason;
pub use kinds::MediaType;
pub use kinds::MetadataAgent;
pub use kinds::ScannerError;
pub use paths::bare_file_name;
pub use paths::file_name;
pub use paths::has_supported_extension;
pub use paths::is_hidden_path;
pub use paths::should_mount;
pub use scanner::MediaScanner;
pub use scanner::ScanEntry;
pub use store::Library;
pub use store::MediaFile;
pub use store::MediaStore;
pub use store::ProbeData;
