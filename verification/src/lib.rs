//! Decides which files of a content-addressed resource store must be fetched.
//!
//! A manifest names the assets and libraries a client needs. Given the manifest
//! and what was observed of the local store, the functions here answer with the
//! list of downloads that repairs the store, and with the archives whose native
//! payloads have to be unpacked. Nothing in this crate touches the network or
//! the file system: callers probe, fetch and unpack, and hand over plain values.

pub mod assets;
pub mod collector;
pub mod coordinate;
pub mod differ;
pub mod error;
pub mod gather;
pub mod manifest;
pub mod natives;
pub mod rules;
pub mod source;
pub mod text;

pub use assets::{download_assets, AssetsEvent, AssetsStep, FetchOutcome};
pub use collector::{
    get_native_library_artifacts, get_native_library_paths, get_nonnative_library_artifacts,
    get_nonnative_library_paths, native_lookup_misses,
};
pub use coordinate::convert_library_name_to_path;
pub use differ::{
    asset_object_path, asset_shard_path, asset_targets, get_invalid_assets,
    get_invalid_library_files, get_libraries_download_params, library_targets,
    missing_asset_params, resolve_all, resolve_available, select_needed, unresolved_targets,
    LocalFile,
};
pub use error::InstanceError;
pub use manifest::{
    AssetIndex, AssetIndexInfo, AssetIndexItem, DownloadsArtifact, LibrariesValue,
    LibraryDownloads, McClientInfo,
};
pub use natives::{aggregate_outcomes, extract_native_libraries, ExtractionEvent, ExtractionStep};
pub use rules::{is_allowed, InstructionRule, PlatformContext, RuleAction, RuleCondition};
pub use source::{DownloadParam, SyncTarget};
