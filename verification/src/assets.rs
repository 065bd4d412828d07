//! Fetching an asset index: what to do next, and how the pass ends.
//!
//! The caller owns the network and the file system. It reports what happened,
//! and `download_assets` answers with the next step: the index is fetched, its
//! raw text is kept below the game directory, the asset store is looked at,
//! and the objects that it lacks are listed. The first failure ends the pass.

use crate::differ::{
    asset_targets, asset_targets_of, missing_asset_params, missing_assets, LocalFile,
};
use crate::error::InstanceError;
use crate::manifest::{
    index_folder, index_path, AssetIndex, AssetItemView, ClientView, McClientInfo,
};
use crate::source::{param_views, target_views, DownloadParam, SyncTarget};
use vstd::prelude::*;

verus! {

/// How asking for the index ended.
#[derive(Debug, Clone, Copy, PartialEq, Eq, Structural)]
pub enum FetchOutcome {
    /// The transfer failed, or the answer was not a success.
    Unreachable,
    /// An answer came, and its body is no JSON.
    Unreadable,
    /// The body is JSON.
    Received,
}

/// What happened outside since the last step.
#[derive(Debug, PartialEq, Eq)]
pub enum AssetsEvent<'a> {
    /// The pass begins.
    Started,
    /// The index was asked for.
    IndexFetched { outcome: FetchOutcome },
    /// The caller has tried to create the folder for raw indexes.
    FolderCreated { created: bool },
    /// The caller has tried to write the raw index as it was received, and
    /// then to read it as an index; `read` is `None` if it is none.
    IndexWritten { written: bool, read: Option<&'a AssetIndex> },
    /// The caller has looked at the asset store for each target of `index`.
    StoreProbed { index: &'a AssetIndex, observed: &'a Vec<LocalFile> },
}

/// What the caller has to do next.
#[derive(Debug, PartialEq, Eq)]
pub enum AssetsStep {
    /// Ask for the index at this address and report `IndexFetched`.
    FetchIndex { url: String },
    /// Create this folder, given relative to the game directory, with its
    /// parents, and report `FolderCreated`.
    CreateFolder { path: String },
    /// Write the raw index to this file, given relative to the game directory,
    /// and report `IndexWritten`.
    WriteIndex { path: String },
    /// Look at the asset store for each of these targets and report
    /// `StoreProbed`.
    ProbeStore { targets: Vec<SyncTarget> },
    /// The pass is over.
    Done { result: Result<Vec<DownloadParam>, InstanceError> },
}

/// Whether `step` ends the pass with the failure `error`.
pub open spec fn fails_with(step: AssetsStep, error: InstanceError) -> bool {
    step == (AssetsStep::Done { result: Err(error) })
}

/// Whether `step` ends the pass with the instructions for the objects of
/// `index` that the asset store lacks, or with a failure if one of them has no
/// address on the mirror at `base`.
pub open spec fn lists_missing(
    base: Seq<char>,
    index: Seq<(Seq<char>, AssetItemView)>,
    observed: Seq<LocalFile>,
    step: AssetsStep,
) -> bool {
    match missing_assets(base, index, observed) {
        Some(all) => step matches AssetsStep::Done { result: Ok(params) } && param_views(params@)
            == all,
        None => fails_with(step, InstanceError::SourceResolutionError),
    }
}

/// Whether `step` is the answer to `event`.
pub open spec fn answers(
    base: Seq<char>,
    client: ClientView,
    event: AssetsEvent<'_>,
    step: AssetsStep,
) -> bool {
    match event {
        AssetsEvent::Started => step matches AssetsStep::FetchIndex { url } && url@
            == client.asset_index_url,
        AssetsEvent::IndexFetched { outcome } => match outcome {
            FetchOutcome::Unreachable => fails_with(step, InstanceError::NetworkError),
            FetchOutcome::Unreadable => fails_with(step, InstanceError::ManifestParseError),
            FetchOutcome::Received => step matches AssetsStep::CreateFolder { path } && path@
                == index_folder(),
        },
        AssetsEvent::FolderCreated { created } => if created {
            step matches AssetsStep::WriteIndex { path } && path@ == index_path(
                client.asset_index_id,
            )
        } else {
            fails_with(step, InstanceError::FolderCreationFailed)
        },
        AssetsEvent::IndexWritten { written, read } => if !written {
            fails_with(step, InstanceError::FileCreationFailed)
        } else {
            match read {
                Some(index) => step matches AssetsStep::ProbeStore { targets } && target_views(
                    targets@,
                ) == asset_targets_of(index@),
                None => fails_with(step, InstanceError::ManifestParseError),
            }
        },
        AssetsEvent::StoreProbed { index, observed } => lists_missing(
            base,
            index@,
            observed@,
            step,
        ),
    }
}

/// Answers `event` with the next step of fetching the asset index that
/// `version_info` names and listing the objects that the asset store lacks.
/// `base` is the address of the asset mirror.
pub fn download_assets(base: &str, version_info: &McClientInfo, event: AssetsEvent<'_>) -> (step:
    AssetsStep)
    ensures
        answers(base@, version_info@, event, step),
{
    match event {
        AssetsEvent::Started => AssetsStep::FetchIndex {
            url: version_info.asset_index.url.clone(),
        },
        AssetsEvent::IndexFetched { outcome } => match outcome {
            FetchOutcome::Unreachable => AssetsStep::Done {
                result: Err(InstanceError::NetworkError),
            },
            FetchOutcome::Unreadable => AssetsStep::Done {
                result: Err(InstanceError::ManifestParseError),
            },
            FetchOutcome::Received => AssetsStep::CreateFolder {
                path: "assets/indexes".to_owned(),
            },
        },
        AssetsEvent::FolderCreated { created } => if created {
            AssetsStep::WriteIndex { path: version_info.asset_index.cache_path() }
        } else {
            AssetsStep::Done { result: Err(InstanceError::FolderCreationFailed) }
        },
        AssetsEvent::IndexWritten { written, read } => if !written {
            AssetsStep::Done { result: Err(InstanceError::FileCreationFailed) }
        } else {
            match read {
                Some(index) => AssetsStep::ProbeStore { targets: asset_targets(index) },
                None => AssetsStep::Done { result: Err(InstanceError::ManifestParseError) },
            }
        },
        AssetsEvent::StoreProbed { index, observed } => AssetsStep::Done {
            result: missing_asset_params(base, index, observed),
        },
    }
}

} // verus!
