//! What has to be fetched: the manifest held against the local store.
//!
//! The caller asks for the targets of a manifest, looks at the local store for
//! each of them, and hands back one observation per target, in the order of
//! the targets. A target without an observation counts as absent. A target is
//! fetched if it is absent, or if digests are to be checked and its file does
//! not have the expected one; a file that is present and not checked counts as
//! good.

use crate::collector::{
    get_native_library_artifacts, get_nonnative_library_artifacts, native_artifacts,
    nonnative_artifacts,
};
use crate::error::InstanceError;
use crate::gather::{
    all_or_none, collect_distinct, collect_some, lemma_collect_distinct_contains,
    lemma_collect_distinct_no_duplicates, lemma_collect_some_contains,
    lemma_collect_some_no_duplicates, lemma_collect_some_of_all, lemma_occurs_once, occurs_once,
    picks_distinct, values_of,
};
use crate::manifest::{
    artifact_views, ArtifactView, AssetIndex, AssetItemView, LibraryView, McClientInfo,
};
use crate::rules::{PlatformContext, PlatformView};
use crate::source::{
    fetch_for, param_views, resolved_url, target_views, DownloadParam, DownloadParamView,
    SyncTarget, TargetView,
};
use vstd::hash_map::StringHashMap;
use vstd::prelude::*;

verus! {

/// What was seen of one target in the local store.
#[derive(Debug, Clone, Copy, PartialEq, Eq, Structural)]
pub struct LocalFile {
    /// Whether a file stands at the target's place.
    pub exists: bool,
    /// Whether that file has the expected digest. Read only where the file
    /// exists and digests are checked.
    pub sha1_valid: bool,
}

/// Whether a target of which `file` was seen has to be fetched.
pub open spec fn needs_fetch(file: LocalFile, check_hash: bool) -> bool {
    !file.exists || (check_hash && !file.sha1_valid)
}

/// What was seen of the target at place `i`; a target that nothing was seen of
/// counts as absent.
pub open spec fn observation(observed: Seq<LocalFile>, i: int) -> LocalFile {
    if 0 <= i < observed.len() {
        observed[i]
    } else {
        LocalFile { exists: false, sha1_valid: false }
    }
}

/// The directory that shards an object: the first two characters of its
/// digest (all of it, where it has fewer).
pub open spec fn shard_prefix(hash: Seq<char>) -> Seq<char> {
    if hash.len() >= 2 {
        hash.take(2)
    } else {
        hash
    }
}

/// Where a mirror keeps the object with digest `hash`: `<prefix>/<hash>`.
pub open spec fn shard_path(hash: Seq<char>) -> Seq<char> {
    shard_prefix(hash) + "/"@ + hash
}

/// Where the local store keeps the object with digest `hash`, relative to the
/// asset root: `objects/<prefix>/<hash>`.
pub open spec fn object_path(hash: Seq<char>) -> Seq<char> {
    "objects/"@ + shard_path(hash)
}

/// The target that stands for the object with digest `hash`.
pub open spec fn asset_target(hash: Seq<char>) -> TargetView {
    TargetView { remote: shard_path(hash), dest: object_path(hash), sha1: hash }
}

/// The target that stands for a library artifact: it lies at its path, on the
/// mirror as in the local store.
pub open spec fn library_target(artifact: ArtifactView) -> TargetView {
    TargetView { remote: artifact.path, dest: artifact.path, sha1: artifact.sha1 }
}

/// The targets of an asset index: one for each digest, however many names
/// share it, in the order in which the index first names them.
pub open spec fn asset_targets_of(index: Seq<(Seq<char>, AssetItemView)>) -> Seq<TargetView> {
    collect_distinct(
        index.map_values(|entry: (Seq<char>, AssetItemView)| Some(asset_target(entry.1.hash))),
    )
}

/// The targets of a library list on a platform: its native artifacts, then
/// its ordinary ones, each once.
pub open spec fn library_targets_of(libraries: Seq<LibraryView>, platform: PlatformView) -> Seq<
    TargetView,
> {
    collect_distinct(
        (native_artifacts(libraries, platform) + nonnative_artifacts(
            libraries,
            platform,
        )).map_values(|a: ArtifactView| Some(library_target(a))),
    )
}

/// Place by place, the targets that have to be fetched.
pub open spec fn needed_picks(
    targets: Seq<TargetView>,
    observed: Seq<LocalFile>,
    check_hash: bool,
) -> Seq<Option<TargetView>> {
    Seq::new(
        targets.len(),
        |i: int|
            if needs_fetch(observation(observed, i), check_hash) {
                Some(targets[i])
            } else {
                None
            },
    )
}

/// The targets that have to be fetched, in order.
pub open spec fn needed_targets(
    targets: Seq<TargetView>,
    observed: Seq<LocalFile>,
    check_hash: bool,
) -> Seq<TargetView> {
    collect_some(needed_picks(targets, observed, check_hash))
}

/// The instructions for those of `targets` that have an address on the mirror
/// at `base`; the others are passed over.
pub open spec fn available_params(base: Seq<char>, targets: Seq<TargetView>) -> Seq<
    DownloadParamView,
> {
    collect_some(targets.map_values(|t: TargetView| fetch_for(base, t)))
}

/// The instructions for `targets`, one for each; `None` if one of them has no
/// address on the mirror at `base`.
pub open spec fn all_params(base: Seq<char>, targets: Seq<TargetView>) -> Option<
    Seq<DownloadParamView>,
> {
    all_or_none(targets.map_values(|t: TargetView| fetch_for(base, t)))
}

/// The instructions that repair the asset store: one for each object of
/// `index` that has to be fetched and has an address on the mirror at `base`.
pub open spec fn asset_repairs(
    base: Seq<char>,
    index: Seq<(Seq<char>, AssetItemView)>,
    observed: Seq<LocalFile>,
    check_hash: bool,
) -> Seq<DownloadParamView> {
    available_params(base, needed_targets(asset_targets_of(index), observed, check_hash))
}

/// The instructions that repair the library store: one for each artifact of
/// `libraries` on `platform` that has to be fetched and has an address on the
/// mirror at `base`.
pub open spec fn library_repairs(
    base: Seq<char>,
    libraries: Seq<LibraryView>,
    platform: PlatformView,
    observed: Seq<LocalFile>,
    check_hash: bool,
) -> Seq<DownloadParamView> {
    available_params(
        base,
        needed_targets(library_targets_of(libraries, platform), observed, check_hash),
    )
}

/// What was seen of the object with digest `hash`, which `index` names.
pub open spec fn asset_observation(
    index: Seq<(Seq<char>, AssetItemView)>,
    observed: Seq<LocalFile>,
    hash: Seq<char>,
) -> LocalFile {
    observation(observed, asset_targets_of(index).index_of(asset_target(hash)))
}

/// Whether no two of `targets` have the same place in the local store and the
/// same digest.
pub open spec fn distinct_places(targets: Seq<TargetView>) -> bool {
    forall|a: int, b: int|
        0 <= a < targets.len() && 0 <= b < targets.len() && a != b ==> !((
        #[trigger] targets[a]).dest == (#[trigger] targets[b]).dest && targets[a].sha1
            == targets[b].sha1)
}

impl LocalFile {
    /// What is seen of a target where no file stands.
    pub fn absent() -> (file: LocalFile)
        ensures
            file == (LocalFile { exists: false, sha1_valid: false }),
    {
        LocalFile { exists: false, sha1_valid: false }
    }

    /// What is seen of a target whose file stands and was not looked into.
    pub fn present() -> (file: LocalFile)
        ensures
            file == (LocalFile { exists: true, sha1_valid: false }),
    {
        LocalFile { exists: true, sha1_valid: false }
    }

    /// What is seen of a target whose file stands and whose digest was
    /// compared with the expected one. Whatever kept the comparison from
    /// succeeding, a digest that differs or a file that cannot be read, the
    /// file does not count as valid.
    pub fn verified(verification: &Result<(), InstanceError>) -> (file: LocalFile)
        ensures
            file == (LocalFile { exists: true, sha1_valid: verification is Ok }),
    {
        LocalFile { exists: true, sha1_valid: verification.is_ok() }
    }

    /// Whether a target of which `self` was seen has to be fetched.
    pub fn needs_fetch(&self, check_hash: bool) -> (needed: bool)
        ensures
            needed == needs_fetch(*self, check_hash),
    {
        !self.exists || (check_hash && !self.sha1_valid)
    }
}

/// Where a mirror keeps the object with digest `hash`.
pub fn asset_shard_path(hash: &String) -> (path: String)
    ensures
        path@ == shard_path(hash@),
{
    let whole = hash.as_str();
    let mut path = if whole.unicode_len() >= 2 {
        whole.substring_char(0, 2).to_owned()
    } else {
        hash.clone()
    };
    path.append("/");
    path.append(whole);
    path
}

/// Where the local store keeps the object with digest `hash`, relative to the
/// asset root.
pub fn asset_object_path(hash: &String) -> (path: String)
    ensures
        path@ == object_path(hash@),
{
    let mut path = "objects/".to_owned();
    path.append(asset_shard_path(hash).as_str());
    path
}

/// Whether `target` is among `targets`.
pub fn contains_target(targets: &Vec<SyncTarget>, target: &SyncTarget) -> (found: bool)
    ensures
        found == target_views(targets@).contains(target@),
{
    let mut i: usize = 0;
    while i < targets.len()
        invariant
            i <= targets.len(),
            forall|j: int| 0 <= j < i ==> targets@[j]@ != target@,
        decreases targets.len() - i,
    {
        if targets[i].same_as(target) {
            assert(target_views(targets@)[i as int] == target@);
            return true;
        }
        i += 1;
    }
    false
}

/// The targets of an asset index: one for each object, however many names
/// stand for it.
pub fn asset_targets(asset_index: &AssetIndex) -> (targets: Vec<SyncTarget>)
    ensures
        target_views(targets@) == asset_targets_of(asset_index@),
{
    let ghost picks = asset_index@.map_values(
        |entry: (Seq<char>, AssetItemView)| Some(asset_target(entry.1.hash)),
    );
    let mut targets: Vec<SyncTarget> = Vec::new();
    let mut seen: StringHashMap<bool> = StringHashMap::new();
    let mut i: usize = 0;
    assert(picks.take(0) =~= Seq::<Option<TargetView>>::empty());
    while i < asset_index.objects.len()
        invariant
            i <= asset_index.objects.len(),
            picks == asset_index@.map_values(
                |entry: (Seq<char>, AssetItemView)| Some(asset_target(entry.1.hash)),
            ),
            target_views(targets@) == collect_distinct(picks.take(i as int)),
            forall|hash: Seq<char>|
                seen@.contains_key(hash) <==> #[trigger] target_views(targets@).contains(
                    asset_target(hash),
                ),
        decreases asset_index.objects.len() - i,
    {
        proof {
            assert(picks.take(i + 1).drop_last() =~= picks.take(i as int));
            assert(picks.take(i + 1).last() == Some(
                asset_target(asset_index.objects@[i as int].1.hash@),
            ));
        }
        let hash = &asset_index.objects[i].1.hash;
        if !seen.contains_key(hash.as_str()) {
            let ghost before = target_views(targets@);
            targets.push(
                SyncTarget {
                    remote: asset_shard_path(hash),
                    dest: asset_object_path(hash),
                    sha1: hash.clone(),
                },
            );
            seen.insert(hash.clone(), true);
            proof {
                let now = target_views(targets@);
                assert(now =~= before.push(asset_target(hash@)));
                assert forall|other: Seq<char>|
                    seen@.contains_key(other) <==> #[trigger] now.contains(
                        asset_target(other),
                    ) by {
                    if before.contains(asset_target(other)) {
                        let k = choose|k: int|
                            0 <= k < before.len() && before[k] == asset_target(other);
                        assert(now[k] == asset_target(other));
                    }
                    if other == hash@ {
                        assert(now[now.len() - 1] == asset_target(other));
                    }
                    if now.contains(asset_target(other)) {
                        let k = choose|k: int| 0 <= k < now.len() && now[k] == asset_target(other);
                        if k < before.len() {
                            assert(before[k] == asset_target(other));
                        } else {
                            assert(asset_target(other).sha1 == asset_target(hash@).sha1);
                        }
                    }
                }
            }
        }
        i += 1;
    }
    proof {
        assert(picks.take(i as int) =~= picks);
    }
    targets
}

/// The targets of the libraries that `client_info` asks for on `platform`:
/// the artifacts of its native libraries, then those of its ordinary ones,
/// each once.
pub fn library_targets(client_info: &McClientInfo, platform: &PlatformContext) -> (targets: Vec<
    SyncTarget,
>)
    ensures
        target_views(targets@) == library_targets_of(client_info@.libraries, platform@),
{
    let mut artifacts = get_native_library_artifacts(client_info, platform);
    let mut ordinary = get_nonnative_library_artifacts(client_info, platform);
    let ghost native_part = artifact_views(artifacts@);
    let ghost ordinary_part = artifact_views(ordinary@);
    artifacts.append(&mut ordinary);
    assert(artifact_views(artifacts@) =~= native_part + ordinary_part);
    let ghost picks = artifact_views(artifacts@).map_values(
        |a: ArtifactView| Some(library_target(a)),
    );
    let mut targets: Vec<SyncTarget> = Vec::new();
    let mut i: usize = 0;
    assert(picks.take(0) =~= Seq::<Option<TargetView>>::empty());
    while i < artifacts.len()
        invariant
            i <= artifacts.len(),
            picks == artifact_views(artifacts@).map_values(
                |a: ArtifactView| Some(library_target(a)),
            ),
            target_views(targets@) == collect_distinct(picks.take(i as int)),
        decreases artifacts.len() - i,
    {
        proof {
            assert(picks.take(i + 1).drop_last() =~= picks.take(i as int));
            assert(picks.take(i + 1).last() == Some(library_target(artifacts@[i as int]@)));
        }
        let target = SyncTarget {
            remote: artifacts[i].path.clone(),
            dest: artifacts[i].path.clone(),
            sha1: artifacts[i].sha1.clone(),
        };
        if !contains_target(&targets, &target) {
            let ghost before = target_views(targets@);
            targets.push(target);
            assert(target_views(targets@) =~= before.push(target@));
        }
        i += 1;
    }
    proof {
        assert(picks.take(i as int) =~= picks);
    }
    targets
}

/// Picks from `targets` those that have to be fetched, given what was seen of
/// each.
pub fn select_needed(targets: &Vec<SyncTarget>, observed: &Vec<LocalFile>, check_hash: bool) -> (
    needed: Vec<SyncTarget>
)
    ensures
        target_views(needed@) == needed_targets(target_views(targets@), observed@, check_hash),
{
    let ghost picks = needed_picks(target_views(targets@), observed@, check_hash);
    let mut needed: Vec<SyncTarget> = Vec::new();
    let mut i: usize = 0;
    assert(picks.take(0) =~= Seq::<Option<TargetView>>::empty());
    while i < targets.len()
        invariant
            i <= targets.len(),
            picks == needed_picks(target_views(targets@), observed@, check_hash),
            target_views(needed@) == collect_some(picks.take(i as int)),
        decreases targets.len() - i,
    {
        proof {
            assert(picks.take(i + 1).drop_last() =~= picks.take(i as int));
            assert(picks.take(i + 1).last() == picks[i as int]);
        }
        let seen = if i < observed.len() {
            observed[i]
        } else {
            LocalFile { exists: false, sha1_valid: false }
        };
        if seen.needs_fetch(check_hash) {
            let ghost before = target_views(needed@);
            needed.push(targets[i].clone());
            assert(target_views(needed@) =~= before.push(targets@[i as int]@));
        }
        i += 1;
    }
    proof {
        assert(picks.take(i as int) =~= picks);
    }
    needed
}

/// The instructions for those of `targets` that have an address on the mirror
/// at `base`. A target without one is passed over.
pub fn resolve_available(base: &str, targets: &Vec<SyncTarget>) -> (params: Vec<DownloadParam>)
    ensures
        param_views(params@) == available_params(base@, target_views(targets@)),
{
    let ghost picks = target_views(targets@).map_values(|t: TargetView| fetch_for(base@, t));
    let mut params: Vec<DownloadParam> = Vec::new();
    let mut i: usize = 0;
    assert(picks.take(0) =~= Seq::<Option<DownloadParamView>>::empty());
    while i < targets.len()
        invariant
            i <= targets.len(),
            picks == target_views(targets@).map_values(|t: TargetView| fetch_for(base@, t)),
            param_views(params@) == collect_some(picks.take(i as int)),
        decreases targets.len() - i,
    {
        proof {
            assert(picks.take(i + 1).drop_last() =~= picks.take(i as int));
            assert(picks.take(i + 1).last() == fetch_for(base@, targets@[i as int]@));
        }
        match DownloadParam::resolve(base, &targets[i]) {
            Some(param) => {
                let ghost before = param_views(params@);
                params.push(param);
                assert(param_views(params@) =~= before.push(param@));
            },
            None => {},
        }
        i += 1;
    }
    proof {
        assert(picks.take(i as int) =~= picks);
    }
    params
}

/// The instructions for `targets`, one for each. Fails if one of them has no
/// address on the mirror at `base`.
pub fn resolve_all(base: &str, targets: &Vec<SyncTarget>) -> (params: Result<
    Vec<DownloadParam>,
    InstanceError,
>)
    ensures
        match all_params(base@, target_views(targets@)) {
            Some(all) => params matches Ok(p) && param_views(p@) == all,
            None => params == Err::<Vec<DownloadParam>, InstanceError>(
                InstanceError::SourceResolutionError,
            ),
        },
{
    let ghost picks = target_views(targets@).map_values(|t: TargetView| fetch_for(base@, t));
    let mut params: Vec<DownloadParam> = Vec::new();
    let mut i: usize = 0;
    assert(param_views(params@) =~= values_of(picks.take(0)));
    while i < targets.len()
        invariant
            i <= targets.len(),
            picks == target_views(targets@).map_values(|t: TargetView| fetch_for(base@, t)),
            all_or_none(picks.take(i as int)) == Some(param_views(params@)),
        decreases targets.len() - i,
    {
        match DownloadParam::resolve(base, &targets[i]) {
            Some(param) => {
                let ghost before = param_views(params@);
                params.push(param);
                proof {
                    assert(picks[i as int] == Some(param@));
                    assert(before == values_of(picks.take(i as int)));
                    assert(param_views(params@) =~= before.push(param@));
                    assert(param_views(params@) =~= values_of(picks.take(i + 1)));
                    assert forall|k: int| 0 <= k < i + 1 implies (#[trigger] picks.take(i + 1)[k])
                        is Some by {
                        if k < i {
                            assert(picks.take(i as int)[k] is Some);
                        }
                    }
                }
            },
            None => {
                assert(picks[i as int] is None);
                return Err(InstanceError::SourceResolutionError);
            },
        }
        i += 1;
    }
    proof {
        assert(picks.take(i as int) =~= picks);
    }
    Ok(params)
}

/// The instructions that repair the asset store: one for each object of
/// `asset_index` that has to be fetched and has an address on the mirror at
/// `base`. `observed` holds what was seen of each of `asset_targets`.
///
/// An object without an address on the mirror is passed over; the instructions
/// of `missing_asset_params` fail on it instead.
pub fn get_invalid_assets(
    base: &str,
    asset_index: &AssetIndex,
    check_hash: bool,
    observed: &Vec<LocalFile>,
) -> (params: Vec<DownloadParam>)
    ensures
        param_views(params@) == asset_repairs(base@, asset_index@, observed@, check_hash),
        param_views(params@).no_duplicates(),
{
    let targets = asset_targets(asset_index);
    let needed = select_needed(&targets, observed, check_hash);
    proof {
        lemma_asset_targets_distinct_places(asset_index@);
        lemma_repairs_no_duplicates(base@, target_views(targets@), observed@, check_hash);
    }
    resolve_available(base, &needed)
}

/// The instructions that repair the library store: one for each artifact that
/// `client_info` asks for on `platform`, that has to be fetched and has an
/// address on the mirror at `base`. `observed` holds what was seen of each of
/// `library_targets`.
///
/// An artifact without an address on the mirror is passed over; the
/// instructions of `get_libraries_download_params` fail on it instead.
pub fn get_invalid_library_files(
    base: &str,
    client_info: &McClientInfo,
    platform: &PlatformContext,
    check_hash: bool,
    observed: &Vec<LocalFile>,
) -> (params: Vec<DownloadParam>)
    ensures
        param_views(params@) == library_repairs(
            base@,
            client_info@.libraries,
            platform@,
            observed@,
            check_hash,
        ),
        param_views(params@).no_duplicates(),
{
    let targets = library_targets(client_info, platform);
    let needed = select_needed(&targets, observed, check_hash);
    proof {
        lemma_library_targets_distinct_places(client_info@.libraries, platform@);
        lemma_repairs_no_duplicates(base@, target_views(targets@), observed@, check_hash);
    }
    resolve_available(base, &needed)
}

/// The instructions that fetch the objects of `index` that the asset store
/// lacks, one for each; `None` if one of them has no address on the mirror at
/// `base`. Digests play no part.
pub open spec fn missing_assets(
    base: Seq<char>,
    index: Seq<(Seq<char>, AssetItemView)>,
    observed: Seq<LocalFile>,
) -> Option<Seq<DownloadParamView>> {
    all_params(base, needed_targets(asset_targets_of(index), observed, false))
}

/// The instructions that fetch the objects of `asset_index` that the asset
/// store lacks, one for each. `observed` holds what was seen of each of
/// `asset_targets`; digests are not checked. Fails if a lacking object has no
/// address on the mirror at `base`.
pub fn missing_asset_params(
    base: &str,
    asset_index: &AssetIndex,
    observed: &Vec<LocalFile>,
) -> (params: Result<Vec<DownloadParam>, InstanceError>)
    ensures
        match missing_assets(base@, asset_index@, observed@) {
            Some(all) => params matches Ok(p) && param_views(p@) == all,
            None => params == Err::<Vec<DownloadParam>, InstanceError>(
                InstanceError::SourceResolutionError,
            ),
        },
{
    let targets = asset_targets(asset_index);
    let needed = select_needed(&targets, observed, false);
    resolve_all(base, &needed)
}

/// The instructions that fetch every artifact that `client_info` asks for on
/// `platform`, whatever the library store holds. Fails if an artifact has no
/// address on the mirror at `base`.
pub fn get_libraries_download_params(
    base: &str,
    client_info: &McClientInfo,
    platform: &PlatformContext,
) -> (params: Result<Vec<DownloadParam>, InstanceError>)
    ensures
        match all_params(base@, library_targets_of(client_info@.libraries, platform@)) {
            Some(all) => params matches Ok(p) && param_views(p@) == all,
            None => params == Err::<Vec<DownloadParam>, InstanceError>(
                InstanceError::SourceResolutionError,
            ),
        },
{
    let targets = library_targets(client_info, platform);
    resolve_all(base, &targets)
}

/// Two digests whose objects lie at the same place of a mirror are the same.
pub proof fn lemma_shard_path_injective(a: Seq<char>, b: Seq<char>)
    requires
        shard_path(a) == shard_path(b),
    ensures
        a == b,
{
    let path = shard_path(a);
    assert(path.len() == shard_prefix(a).len() + "/"@.len() + a.len());
    assert(path.len() == shard_prefix(b).len() + "/"@.len() + b.len());
    assert(a.len() == b.len());
    assert(a =~= path.skip(path.len() - a.len()));
    assert(b =~= shard_path(b).skip(path.len() - b.len()));
}

/// Two digests whose objects lie at the same place of the local store are the
/// same.
pub proof fn lemma_object_path_injective(a: Seq<char>, b: Seq<char>)
    requires
        object_path(a) == object_path(b),
    ensures
        a == b,
{
    let head = "objects/"@;
    assert(shard_path(a) =~= object_path(a).skip(head.len() as int));
    assert(shard_path(b) =~= object_path(b).skip(head.len() as int));
    lemma_shard_path_injective(a, b);
}

/// An instruction is given only for a target that has to be fetched: one that
/// is absent, or one whose digest was checked and found wrong.
pub proof fn lemma_repair_stems_from_needed(
    base: Seq<char>,
    targets: Seq<TargetView>,
    observed: Seq<LocalFile>,
    check_hash: bool,
    param: DownloadParamView,
)
    requires
        available_params(base, needed_targets(targets, observed, check_hash)).contains(param),
    ensures
        exists|m: int|
            0 <= m < targets.len() && needs_fetch(observation(observed, m), check_hash)
                && fetch_for(base, #[trigger] targets[m]) == Some(param),
{
    let picks = needed_picks(targets, observed, check_hash);
    let needed = collect_some(picks);
    let fetches = needed.map_values(|t: TargetView| fetch_for(base, t));
    lemma_collect_some_contains(fetches, param);
    let a = choose|a: int| 0 <= a < fetches.len() && fetches[a] == Some(param);
    assert(needed.contains(needed[a]));
    lemma_collect_some_contains(picks, needed[a]);
    let m = choose|m: int| 0 <= m < picks.len() && picks[m] == Some(needed[a]);
    assert(fetch_for(base, targets[m]) == Some(param));
}

/// Every target that has to be fetched and has an address on the mirror gets
/// its instruction.
pub proof fn lemma_needed_is_repaired(
    base: Seq<char>,
    targets: Seq<TargetView>,
    observed: Seq<LocalFile>,
    check_hash: bool,
    m: int,
)
    requires
        0 <= m < targets.len(),
        needs_fetch(observation(observed, m), check_hash),
        fetch_for(base, targets[m]) is Some,
    ensures
        available_params(base, needed_targets(targets, observed, check_hash)).contains(
            fetch_for(base, targets[m])->0,
        ),
{
    let picks = needed_picks(targets, observed, check_hash);
    let needed = collect_some(picks);
    let fetches = needed.map_values(|t: TargetView| fetch_for(base, t));
    assert(picks[m] == Some(targets[m]));
    lemma_collect_some_contains(picks, targets[m]);
    let a = choose|a: int| 0 <= a < needed.len() && needed[a] == targets[m];
    assert(fetches[a] == Some(fetch_for(base, targets[m])->0));
    lemma_collect_some_contains(fetches, fetch_for(base, targets[m])->0);
}

/// Targets that differ in place or digest are given no instruction twice.
pub proof fn lemma_repairs_no_duplicates(
    base: Seq<char>,
    targets: Seq<TargetView>,
    observed: Seq<LocalFile>,
    check_hash: bool,
)
    requires
        distinct_places(targets),
    ensures
        available_params(base, needed_targets(targets, observed, check_hash)).no_duplicates(),
{
    let picks = needed_picks(targets, observed, check_hash);
    let needed = collect_some(picks);
    let fetches = needed.map_values(|t: TargetView| fetch_for(base, t));
    assert(picks_distinct(picks)) by {
        assert forall|i: int, j: int|
            0 <= i < j < picks.len() && picks[i] is Some implies #[trigger] picks[i]
            != #[trigger] picks[j] by {
            if picks[j] is Some {
                assert(targets[i].dest != targets[j].dest || targets[i].sha1 != targets[j].sha1);
            }
        }
    }
    lemma_collect_some_no_duplicates(picks);
    assert(picks_distinct(fetches)) by {
        assert forall|a: int, b: int|
            0 <= a < b < fetches.len() && fetches[a] is Some implies #[trigger] fetches[a]
            != #[trigger] fetches[b] by {
            if fetches[a] == fetches[b] {
                assert(needed.contains(needed[a]));
                assert(needed.contains(needed[b]));
                lemma_collect_some_contains(picks, needed[a]);
                lemma_collect_some_contains(picks, needed[b]);
                let m = choose|m: int| 0 <= m < picks.len() && picks[m] == Some(needed[a]);
                let n = choose|n: int| 0 <= n < picks.len() && picks[n] == Some(needed[b]);
                assert(needed[a] != needed[b]);
                assert(targets[m] == needed[a] && targets[n] == needed[b]);
                assert(m != n);
                assert(targets[m].dest != targets[n].dest || targets[m].sha1 != targets[n].sha1);
                assert(false);
            }
        }
    }
    lemma_collect_some_no_duplicates(fetches);
}

/// The targets of an asset index lie at different places of the local store.
pub proof fn lemma_asset_targets_distinct_places(index: Seq<(Seq<char>, AssetItemView)>)
    ensures
        distinct_places(asset_targets_of(index)),
        asset_targets_of(index).no_duplicates(),
{
    let picks = index.map_values(
        |entry: (Seq<char>, AssetItemView)| Some(asset_target(entry.1.hash)),
    );
    let targets = collect_distinct(picks);
    lemma_collect_distinct_no_duplicates(picks);
    assert forall|a: int, b: int|
        0 <= a < targets.len() && 0 <= b < targets.len() && a != b implies !((
    #[trigger] targets[a]).dest == (#[trigger] targets[b]).dest && targets[a].sha1
        == targets[b].sha1) by {
        assert(targets.contains(targets[a]));
        assert(targets.contains(targets[b]));
        lemma_collect_distinct_contains(picks, targets[a]);
        lemma_collect_distinct_contains(picks, targets[b]);
        let m = choose|m: int| 0 <= m < picks.len() && picks[m] == Some(targets[a]);
        let n = choose|n: int| 0 <= n < picks.len() && picks[n] == Some(targets[b]);
        assert(targets[a] == asset_target(index[m].1.hash));
        assert(targets[b] == asset_target(index[n].1.hash));
        assert(targets[a] != targets[b]);
    }
}

/// The targets of a library list differ in place or in digest.
pub proof fn lemma_library_targets_distinct_places(
    libraries: Seq<LibraryView>,
    platform: PlatformView,
)
    ensures
        distinct_places(library_targets_of(libraries, platform)),
{
    let artifacts = native_artifacts(libraries, platform) + nonnative_artifacts(
        libraries,
        platform,
    );
    let picks = artifacts.map_values(|a: ArtifactView| Some(library_target(a)));
    let targets = collect_distinct(picks);
    lemma_collect_distinct_no_duplicates(picks);
    assert forall|a: int, b: int|
        0 <= a < targets.len() && 0 <= b < targets.len() && a != b implies !((
    #[trigger] targets[a]).dest == (#[trigger] targets[b]).dest && targets[a].sha1
        == targets[b].sha1) by {
        assert(targets.contains(targets[a]));
        assert(targets.contains(targets[b]));
        lemma_collect_distinct_contains(picks, targets[a]);
        lemma_collect_distinct_contains(picks, targets[b]);
        let m = choose|m: int| 0 <= m < picks.len() && picks[m] == Some(targets[a]);
        let n = choose|n: int| 0 <= n < picks.len() && picks[n] == Some(targets[b]);
        assert(targets[a] == library_target(artifacts[m]));
        assert(targets[b] == library_target(artifacts[n]));
        assert(targets[a] != targets[b]);
    }
}

/// With digests checked, no instruction is given for an object that stands in
/// the local store with the digest that the index names.
pub proof fn lemma_valid_asset_not_fetched(
    base: Seq<char>,
    index: Seq<(Seq<char>, AssetItemView)>,
    observed: Seq<LocalFile>,
    i: int,
)
    requires
        0 <= i < index.len(),
        asset_observation(index, observed, index[i].1.hash).exists,
        asset_observation(index, observed, index[i].1.hash).sha1_valid,
    ensures
        forall|k: int|
            0 <= k < asset_repairs(base, index, observed, true).len() ==> (
            #[trigger] asset_repairs(base, index, observed, true)[k]).dest != object_path(
                index[i].1.hash,
            ),
{
    let hash = index[i].1.hash;
    let targets = asset_targets_of(index);
    let repairs = asset_repairs(base, index, observed, true);
    let picks = index.map_values(
        |entry: (Seq<char>, AssetItemView)| Some(asset_target(entry.1.hash)),
    );
    lemma_asset_targets_distinct_places(index);
    assert(picks[i] == Some(asset_target(hash)));
    lemma_collect_distinct_contains(picks, asset_target(hash));
    let at = targets.index_of(asset_target(hash));
    assert forall|k: int| 0 <= k < repairs.len() implies (#[trigger] repairs[k]).dest
        != object_path(hash) by {
        if repairs[k].dest == object_path(hash) {
            assert(repairs.contains(repairs[k]));
            lemma_repair_stems_from_needed(base, targets, observed, true, repairs[k]);
            let m = choose|m: int|
                0 <= m < targets.len() && needs_fetch(observation(observed, m), true)
                    && fetch_for(base, #[trigger] targets[m]) == Some(repairs[k]);
            assert(targets.contains(targets[m]));
            lemma_collect_distinct_contains(picks, targets[m]);
            let n = choose|n: int| 0 <= n < picks.len() && picks[n] == Some(targets[m]);
            assert(targets[m] == asset_target(index[n].1.hash));
            lemma_object_path_injective(index[n].1.hash, hash);
            assert(targets[m] == targets[at]);
            assert(m == at);
            assert(false);
        }
    }
}

/// Exactly one instruction is given for an object that the local store lacks
/// and that has an address on the mirror, however many names of the index
/// stand for it.
pub proof fn lemma_absent_asset_fetched_once(
    base: Seq<char>,
    index: Seq<(Seq<char>, AssetItemView)>,
    observed: Seq<LocalFile>,
    check_hash: bool,
    i: int,
)
    requires
        0 <= i < index.len(),
        !asset_observation(index, observed, index[i].1.hash).exists,
        fetch_for(base, asset_target(index[i].1.hash)) is Some,
    ensures
        occurs_once(
            asset_repairs(base, index, observed, check_hash),
            fetch_for(base, asset_target(index[i].1.hash))->0,
        ),
        occurs_once(
            asset_repairs(base, index, observed, check_hash).map_values(
                |p: DownloadParamView| p.dest,
            ),
            object_path(index[i].1.hash),
        ),
{
    let hash = index[i].1.hash;
    let targets = asset_targets_of(index);
    let repairs = asset_repairs(base, index, observed, check_hash);
    let places = repairs.map_values(|p: DownloadParamView| p.dest);
    let param = fetch_for(base, asset_target(hash))->0;
    let picks = index.map_values(
        |entry: (Seq<char>, AssetItemView)| Some(asset_target(entry.1.hash)),
    );
    lemma_asset_targets_distinct_places(index);
    assert(picks[i] == Some(asset_target(hash)));
    lemma_collect_distinct_contains(picks, asset_target(hash));
    let at = targets.index_of(asset_target(hash));
    lemma_needed_is_repaired(base, targets, observed, check_hash, at);
    lemma_repairs_no_duplicates(base, targets, observed, check_hash);
    lemma_occurs_once(repairs, param);
    let k = choose|k: int| 0 <= k < repairs.len() && repairs[k] == param;
    assert(places[k] == object_path(hash));
    assert forall|j: int| 0 <= j < places.len() && #[trigger] places[j] == object_path(
        hash,
    ) implies j == k by {
        assert(repairs.contains(repairs[j]));
        lemma_repair_stems_from_needed(base, targets, observed, check_hash, repairs[j]);
        let m = choose|m: int|
            0 <= m < targets.len() && needs_fetch(observation(observed, m), check_hash)
                && fetch_for(base, #[trigger] targets[m]) == Some(repairs[j]);
        assert(targets.contains(targets[m]));
        lemma_collect_distinct_contains(picks, targets[m]);
        let n = choose|n: int| 0 <= n < picks.len() && picks[n] == Some(targets[m]);
        assert(targets[m] == asset_target(index[n].1.hash));
        lemma_object_path_injective(index[n].1.hash, hash);
        assert(repairs[j] == param);
    }
}

/// Those of `targets` that have no address on the mirror at `base`, in order.
pub open spec fn unresolved_of(base: Seq<char>, targets: Seq<TargetView>) -> Seq<TargetView> {
    collect_some(
        targets.map_values(
            |t: TargetView|
                if fetch_for(base, t) is None {
                    Some(t)
                } else {
                    None
                },
        ),
    )
}

/// The targets that `resolve_available` passes over: those of `targets` that
/// have no address on the mirror at `base`. A caller that wants a record of
/// what a repair left out asks here.
pub fn unresolved_targets(base: &str, targets: &Vec<SyncTarget>) -> (unresolved: Vec<
    SyncTarget,
>)
    ensures
        target_views(unresolved@) == unresolved_of(base@, target_views(targets@)),
{
    let ghost picks = target_views(targets@).map_values(
        |t: TargetView|
            if fetch_for(base@, t) is None {
                Some(t)
            } else {
                None
            },
    );
    let mut unresolved: Vec<SyncTarget> = Vec::new();
    let mut i: usize = 0;
    assert(picks.take(0) =~= Seq::<Option<TargetView>>::empty());
    while i < targets.len()
        invariant
            i <= targets.len(),
            picks == target_views(targets@).map_values(
                |t: TargetView|
                    if fetch_for(base@, t) is None {
                        Some(t)
                    } else {
                        None
                    },
            ),
            target_views(unresolved@) == collect_some(picks.take(i as int)),
        decreases targets.len() - i,
    {
        proof {
            assert(picks.take(i + 1).drop_last() =~= picks.take(i as int));
            assert(picks.take(i + 1).last() == picks[i as int]);
        }
        if DownloadParam::resolve(base, &targets[i]).is_none() {
            let ghost before = target_views(unresolved@);
            unresolved.push(targets[i].clone());
            assert(target_views(unresolved@) =~= before.push(targets@[i as int]@));
        }
        i += 1;
    }
    proof {
        assert(picks.take(i as int) =~= picks);
    }
    unresolved
}

/// Where every target has an address on the mirror, the strict and the
/// lenient reading give the same instructions: they differ only in what
/// becomes of a target without an address.
pub proof fn lemma_all_params_are_the_available(base: Seq<char>, targets: Seq<TargetView>)
    requires
        all_params(base, targets) is Some,
    ensures
        all_params(base, targets) == Some(available_params(base, targets)),
{
    lemma_collect_some_of_all(targets.map_values(|t: TargetView| fetch_for(base, t)));
}

/// Every instruction carries the digest of its target, its place in the local
/// store, and no display name.
pub proof fn lemma_param_carries_digest(
    base: Seq<char>,
    targets: Seq<TargetView>,
    param: DownloadParamView,
)
    requires
        available_params(base, targets).contains(param),
    ensures
        param.filename is None,
        exists|m: int|
            0 <= m < targets.len() && param.sha1 == Some((#[trigger] targets[m]).sha1)
                && param.dest == targets[m].dest && Some(param.src) == resolved_url(
                base,
                targets[m].remote,
            ),
{
    let fetches = targets.map_values(|t: TargetView| fetch_for(base, t));
    lemma_collect_some_contains(fetches, param);
    let m = choose|m: int| 0 <= m < fetches.len() && fetches[m] == Some(param);
    assert(fetch_for(base, targets[m]) == Some(param));
}

} // verus!
