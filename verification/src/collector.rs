//! Which artifacts and which files a client descriptor asks for on a platform.
//!
//! A library entry counts on a platform if its rules admit it there. An entry
//! without native classifiers contributes its own artifact. An entry with
//! native classifiers contributes the artifact filed under the classifier that
//! it names for the platform's operating system, and nothing if it names none.

use crate::coordinate::{convert_library_name_to_path, resolve_coordinate};
use crate::error::InstanceError;
use crate::gather::{
    all_or_none, collect_distinct, collect_some, lemma_collect_distinct_contains,
    lemma_collect_distinct_no_duplicates, lemma_collect_distinct_once,
    lemma_collect_distinct_without_gap, lemma_collect_some_contains, occurs_once, values_of,
};
use crate::manifest::{
    artifact_views, lookup, ArtifactView, DownloadsArtifact, LibrariesValue, LibraryView,
    McClientInfo,
};
use crate::rules::{is_allowed, rules_allow, PlatformContext, PlatformView};
use crate::text::texts;
use vstd::prelude::*;

verus! {

/// The native classifier that `library` names for the platform's operating
/// system, if it names one.
pub open spec fn native_classifier(library: LibraryView, platform: PlatformView) -> Option<
    Seq<char>,
> {
    match library.natives {
        Some(by_os) => if by_os.contains_key(platform.os) {
            Some(by_os[platform.os])
        } else {
            None
        },
        None => None,
    }
}

/// The artifact that `library` contributes as an ordinary library, if any.
pub open spec fn nonnative_artifact(library: LibraryView, platform: PlatformView) -> Option<
    ArtifactView,
> {
    if rules_allow(library.rules, platform) && library.natives is None {
        library.artifact
    } else {
        None
    }
}

/// The artifact that `library` contributes as a native library, if any.
pub open spec fn native_artifact(library: LibraryView, platform: PlatformView) -> Option<
    ArtifactView,
> {
    match native_classifier(library, platform) {
        Some(classifier) => if rules_allow(library.rules, platform)
            && library.classifiers.contains_key(classifier) {
            Some(library.classifiers[classifier])
        } else {
            None
        },
        None => None,
    }
}

/// The ordinary artifacts of a library list, each once, in the order in which
/// the list first names them.
pub open spec fn nonnative_artifacts(libraries: Seq<LibraryView>, platform: PlatformView) -> Seq<
    ArtifactView,
> {
    collect_distinct(libraries.map_values(|l: LibraryView| nonnative_artifact(l, platform)))
}

/// The native artifacts of a library list, each once, in the order in which
/// the list first names them.
pub open spec fn native_artifacts(libraries: Seq<LibraryView>, platform: PlatformView) -> Seq<
    ArtifactView,
> {
    collect_distinct(libraries.map_values(|l: LibraryView| native_artifact(l, platform)))
}

/// The path that `library` resolves to as an ordinary library: `None` if it is
/// none on this platform, `Some(None)` if it is one and its name does not
/// resolve.
pub open spec fn nonnative_path(library: LibraryView, platform: PlatformView) -> Option<
    Option<Seq<char>>,
> {
    if rules_allow(library.rules, platform) && library.natives is None {
        Some(resolve_coordinate(library.name, None))
    } else {
        None
    }
}

/// The path that `library` resolves to as a native library: `None` if it is
/// none on this platform, `Some(None)` if it is one and its name does not
/// resolve.
pub open spec fn native_path(library: LibraryView, platform: PlatformView) -> Option<
    Option<Seq<char>>,
> {
    match native_classifier(library, platform) {
        Some(classifier) => if rules_allow(library.rules, platform) {
            Some(resolve_coordinate(library.name, Some(classifier)))
        } else {
            None
        },
        None => None,
    }
}

/// The files of the ordinary libraries of a list, one for each such entry in
/// the order of the list; `None` if the name of one of them does not resolve.
pub open spec fn nonnative_paths(libraries: Seq<LibraryView>, platform: PlatformView) -> Option<
    Seq<Seq<char>>,
> {
    all_or_none(collect_some(libraries.map_values(|l: LibraryView| nonnative_path(l, platform))))
}

/// The files of the native libraries of a list, one for each such entry in the
/// order of the list; `None` if the name of one of them does not resolve.
pub open spec fn native_paths(libraries: Seq<LibraryView>, platform: PlatformView) -> Option<
    Seq<Seq<char>>,
> {
    all_or_none(collect_some(libraries.map_values(|l: LibraryView| native_path(l, platform))))
}

impl LibrariesValue {
    /// Whether the rules of this entry admit it on `platform`.
    pub fn is_allowed(&self, platform: &PlatformContext) -> (allowed: bool)
        ensures
            allowed == rules_allow(self@.rules, platform@),
    {
        is_allowed(&self.rules, platform)
    }

    /// The native classifier that this entry names for the operating system of
    /// `platform`.
    pub fn native_classifier(&self, platform: &PlatformContext) -> (classifier: Option<&String>)
        ensures
            match classifier {
                Some(c) => native_classifier(self@, platform@) == Some(c@),
                None => native_classifier(self@, platform@) is None,
            },
    {
        match &self.natives {
            Some(by_os) => lookup(by_os, &platform.os),
            None => None,
        }
    }

    /// The artifact that this entry contributes as an ordinary library.
    pub fn nonnative_artifact(&self, platform: &PlatformContext) -> (artifact: Option<
        &DownloadsArtifact,
    >)
        ensures
            match artifact {
                Some(a) => nonnative_artifact(self@, platform@) == Some(a@),
                None => nonnative_artifact(self@, platform@) is None,
            },
    {
        if !self.is_allowed(platform) || self.natives.is_some() {
            return None;
        }
        self.downloads.artifact.as_ref()
    }

    /// The artifact that this entry contributes as a native library.
    pub fn native_artifact(&self, platform: &PlatformContext) -> (artifact: Option<
        &DownloadsArtifact,
    >)
        ensures
            match artifact {
                Some(a) => native_artifact(self@, platform@) == Some(a@),
                None => native_artifact(self@, platform@) is None,
            },
    {
        if !self.is_allowed(platform) {
            return None;
        }
        match self.native_classifier(platform) {
            Some(classifier) => lookup(&self.downloads.classifiers, classifier),
            None => None,
        }
    }
}

/// Whether `artifact` is among `artifacts`.
pub fn contains_artifact(artifacts: &Vec<DownloadsArtifact>, artifact: &DownloadsArtifact) -> (
    found: bool
)
    ensures
        found == artifact_views(artifacts@).contains(artifact@),
{
    let mut i: usize = 0;
    while i < artifacts.len()
        invariant
            i <= artifacts.len(),
            forall|j: int| 0 <= j < i ==> artifacts@[j]@ != artifact@,
        decreases artifacts.len() - i,
    {
        if artifacts[i].same_as(artifact) {
            assert(artifact_views(artifacts@)[i as int] == artifact@);
            return true;
        }
        i += 1;
    }
    false
}

/// Gathers the artifacts that the entries of `client_info` contribute on
/// `platform`, native ones or ordinary ones, each once.
fn collect_artifacts(client_info: &McClientInfo, platform: &PlatformContext, native: bool) -> (
    artifacts: Vec<DownloadsArtifact>
)
    ensures
        artifact_views(artifacts@) == (if native {
            native_artifacts(client_info@.libraries, platform@)
        } else {
            nonnative_artifacts(client_info@.libraries, platform@)
        }),
        artifact_views(artifacts@).no_duplicates(),
{
    let ghost picks = if native {
        client_info@.libraries.map_values(|l: LibraryView| native_artifact(l, platform@))
    } else {
        client_info@.libraries.map_values(|l: LibraryView| nonnative_artifact(l, platform@))
    };
    let mut artifacts: Vec<DownloadsArtifact> = Vec::new();
    let mut i: usize = 0;
    assert(picks.take(0) =~= Seq::<Option<ArtifactView>>::empty());
    while i < client_info.libraries.len()
        invariant
            i <= client_info.libraries.len(),
            picks == (if native {
                client_info@.libraries.map_values(|l: LibraryView| native_artifact(l, platform@))
            } else {
                client_info@.libraries.map_values(
                    |l: LibraryView| nonnative_artifact(l, platform@),
                )
            }),
            artifact_views(artifacts@) == collect_distinct(picks.take(i as int)),
        decreases client_info.libraries.len() - i,
    {
        proof {
            assert(picks.take(i + 1).drop_last() =~= picks.take(i as int));
            assert(picks.take(i + 1).last() == picks[i as int]);
        }
        let library = &client_info.libraries[i];
        let picked = if native {
            library.native_artifact(platform)
        } else {
            library.nonnative_artifact(platform)
        };
        match picked {
            Some(artifact) => {
                if !contains_artifact(&artifacts, artifact) {
                    let ghost before = artifact_views(artifacts@);
                    artifacts.push(artifact.clone());
                    assert(artifact_views(artifacts@) =~= before.push(artifact@));
                }
            },
            None => {},
        }
        i += 1;
    }
    proof {
        assert(picks.take(i as int) =~= picks);
        lemma_collect_distinct_no_duplicates(picks);
    }
    artifacts
}

/// The artifacts of the ordinary libraries that `client_info` asks for on
/// `platform`, each once.
pub fn get_nonnative_library_artifacts(
    client_info: &McClientInfo,
    platform: &PlatformContext,
) -> (artifacts: Vec<DownloadsArtifact>)
    ensures
        artifact_views(artifacts@) == nonnative_artifacts(client_info@.libraries, platform@),
        artifact_views(artifacts@).no_duplicates(),
{
    collect_artifacts(client_info, platform, false)
}

/// The artifacts of the native libraries that `client_info` asks for on
/// `platform`, each once.
pub fn get_native_library_artifacts(client_info: &McClientInfo, platform: &PlatformContext) -> (
    artifacts: Vec<DownloadsArtifact>
)
    ensures
        artifact_views(artifacts@) == native_artifacts(client_info@.libraries, platform@),
        artifact_views(artifacts@).no_duplicates(),
{
    collect_artifacts(client_info, platform, true)
}

impl LibrariesValue {
    /// The path of this entry as an ordinary library: `None` if it is none on
    /// `platform`, else what its name resolves to.
    pub fn nonnative_path(&self, platform: &PlatformContext) -> (path: Option<
        Result<String, InstanceError>,
    >)
        ensures
            match path {
                Some(Ok(p)) => nonnative_path(self@, platform@) == Some(Some(p@)),
                Some(Err(e)) => nonnative_path(self@, platform@) == Some(None::<Seq<char>>) && e
                    == InstanceError::CoordinateParseError,
                None => nonnative_path(self@, platform@) is None,
            },
    {
        if !self.is_allowed(platform) || self.natives.is_some() {
            return None;
        }
        Some(convert_library_name_to_path(&self.name, None))
    }

    /// The path of this entry as a native library: `None` if it is none on
    /// `platform`, else what its name resolves to with the classifier for the
    /// platform's operating system.
    pub fn native_path(&self, platform: &PlatformContext) -> (path: Option<
        Result<String, InstanceError>,
    >)
        ensures
            match path {
                Some(Ok(p)) => native_path(self@, platform@) == Some(Some(p@)),
                Some(Err(e)) => native_path(self@, platform@) == Some(None::<Seq<char>>) && e
                    == InstanceError::CoordinateParseError,
                None => native_path(self@, platform@) is None,
            },
    {
        if !self.is_allowed(platform) {
            return None;
        }
        match self.native_classifier(platform) {
            Some(classifier) => Some(
                convert_library_name_to_path(&self.name, Some(classifier.clone())),
            ),
            None => None,
        }
    }
}

/// Resolves the files of the entries of `client_info` that count on
/// `platform`, native ones or ordinary ones, one for each such entry.
fn resolve_paths(client_info: &McClientInfo, platform: &PlatformContext, native: bool) -> (paths:
    Result<Vec<String>, InstanceError>)
    ensures
        match (if native {
            native_paths(client_info@.libraries, platform@)
        } else {
            nonnative_paths(client_info@.libraries, platform@)
        }) {
            Some(resolved) => paths matches Ok(p) && texts(p@) == resolved,
            None => paths == Err::<Vec<String>, InstanceError>(
                InstanceError::CoordinateParseError,
            ),
        },
{
    let ghost picks = if native {
        client_info@.libraries.map_values(|l: LibraryView| native_path(l, platform@))
    } else {
        client_info@.libraries.map_values(|l: LibraryView| nonnative_path(l, platform@))
    };
    let mut paths: Vec<String> = Vec::new();
    let mut i: usize = 0;
    assert(picks.take(0) =~= Seq::<Option<Option<Seq<char>>>>::empty());
    assert(texts(paths@) =~= values_of(collect_some(picks.take(0))));
    while i < client_info.libraries.len()
        invariant
            i <= client_info.libraries.len(),
            picks == (if native {
                client_info@.libraries.map_values(|l: LibraryView| native_path(l, platform@))
            } else {
                client_info@.libraries.map_values(|l: LibraryView| nonnative_path(l, platform@))
            }),
            all_or_none(collect_some(picks.take(i as int))) == Some(texts(paths@)),
        decreases client_info.libraries.len() - i,
    {
        proof {
            assert(picks.take(i + 1).drop_last() =~= picks.take(i as int));
            assert(picks.take(i + 1).last() == picks[i as int]);
        }
        let library = &client_info.libraries[i];
        let picked = if native {
            library.native_path(platform)
        } else {
            library.nonnative_path(platform)
        };
        match picked {
            Some(Ok(path)) => {
                let ghost before = texts(paths@);
                paths.push(path);
                proof {
                    let earlier = collect_some(picks.take(i as int));
                    let gathered = collect_some(picks.take(i + 1));
                    assert(gathered == earlier.push(Some(path@)));
                    assert(before == values_of(earlier));
                    assert(texts(paths@) =~= before.push(path@));
                    assert(texts(paths@) =~= values_of(gathered));
                }
            },
            Some(Err(e)) => {
                proof {
                    lemma_collect_some_contains(picks, None::<Seq<char>>);
                    assert(picks[i as int] == Some(None::<Seq<char>>));
                    let gathered = collect_some(picks);
                    let k = choose|k: int|
                        0 <= k < gathered.len() && gathered[k] == None::<Seq<char>>;
                    assert(gathered[k] is None);
                }
                return Err(e);
            },
            None => {},
        }
        i += 1;
    }
    proof {
        assert(picks.take(i as int) =~= picks);
    }
    Ok(paths)
}

/// The files, relative to the library root, of the ordinary libraries that
/// `client_info` asks for on `platform`, one for each such entry.
pub fn get_nonnative_library_paths(client_info: &McClientInfo, platform: &PlatformContext) -> (
    paths: Result<Vec<String>, InstanceError>
)
    ensures
        match nonnative_paths(client_info@.libraries, platform@) {
            Some(resolved) => paths matches Ok(p) && texts(p@) == resolved,
            None => paths == Err::<Vec<String>, InstanceError>(
                InstanceError::CoordinateParseError,
            ),
        },
{
    resolve_paths(client_info, platform, false)
}

/// The files, relative to the library root, of the native libraries that
/// `client_info` asks for on `platform`, one for each such entry.
pub fn get_native_library_paths(client_info: &McClientInfo, platform: &PlatformContext) -> (
    paths: Result<Vec<String>, InstanceError>
)
    ensures
        match native_paths(client_info@.libraries, platform@) {
            Some(resolved) => paths matches Ok(p) && texts(p@) == resolved,
            None => paths == Err::<Vec<String>, InstanceError>(
                InstanceError::CoordinateParseError,
            ),
        },
{
    resolve_paths(client_info, platform, true)
}

/// An ordinary artifact that entries of a list contribute, however many of
/// them, is collected exactly once.
pub proof fn lemma_nonnative_artifact_collected_once(
    libraries: Seq<LibraryView>,
    platform: PlatformView,
    i: int,
)
    requires
        0 <= i < libraries.len(),
        nonnative_artifact(libraries[i], platform) is Some,
    ensures
        occurs_once(
            nonnative_artifacts(libraries, platform),
            nonnative_artifact(libraries[i], platform)->0,
        ),
{
    let picks = libraries.map_values(|l: LibraryView| nonnative_artifact(l, platform));
    assert(picks[i] == Some(nonnative_artifact(libraries[i], platform)->0));
    lemma_collect_distinct_once(picks, nonnative_artifact(libraries[i], platform)->0);
}

/// A native artifact that entries of a list contribute, however many of them,
/// is collected exactly once.
pub proof fn lemma_native_artifact_collected_once(
    libraries: Seq<LibraryView>,
    platform: PlatformView,
    i: int,
)
    requires
        0 <= i < libraries.len(),
        native_artifact(libraries[i], platform) is Some,
    ensures
        occurs_once(
            native_artifacts(libraries, platform),
            native_artifact(libraries[i], platform)->0,
        ),
{
    let picks = libraries.map_values(|l: LibraryView| native_artifact(l, platform));
    assert(picks[i] == Some(native_artifact(libraries[i], platform)->0));
    lemma_collect_distinct_once(picks, native_artifact(libraries[i], platform)->0);
}

/// Every collected artifact is contributed by an entry that the rules admit.
pub proof fn lemma_collected_artifact_is_admitted(
    libraries: Seq<LibraryView>,
    platform: PlatformView,
    artifact: ArtifactView,
)
    requires
        nonnative_artifacts(libraries, platform).contains(artifact) || native_artifacts(
            libraries,
            platform,
        ).contains(artifact),
    ensures
        exists|i: int|
            0 <= i < libraries.len() && rules_allow((#[trigger] libraries[i]).rules, platform) && (
            nonnative_artifact(libraries[i], platform) == Some(artifact) || native_artifact(
                libraries[i],
                platform,
            ) == Some(artifact)),
{
    let ordinary = libraries.map_values(|l: LibraryView| nonnative_artifact(l, platform));
    let native = libraries.map_values(|l: LibraryView| native_artifact(l, platform));
    lemma_collect_distinct_contains(ordinary, artifact);
    lemma_collect_distinct_contains(native, artifact);
    if ordinary.contains(Some(artifact)) {
        let i = choose|i: int| 0 <= i < ordinary.len() && ordinary[i] == Some(artifact);
        assert(nonnative_artifact(libraries[i], platform) == Some(artifact));
    } else {
        let i = choose|i: int| 0 <= i < native.len() && native[i] == Some(artifact);
        assert(native_artifact(libraries[i], platform) == Some(artifact));
    }
}

/// An entry that the rules do not admit contributes to neither collection,
/// whatever it offers for download: both are what they are without it.
pub proof fn lemma_excluded_entry_contributes_nothing(
    libraries: Seq<LibraryView>,
    platform: PlatformView,
    i: int,
)
    requires
        0 <= i < libraries.len(),
        !rules_allow(libraries[i].rules, platform),
    ensures
        nonnative_artifact(libraries[i], platform) is None,
        native_artifact(libraries[i], platform) is None,
        nonnative_artifacts(libraries.remove(i), platform) == nonnative_artifacts(
            libraries,
            platform,
        ),
        native_artifacts(libraries.remove(i), platform) == native_artifacts(libraries, platform),
{
    let ordinary = libraries.map_values(|l: LibraryView| nonnative_artifact(l, platform));
    let native = libraries.map_values(|l: LibraryView| native_artifact(l, platform));
    assert(ordinary.remove(i) =~= libraries.remove(i).map_values(
        |l: LibraryView| nonnative_artifact(l, platform),
    ));
    assert(native.remove(i) =~= libraries.remove(i).map_values(
        |l: LibraryView| native_artifact(l, platform),
    ));
    lemma_collect_distinct_without_gap(ordinary, i);
    lemma_collect_distinct_without_gap(native, i);
}

/// Whether `library` carries native payloads, counts on `platform`, and names
/// no classifier for its operating system.
pub open spec fn lacks_native_classifier(library: LibraryView, platform: PlatformView) -> bool {
    rules_allow(library.rules, platform) && library.natives is Some && native_classifier(
        library,
        platform,
    ) is None
}

/// The names of the entries that lack a native classifier on `platform`, in
/// the order of the list.
pub open spec fn native_misses(libraries: Seq<LibraryView>, platform: PlatformView) -> Seq<
    Seq<char>,
> {
    collect_some(
        libraries.map_values(
            |l: LibraryView|
                if lacks_native_classifier(l, platform) {
                    Some(l.name)
                } else {
                    None
                },
        ),
    )
}

/// The names of the native libraries that the collections pass over because
/// they name no classifier for the operating system of `platform`. A caller
/// that wants a record of these asks here.
pub fn native_lookup_misses(client_info: &McClientInfo, platform: &PlatformContext) -> (names: Vec<
    String,
>)
    ensures
        texts(names@) == native_misses(client_info@.libraries, platform@),
{
    let ghost picks = client_info@.libraries.map_values(
        |l: LibraryView|
            if lacks_native_classifier(l, platform@) {
                Some(l.name)
            } else {
                None
            },
    );
    let mut names: Vec<String> = Vec::new();
    let mut i: usize = 0;
    assert(picks.take(0) =~= Seq::<Option<Seq<char>>>::empty());
    while i < client_info.libraries.len()
        invariant
            i <= client_info.libraries.len(),
            picks == client_info@.libraries.map_values(
                |l: LibraryView|
                    if lacks_native_classifier(l, platform@) {
                        Some(l.name)
                    } else {
                        None
                    },
            ),
            texts(names@) == collect_some(picks.take(i as int)),
        decreases client_info.libraries.len() - i,
    {
        proof {
            assert(picks.take(i + 1).drop_last() =~= picks.take(i as int));
            assert(picks.take(i + 1).last() == picks[i as int]);
        }
        let library = &client_info.libraries[i];
        if library.is_allowed(platform) && library.natives.is_some() && library.native_classifier(
            platform,
        ).is_none() {
            let ghost before = texts(names@);
            names.push(library.name.clone());
            assert(texts(names@) =~= before.push(library.name@));
        }
        i += 1;
    }
    proof {
        assert(picks.take(i as int) =~= picks);
    }
    names
}

} // verus!
