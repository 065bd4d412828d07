//! The manifest: an asset index and the library entries of a client descriptor.

use crate::rules::{rule_views, InstructionRule, RuleView};
use vstd::prelude::*;

verus! {

/// One object of an asset index: the digest of its content and its size in bytes.
#[derive(Debug, PartialEq, Eq)]
pub struct AssetIndexItem {
    pub hash: String,
    pub size: i64,
}

/// An asset index: logical asset names with the objects they stand for, in the
/// order in which a pass walks them. Several names may stand for one object.
#[derive(Debug, PartialEq, Eq)]
pub struct AssetIndex {
    pub objects: Vec<(String, AssetIndexItem)>,
}

/// A downloadable file of a library: its path below the library root and the
/// digest of its content. Two artifacts are the same if both agree.
#[derive(Debug, PartialEq, Eq, Hash)]
pub struct DownloadsArtifact {
    pub path: String,
    pub sha1: String,
}

/// What a library entry offers for download.
#[derive(Debug, PartialEq, Eq)]
pub struct LibraryDownloads {
    /// The artifact of the entry itself.
    pub artifact: Option<DownloadsArtifact>,
    /// Artifacts by classifier. Where a classifier occurs twice the later entry counts.
    pub classifiers: Vec<(String, DownloadsArtifact)>,
}

/// A library entry of a client descriptor.
#[derive(Debug, PartialEq, Eq)]
pub struct LibrariesValue {
    /// The package coordinate, `group:artifact:version`.
    pub name: String,
    /// The platforms the entry applies to.
    pub rules: Vec<InstructionRule>,
    /// Native classifiers by operating system, where the entry carries native
    /// payloads. Where a system occurs twice the later entry counts.
    pub natives: Option<Vec<(String, String)>>,
    pub downloads: LibraryDownloads,
}

/// Where the asset index of a client is published, and under which identifier.
#[derive(Debug, PartialEq, Eq)]
pub struct AssetIndexInfo {
    pub id: String,
    pub url: String,
}

/// A client descriptor, as far as synchronization reads it.
#[derive(Debug, PartialEq, Eq)]
pub struct McClientInfo {
    pub asset_index: AssetIndexInfo,
    pub libraries: Vec<LibrariesValue>,
}

/// What an `AssetIndexItem` stands for.
pub struct AssetItemView {
    pub hash: Seq<char>,
    pub size: int,
}

/// What a `DownloadsArtifact` stands for.
pub struct ArtifactView {
    pub path: Seq<char>,
    pub sha1: Seq<char>,
}

/// What a `LibrariesValue` stands for: its mappings as maps, its artifacts
/// and rules as what they stand for.
pub struct LibraryView {
    pub name: Seq<char>,
    pub rules: Seq<RuleView>,
    pub natives: Option<Map<Seq<char>, Seq<char>>>,
    pub artifact: Option<ArtifactView>,
    pub classifiers: Map<Seq<char>, ArtifactView>,
}

/// What a `McClientInfo` stands for.
pub struct ClientView {
    pub asset_index_id: Seq<char>,
    pub asset_index_url: Seq<char>,
    pub libraries: Seq<LibraryView>,
}

/// The mapping that a list of keyed entries stands for: each key is bound to
/// the value of the last entry that carries it.
pub open spec fn entries_map<V>(entries: Seq<(String, V)>) -> Map<Seq<char>, V>
    decreases entries.len(),
{
    if entries.len() == 0 {
        Map::empty()
    } else {
        entries_map(entries.drop_last()).insert(entries.last().0@, entries.last().1)
    }
}

impl View for AssetIndexItem {
    type V = AssetItemView;

    open spec fn view(&self) -> AssetItemView {
        AssetItemView { hash: self.hash@, size: self.size as int }
    }
}

impl View for AssetIndex {
    type V = Seq<(Seq<char>, AssetItemView)>;

    open spec fn view(&self) -> Seq<(Seq<char>, AssetItemView)> {
        self.objects@.map_values(|e: (String, AssetIndexItem)| (e.0@, e.1@))
    }
}

impl View for DownloadsArtifact {
    type V = ArtifactView;

    open spec fn view(&self) -> ArtifactView {
        ArtifactView { path: self.path@, sha1: self.sha1@ }
    }
}

impl View for LibrariesValue {
    type V = LibraryView;

    open spec fn view(&self) -> LibraryView {
        LibraryView {
            name: self.name@,
            rules: rule_views(self.rules@),
            natives: match self.natives {
                Some(entries) => Some(entries_map(entries@).map_values(|c: String| c@)),
                None => None,
            },
            artifact: match self.downloads.artifact {
                Some(a) => Some(a@),
                None => None,
            },
            classifiers: entries_map(self.downloads.classifiers@).map_values(
                |a: DownloadsArtifact| a@,
            ),
        }
    }
}

impl View for McClientInfo {
    type V = ClientView;

    open spec fn view(&self) -> ClientView {
        ClientView {
            asset_index_id: self.asset_index.id@,
            asset_index_url: self.asset_index.url@,
            libraries: library_views(self.libraries@),
        }
    }
}

/// The library entries that a vector of entries stands for.
pub open spec fn library_views(libraries: Seq<LibrariesValue>) -> Seq<LibraryView> {
    libraries.map_values(|l: LibrariesValue| l@)
}

/// The artifacts that a vector of artifacts stands for.
pub open spec fn artifact_views(artifacts: Seq<DownloadsArtifact>) -> Seq<ArtifactView> {
    artifacts.map_values(|a: DownloadsArtifact| a@)
}

impl Clone for DownloadsArtifact {
    fn clone(&self) -> (copy: Self)
        ensures
            copy == *self,
    {
        DownloadsArtifact { path: self.path.clone(), sha1: self.sha1.clone() }
    }
}

impl DownloadsArtifact {
    /// Whether `self` and `other` are the same artifact: same path, same digest.
    pub fn same_as(&self, other: &DownloadsArtifact) -> (same: bool)
        ensures
            same == (self@ == other@),
    {
        self.path == other.path && self.sha1 == other.sha1
    }
}

/// Looks `key` up among keyed entries.
pub fn lookup<'a, V>(entries: &'a Vec<(String, V)>, key: &String) -> (found: Option<&'a V>)
    ensures
        match found {
            Some(v) => entries_map(entries@).contains_key(key@) && entries_map(entries@)[key@]
                == *v,
            None => !entries_map(entries@).contains_key(key@),
        },
{
    let mut found: Option<&'a V> = None;
    let mut i: usize = 0;
    assert(entries@.take(0) =~= Seq::<(String, V)>::empty());
    while i < entries.len()
        invariant
            i <= entries.len(),
            match found {
                Some(v) => entries_map(entries@.take(i as int)).contains_key(key@) && entries_map(
                    entries@.take(i as int),
                )[key@] == *v,
                None => !entries_map(entries@.take(i as int)).contains_key(key@),
            },
        decreases entries.len() - i,
    {
        proof {
            let next = entries@.take(i + 1);
            assert(next.drop_last() =~= entries@.take(i as int));
            assert(next.last() == entries@[i as int]);
        }
        if entries[i].0 == *key {
            found = Some(&entries[i].1);
        }
        i += 1;
    }
    assert(entries@.take(entries.len() as int) =~= entries@);
    found
}

/// The folder that keeps raw indexes, relative to the game directory.
pub open spec fn index_folder() -> Seq<char> {
    "assets/indexes"@
}

/// Where the raw index with identifier `id` is kept, relative to the game
/// directory: `assets/indexes/<id>.json`.
pub open spec fn index_path(id: Seq<char>) -> Seq<char> {
    index_folder() + "/"@ + id + ".json"@
}

impl AssetIndexInfo {
    /// Where the raw index is kept, relative to the game directory.
    pub fn cache_path(&self) -> (path: String)
        ensures
            path@ == index_path(self.id@),
    {
        let mut path = "assets/indexes".to_owned();
        path.append("/");
        path.append(self.id.as_str());
        path.append(".json");
        path
    }
}

impl Default for AssetIndexItem {
    /// An object with an empty digest and no bytes.
    fn default() -> (item: Self)
        ensures
            item@ == (AssetItemView { hash: Seq::empty(), size: 0 }),
    {
        AssetIndexItem { hash: String::new(), size: 0 }
    }
}

impl Default for AssetIndex {
    /// An index without objects.
    fn default() -> (index: Self)
        ensures
            index@ == Seq::<(Seq<char>, AssetItemView)>::empty(),
    {
        let index = AssetIndex { objects: Vec::new() };
        assert(index@ =~= Seq::<(Seq<char>, AssetItemView)>::empty());
        index
    }
}

impl Clone for AssetIndexItem {
    fn clone(&self) -> (copy: Self)
        ensures
            copy == *self,
    {
        AssetIndexItem { hash: self.hash.clone(), size: self.size }
    }
}

impl Clone for AssetIndex {
    fn clone(&self) -> (copy: Self)
        ensures
            copy@ == self@,
    {
        let mut objects: Vec<(String, AssetIndexItem)> = Vec::new();
        let mut i: usize = 0;
        while i < self.objects.len()
            invariant
                i <= self.objects.len(),
                objects@ == self.objects@.take(i as int),
            decreases self.objects.len() - i,
        {
            objects.push((self.objects[i].0.clone(), self.objects[i].1.clone()));
            assert(objects@ =~= self.objects@.take(i + 1));
            i += 1;
        }
        assert(objects@ =~= self.objects@);
        AssetIndex { objects }
    }
}

} // verus!
