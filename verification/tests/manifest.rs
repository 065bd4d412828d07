use resource_sync::manifest::lookup;
use resource_sync::{AssetIndex, AssetIndexInfo, AssetIndexItem, DownloadsArtifact, InstanceError};

#[test]
fn default_index_is_empty() {
    assert_eq!(AssetIndex::default(), AssetIndex { objects: Vec::new() });
    assert_eq!(AssetIndexItem::default(), AssetIndexItem { hash: String::new(), size: 0 });
}

#[test]
fn index_cache_path_is_keyed_by_identifier() {
    let info = AssetIndexInfo { id: "17".to_string(), url: "https://example.com/17.json".to_string() };
    assert_eq!(info.cache_path(), "assets/indexes/17.json");
    let empty = AssetIndexInfo { id: String::new(), url: String::new() };
    assert_eq!(empty.cache_path(), "assets/indexes/.json");
}

#[test]
fn artifacts_are_the_same_by_path_and_digest() {
    let a = DownloadsArtifact { path: "p".to_string(), sha1: "h".to_string() };
    assert!(a.same_as(&a.clone()));
    assert!(!a.same_as(&DownloadsArtifact { path: "p".to_string(), sha1: "other".to_string() }));
    assert!(!a.same_as(&DownloadsArtifact { path: "other".to_string(), sha1: "h".to_string() }));
    assert_eq!(a.clone(), a);
}

#[test]
fn lookup_finds_the_last_entry_with_the_key() {
    let entries = vec![
        ("a".to_string(), 1),
        ("b".to_string(), 2),
        ("a".to_string(), 3),
    ];
    assert_eq!(lookup(&entries, &"a".to_string()), Some(&3));
    assert_eq!(lookup(&entries, &"b".to_string()), Some(&2));
    assert_eq!(lookup(&entries, &"c".to_string()), None);
    assert_eq!(lookup(&Vec::<(String, i32)>::new(), &"a".to_string()), None);
}

#[test]
fn errors_copy_with_their_report() {
    let e = InstanceError::ExtractionError("bad archive".to_string());
    assert_eq!(e.clone(), e);
    assert_eq!(InstanceError::NetworkError.clone(), InstanceError::NetworkError);
    assert_ne!(InstanceError::FolderCreationFailed, InstanceError::FileCreationFailed);
}

#[test]
fn index_copies_entry_by_entry() {
    let index = AssetIndex {
        objects: vec![
            ("a".to_string(), AssetIndexItem { hash: "01".to_string(), size: 3 }),
            ("b".to_string(), AssetIndexItem { hash: "02".to_string(), size: -1 }),
        ],
    };
    assert_eq!(index.clone(), index);
    assert_eq!(AssetIndex::default().clone(), AssetIndex::default());
}
