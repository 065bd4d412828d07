use resource_sync::{
    get_native_library_artifacts, get_native_library_paths, get_nonnative_library_artifacts,
    get_nonnative_library_paths, native_lookup_misses, AssetIndexInfo, DownloadsArtifact,
    InstanceError, InstructionRule, LibrariesValue, LibraryDownloads, McClientInfo,
    PlatformContext, RuleAction, RuleCondition,
};

fn linux() -> PlatformContext {
    PlatformContext { os: "linux".to_string(), features: Vec::new() }
}

fn artifact(path: &str, sha1: &str) -> DownloadsArtifact {
    DownloadsArtifact { path: path.to_string(), sha1: sha1.to_string() }
}

fn client(libraries: Vec<LibrariesValue>) -> McClientInfo {
    McClientInfo {
        asset_index: AssetIndexInfo { id: "17".to_string(), url: "https://example.com/17.json".to_string() },
        libraries,
    }
}

fn ordinary(name: &str, primary: Option<DownloadsArtifact>) -> LibrariesValue {
    LibrariesValue {
        name: name.to_string(),
        rules: Vec::new(),
        natives: None,
        downloads: LibraryDownloads { artifact: primary, classifiers: Vec::new() },
    }
}

fn native(name: &str, natives: &[(&str, &str)], classifiers: Vec<(&str, DownloadsArtifact)>) -> LibrariesValue {
    LibrariesValue {
        name: name.to_string(),
        rules: Vec::new(),
        natives: Some(natives.iter().map(|(k, v)| (k.to_string(), v.to_string())).collect()),
        downloads: LibraryDownloads {
            artifact: None,
            classifiers: classifiers.into_iter().map(|(k, a)| (k.to_string(), a)).collect(),
        },
    }
}

fn only_on(mut library: LibrariesValue, os: &str) -> LibrariesValue {
    library.rules = vec![
        InstructionRule { action: RuleAction::Disallow, condition: RuleCondition::Always },
        InstructionRule { action: RuleAction::Allow, condition: RuleCondition::Os(os.to_string()) },
    ];
    library
}

#[test]
fn collects_primary_artifacts_of_ordinary_libraries() {
    let info = client(vec![
        ordinary("g:a:1", Some(artifact("g/a/1/a-1.jar", "aa"))),
        ordinary("g:b:1", None),
        ordinary("g:c:1", Some(artifact("g/c/1/c-1.jar", "cc"))),
    ]);
    assert_eq!(
        get_nonnative_library_artifacts(&info, &linux()),
        vec![artifact("g/a/1/a-1.jar", "aa"), artifact("g/c/1/c-1.jar", "cc")]
    );
    assert_eq!(get_native_library_artifacts(&info, &linux()), Vec::new());
}

#[test]
fn artifact_shared_by_several_entries_is_collected_once() {
    let info = client(vec![
        ordinary("g:a:1", Some(artifact("g/a/1/a-1.jar", "aa"))),
        ordinary("g:b:1", Some(artifact("g/b/1/b-1.jar", "bb"))),
        ordinary("g:a:1", Some(artifact("g/a/1/a-1.jar", "aa"))),
        ordinary("other:a:1", Some(artifact("g/a/1/a-1.jar", "aa"))),
    ]);
    assert_eq!(
        get_nonnative_library_artifacts(&info, &linux()),
        vec![artifact("g/a/1/a-1.jar", "aa"), artifact("g/b/1/b-1.jar", "bb")]
    );
}

#[test]
fn same_path_with_different_digests_is_kept_twice() {
    let info = client(vec![
        ordinary("g:a:1", Some(artifact("g/a/1/a-1.jar", "aa"))),
        ordinary("g:a:1", Some(artifact("g/a/1/a-1.jar", "ab"))),
        ordinary("g:a:1", Some(artifact("g/a/2/a-1.jar", "aa"))),
    ]);
    assert_eq!(
        get_nonnative_library_artifacts(&info, &linux()),
        vec![
            artifact("g/a/1/a-1.jar", "aa"),
            artifact("g/a/1/a-1.jar", "ab"),
            artifact("g/a/2/a-1.jar", "aa"),
        ]
    );
}

#[test]
fn collects_the_classifier_artifact_of_the_platform() {
    let info = client(vec![native(
        "org.lwjgl:lwjgl:3",
        &[("linux", "natives-linux"), ("osx", "natives-macos")],
        vec![
            ("natives-macos", artifact("lwjgl-macos.jar", "01")),
            ("natives-linux", artifact("lwjgl-linux.jar", "02")),
        ],
    )]);
    assert_eq!(get_native_library_artifacts(&info, &linux()), vec![artifact("lwjgl-linux.jar", "02")]);
    let osx = PlatformContext { os: "osx".to_string(), features: Vec::new() };
    assert_eq!(get_native_library_artifacts(&info, &osx), vec![artifact("lwjgl-macos.jar", "01")]);
    assert_eq!(get_nonnative_library_artifacts(&info, &linux()), Vec::new());
}

#[test]
fn native_artifact_shared_by_several_entries_is_collected_once() {
    let entry = || {
        native("org.lwjgl:lwjgl:3", &[("linux", "natives-linux")], vec![("natives-linux", artifact("lwjgl-linux.jar", "02"))])
    };
    let info = client(vec![entry(), entry(), entry()]);
    assert_eq!(get_native_library_artifacts(&info, &linux()), vec![artifact("lwjgl-linux.jar", "02")]);
}

#[test]
fn native_entry_without_classifier_for_the_platform_is_skipped() {
    let info = client(vec![
        native("g:only-windows:1", &[("windows", "natives-windows")], vec![("natives-windows", artifact("w.jar", "0a"))]),
        native("g:no-download:1", &[("linux", "natives-linux")], Vec::new()),
        native("g:good:1", &[("linux", "natives-linux")], vec![("natives-linux", artifact("l.jar", "0b"))]),
    ]);
    assert_eq!(get_native_library_artifacts(&info, &linux()), vec![artifact("l.jar", "0b")]);
    assert_eq!(native_lookup_misses(&info, &linux()), vec!["g:only-windows:1".to_string()]);
}

#[test]
fn native_entry_with_primary_artifact_gives_nothing_to_the_ordinary_collection() {
    let mut library = native("g:n:1", &[("linux", "natives-linux")], vec![("natives-linux", artifact("n-linux.jar", "0c"))]);
    library.downloads.artifact = Some(artifact("n.jar", "0d"));
    let info = client(vec![library]);
    assert_eq!(get_nonnative_library_artifacts(&info, &linux()), Vec::new());
    assert_eq!(get_native_library_artifacts(&info, &linux()), vec![artifact("n-linux.jar", "0c")]);
}

#[test]
fn later_entry_of_a_mapping_counts() {
    let info = client(vec![native(
        "g:n:1",
        &[("linux", "old"), ("linux", "new")],
        vec![("new", artifact("first.jar", "01")), ("old", artifact("old.jar", "02")), ("new", artifact("second.jar", "03"))],
    )]);
    assert_eq!(get_native_library_artifacts(&info, &linux()), vec![artifact("second.jar", "03")]);
}

#[test]
fn excluded_entry_contributes_to_neither_collection() {
    let mut both = native("g:n:1", &[("linux", "natives-linux")], vec![("natives-linux", artifact("n-linux.jar", "0c"))]);
    both.downloads.artifact = Some(artifact("n.jar", "0d"));
    let excluded_native = only_on(both, "windows");
    let excluded_ordinary = only_on(ordinary("g:o:1", Some(artifact("o.jar", "0e"))), "windows");
    let kept = ordinary("g:k:1", Some(artifact("k.jar", "0f")));
    let with = client(vec![excluded_native, kept, excluded_ordinary]);
    let without = client(vec![ordinary("g:k:1", Some(artifact("k.jar", "0f")))]);
    assert_eq!(get_nonnative_library_artifacts(&with, &linux()), vec![artifact("k.jar", "0f")]);
    assert_eq!(get_native_library_artifacts(&with, &linux()), Vec::new());
    assert_eq!(
        get_nonnative_library_artifacts(&with, &linux()),
        get_nonnative_library_artifacts(&without, &linux())
    );
    assert_eq!(
        get_native_library_artifacts(&with, &linux()),
        get_native_library_artifacts(&without, &linux())
    );
    assert_eq!(native_lookup_misses(&with, &linux()), Vec::<String>::new());
    assert_eq!(get_nonnative_library_paths(&with, &linux()), Ok(vec!["g/k/1/k-1.jar".to_string()]));
    assert_eq!(get_native_library_paths(&with, &linux()), Ok(Vec::new()));
}

#[test]
fn entry_allowed_on_the_platform_is_collected() {
    let info = client(vec![only_on(ordinary("g:o:1", Some(artifact("o.jar", "0e"))), "linux")]);
    assert_eq!(get_nonnative_library_artifacts(&info, &linux()), vec![artifact("o.jar", "0e")]);
    assert!(info.libraries[0].is_allowed(&linux()));
}

#[test]
fn ordinary_paths_are_resolved_in_order_and_not_deduplicated() {
    let info = client(vec![
        ordinary("com.example:foo:1.0", None),
        native("org.lwjgl:lwjgl:3", &[("linux", "natives-linux")], Vec::new()),
        ordinary("com.example:bar:2.0@zip", None),
        ordinary("com.example:foo:1.0", None),
    ]);
    assert_eq!(
        get_nonnative_library_paths(&info, &linux()),
        Ok(vec![
            "com/example/foo/1.0/foo-1.0.jar".to_string(),
            "com/example/bar/2.0/bar-2.0.zip".to_string(),
            "com/example/foo/1.0/foo-1.0.jar".to_string(),
        ])
    );
}

#[test]
fn native_paths_carry_the_classifier() {
    let info = client(vec![
        ordinary("com.example:foo:1.0", None),
        native("org.lwjgl:lwjgl:3.3.1", &[("linux", "natives-linux")], Vec::new()),
        native("org.lwjgl:glfw:3.3.1", &[("windows", "natives-windows")], Vec::new()),
    ]);
    assert_eq!(
        get_native_library_paths(&info, &linux()),
        Ok(vec!["org/lwjgl/lwjgl/3.3.1/lwjgl-3.3.1-natives-linux.jar".to_string()])
    );
}

#[test]
fn paths_fail_on_a_name_that_does_not_resolve() {
    let info = client(vec![ordinary("com.example:foo:1.0", None), ordinary("bad-coordinate", None)]);
    assert_eq!(get_nonnative_library_paths(&info, &linux()), Err(InstanceError::CoordinateParseError));
    assert_eq!(get_native_library_paths(&info, &linux()), Ok(Vec::new()));

    let natives = client(vec![native("bad", &[("linux", "natives-linux")], Vec::new())]);
    assert_eq!(get_native_library_paths(&natives, &linux()), Err(InstanceError::CoordinateParseError));
    assert_eq!(get_nonnative_library_paths(&natives, &linux()), Ok(Vec::new()));
}

#[test]
fn excluded_entry_with_a_bad_name_does_not_fail_the_paths() {
    let info = client(vec![only_on(ordinary("bad-coordinate", None), "windows")]);
    assert_eq!(get_nonnative_library_paths(&info, &linux()), Ok(Vec::new()));
}

#[test]
fn empty_descriptor_gives_empty_collections() {
    let info = client(Vec::new());
    assert_eq!(get_nonnative_library_artifacts(&info, &linux()), Vec::new());
    assert_eq!(get_native_library_artifacts(&info, &linux()), Vec::new());
    assert_eq!(get_nonnative_library_paths(&info, &linux()), Ok(Vec::new()));
    assert_eq!(get_native_library_paths(&info, &linux()), Ok(Vec::new()));
}
