use resource_sync::{
    aggregate_outcomes, extract_native_libraries, AssetIndexInfo, ExtractionEvent,
    ExtractionStep, InstanceError, LibrariesValue, LibraryDownloads, McClientInfo,
    PlatformContext,
};

fn linux() -> PlatformContext {
    PlatformContext { os: "linux".to_string(), features: Vec::new() }
}

fn native(name: &str) -> LibrariesValue {
    LibrariesValue {
        name: name.to_string(),
        rules: Vec::new(),
        natives: Some(vec![("linux".to_string(), "natives-linux".to_string())]),
        downloads: LibraryDownloads { artifact: None, classifiers: Vec::new() },
    }
}

fn client(libraries: Vec<LibrariesValue>) -> McClientInfo {
    McClientInfo {
        asset_index: AssetIndexInfo { id: "17".to_string(), url: "https://example.com/17.json".to_string() },
        libraries,
    }
}

fn two_natives() -> McClientInfo {
    client(vec![native("org.lwjgl:lwjgl:3.3.1"), native("org.lwjgl:glfw:3.3.1")])
}

fn unpack_two() -> ExtractionStep {
    ExtractionStep::Unpack {
        archives: vec![
            "org/lwjgl/lwjgl/3.3.1/lwjgl-3.3.1-natives-linux.jar".to_string(),
            "org/lwjgl/glfw/3.3.1/glfw-3.3.1-natives-linux.jar".to_string(),
        ],
    }
}

#[test]
fn missing_directory_is_created_first() {
    assert_eq!(
        extract_native_libraries(&two_natives(), &linux(), ExtractionEvent::Started { natives_dir_exists: false }),
        ExtractionStep::CreateDirectory
    );
    let bad = client(vec![native("bad-coordinate")]);
    assert_eq!(
        extract_native_libraries(&bad, &linux(), ExtractionEvent::Started { natives_dir_exists: false }),
        ExtractionStep::CreateDirectory
    );
}

#[test]
fn existing_directory_leads_to_unpacking() {
    assert_eq!(
        extract_native_libraries(&two_natives(), &linux(), ExtractionEvent::Started { natives_dir_exists: true }),
        unpack_two()
    );
    assert_eq!(
        extract_native_libraries(&two_natives(), &linux(), ExtractionEvent::DirectoryCreated { created: true }),
        unpack_two()
    );
}

#[test]
fn directory_that_cannot_be_created_ends_the_pass() {
    assert_eq!(
        extract_native_libraries(&two_natives(), &linux(), ExtractionEvent::DirectoryCreated { created: false }),
        ExtractionStep::Done { result: Err(InstanceError::FolderCreationFailed) }
    );
}

#[test]
fn unresolvable_native_name_ends_the_pass() {
    let bad = client(vec![native("org.lwjgl:lwjgl:3.3.1"), native("bad-coordinate")]);
    assert_eq!(
        extract_native_libraries(&bad, &linux(), ExtractionEvent::Started { natives_dir_exists: true }),
        ExtractionStep::Done { result: Err(InstanceError::CoordinateParseError) }
    );
}

#[test]
fn nothing_to_unpack_is_an_empty_request() {
    assert_eq!(
        extract_native_libraries(&client(Vec::new()), &linux(), ExtractionEvent::Started { natives_dir_exists: true }),
        ExtractionStep::Unpack { archives: Vec::new() }
    );
    assert_eq!(
        extract_native_libraries(&client(Vec::new()), &linux(), ExtractionEvent::Unpacked { outcomes: Vec::new() }),
        ExtractionStep::Done { result: Ok(()) }
    );
}

#[test]
fn all_archives_unpacked_ends_well() {
    assert_eq!(
        extract_native_libraries(&two_natives(), &linux(), ExtractionEvent::Unpacked { outcomes: vec![Ok(()), Ok(())] }),
        ExtractionStep::Done { result: Ok(()) }
    );
}

#[test]
fn corrupt_archive_fails_the_pass_with_its_own_report() {
    for n in [1usize, 2, 7, 64] {
        for k in 0..n {
            let outcomes: Vec<Result<(), String>> = (0..n)
                .map(|i| if i == k { Err(format!("archive {} is corrupt", i)) } else { Ok(()) })
                .collect();
            assert_eq!(
                aggregate_outcomes(&outcomes),
                Err(InstanceError::ExtractionError(format!("archive {} is corrupt", k)))
            );
            assert_eq!(
                extract_native_libraries(&two_natives(), &linux(), ExtractionEvent::Unpacked { outcomes }),
                ExtractionStep::Done {
                    result: Err(InstanceError::ExtractionError(format!("archive {} is corrupt", k)))
                }
            );
        }
    }
}

#[test]
fn first_failure_in_order_is_reported() {
    let outcomes = vec![Ok(()), Err("second".to_string()), Ok(()), Err("fourth".to_string())];
    assert_eq!(aggregate_outcomes(&outcomes), Err(InstanceError::ExtractionError("second".to_string())));
    let all = vec![Err("a".to_string()), Err("b".to_string())];
    assert_eq!(aggregate_outcomes(&all), Err(InstanceError::ExtractionError("a".to_string())));
}

#[test]
fn many_outcomes_are_summed_up() {
    let mut outcomes: Vec<Result<(), String>> = (0..100_000).map(|_| Ok(())).collect();
    assert_eq!(aggregate_outcomes(&outcomes), Ok(()));
    outcomes[99_999] = Err("last".to_string());
    assert_eq!(aggregate_outcomes(&outcomes), Err(InstanceError::ExtractionError("last".to_string())));
}
