use resource_sync::text::{find_last, join_strings, replace_char_with, split_on_char};
use resource_sync::{convert_library_name_to_path, InstanceError};

fn resolve(name: &str, native: Option<&str>) -> Result<String, InstanceError> {
    convert_library_name_to_path(&name.to_string(), native.map(|n| n.to_string()))
}

#[test]
fn resolves_plain_coordinate() {
    assert_eq!(
        resolve("com.example:foo:1.0", None),
        Ok("com/example/foo/1.0/foo-1.0.jar".to_string())
    );
}

#[test]
fn resolves_coordinate_with_extension() {
    assert_eq!(
        resolve("com.example:foo:1.0@zip", None),
        Ok("com/example/foo/1.0/foo-1.0.zip".to_string())
    );
}

#[test]
fn resolves_coordinate_with_native_classifier() {
    assert_eq!(
        resolve("com.example:foo:1.0", Some("natives-linux")),
        Ok("com/example/foo/1.0/foo-1.0-natives-linux.jar".to_string())
    );
}

#[test]
fn resolves_coordinate_with_extension_and_native_classifier() {
    assert_eq!(
        resolve("org.lwjgl:lwjgl:3.3.1@zip", Some("natives-windows")),
        Ok("org/lwjgl/lwjgl/3.3.1/lwjgl-3.3.1-natives-windows.zip".to_string())
    );
}

#[test]
fn resolution_is_deterministic() {
    let first = resolve("com.example:foo:1.0", Some("natives-osx"));
    let second = resolve("com.example:foo:1.0", Some("natives-osx"));
    assert_eq!(first, second);
}

#[test]
fn rejects_coordinate_without_colons() {
    assert_eq!(resolve("bad-coordinate", None), Err(InstanceError::CoordinateParseError));
}

#[test]
fn rejects_coordinate_with_two_segments() {
    assert_eq!(resolve("com.example:foo", None), Err(InstanceError::CoordinateParseError));
    assert_eq!(
        resolve("com.example:foo", Some("natives-linux")),
        Err(InstanceError::CoordinateParseError)
    );
}

#[test]
fn rejects_empty_coordinate() {
    assert_eq!(resolve("", None), Err(InstanceError::CoordinateParseError));
}

#[test]
fn rejects_coordinate_whose_body_is_short_before_the_extension() {
    assert_eq!(resolve("a:b@c:d", None), Err(InstanceError::CoordinateParseError));
}

#[test]
fn keeps_every_segment_after_the_group_in_the_file_name() {
    assert_eq!(
        resolve("net.java.dev:jna:5.12.1:sources", None),
        Ok("net/java/dev/jna/5.12.1/jna-5.12.1-sources.jar".to_string())
    );
    assert_eq!(
        resolve("g:a:1:x:y", Some("n")),
        Ok("g/a/1/a-1-x-y-n.jar".to_string())
    );
}

#[test]
fn takes_the_extension_after_the_last_at_sign() {
    assert_eq!(resolve("g:a:1@x@zip", None), Ok("g/a/1@x/a-1@x.zip".to_string()));
}

#[test]
fn accepts_an_empty_extension_and_empty_segments() {
    assert_eq!(resolve("g:a:1@", None), Ok("g/a/1/a-1.".to_string()));
    assert_eq!(resolve("::", None), Ok("///-.jar".to_string()));
}

#[test]
fn group_without_dots_is_one_directory() {
    assert_eq!(resolve("junit:junit:4.13", None), Ok("junit/junit/4.13/junit-4.13.jar".to_string()));
}

#[test]
fn splits_at_every_separator() {
    assert_eq!(split_on_char("a:b:c", ':'), vec!["a".to_string(), "b".to_string(), "c".to_string()]);
    assert_eq!(split_on_char("", ':'), vec!["".to_string()]);
    assert_eq!(split_on_char(":", ':'), vec!["".to_string(), "".to_string()]);
    assert_eq!(split_on_char("a::b:", ':'), vec!["a".to_string(), "".to_string(), "b".to_string(), "".to_string()]);
    assert_eq!(split_on_char("no separator", ':'), vec!["no separator".to_string()]);
    assert_eq!(split_on_char("é:ü", ':'), vec!["é".to_string(), "ü".to_string()]);
}

#[test]
fn joins_with_separator_between_neighbours() {
    let parts = vec!["a".to_string(), "b".to_string(), "c".to_string()];
    assert_eq!(join_strings(&parts, "-"), "a-b-c");
    assert_eq!(join_strings(&Vec::new(), "-"), "");
    assert_eq!(join_strings(&vec!["only".to_string()], "-"), "only");
    assert_eq!(join_strings(&vec!["".to_string(), "".to_string()], "--"), "--");
}

#[test]
fn join_undoes_split() {
    for text in ["", "a", ":", "a:b", "::a::", "com.example:foo:1.0"] {
        let pieces = split_on_char(text, ':');
        assert_eq!(join_strings(&pieces, ":"), text);
        assert!(pieces.iter().all(|p| !p.contains(':')));
    }
}

#[test]
fn replaces_every_occurrence() {
    assert_eq!(replace_char_with("com.example.sub", '.', "/"), "com/example/sub");
    assert_eq!(replace_char_with("", '.', "/"), "");
    assert_eq!(replace_char_with("...", '.', "ab"), "ababab");
    assert_eq!(replace_char_with("plain", '.', "/"), "plain");
}

#[test]
fn finds_the_last_occurrence() {
    assert_eq!(find_last("a@b@c", '@'), Some(3));
    assert_eq!(find_last("@", '@'), Some(0));
    assert_eq!(find_last("abc", '@'), None);
    assert_eq!(find_last("", '@'), None);
    assert_eq!(find_last("é@", '@'), Some(1));
}
