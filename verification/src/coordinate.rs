//! Package coordinates and the paths they resolve to.
//!
//! A coordinate is `group:artifact:version`, with further colon-separated
//! segments allowed after the version and an optional `@extension` at the end.

use crate::error::InstanceError;
use crate::text::{
    find_last, join_strings, join_with, last_index_of, lemma_last_index_of, optional_text,
    replace_char, replace_char_with, split_on, split_on_char, texts,
};
use vstd::prelude::*;

verus! {

/// The coordinate without its `@extension`: what stands before the last `@`,
/// or all of `name` if it holds no `@`.
pub open spec fn coordinate_body(name: Seq<char>) -> Seq<char> {
    let at = last_index_of(name, '@');
    if at >= 0 {
        name.take(at)
    } else {
        name
    }
}

/// The file extension of a coordinate: what follows the last `@`, or `jar` if
/// `name` holds no `@`.
pub open spec fn coordinate_extension(name: Seq<char>) -> Seq<char> {
    let at = last_index_of(name, '@');
    if at >= 0 {
        name.skip(at + 1)
    } else {
        "jar"@
    }
}

/// The name of the file that a coordinate stands for: every segment after the
/// group, then the native classifier if there is one, joined by `-`, then `.`
/// and the extension.
pub open spec fn coordinate_file_name(
    segments: Seq<Seq<char>>,
    native: Option<Seq<char>>,
    extension: Seq<char>,
) -> Seq<char> {
    let named = match native {
        Some(classifier) => segments.skip(1).push(classifier),
        None => segments.skip(1),
    };
    join_with(named, "-"@) + "."@ + extension
}

/// The relative path that a coordinate resolves to,
/// `group/artifact/version/file`, with the dots of the group turned into
/// slashes; `None` if the coordinate has fewer than three segments.
pub open spec fn resolve_coordinate(name: Seq<char>, native: Option<Seq<char>>) -> Option<
    Seq<char>,
> {
    let segments = split_on(coordinate_body(name), ':');
    if segments.len() < 3 {
        None
    } else {
        Some(
            replace_char(segments[0], '.', "/"@) + "/"@ + segments[1] + "/"@ + segments[2] + "/"@
                + coordinate_file_name(segments, native, coordinate_extension(name)),
        )
    }
}

/// Resolves the coordinate `name`, with the native classifier `native` if one
/// is given, to a path relative to the library root.
pub fn convert_library_name_to_path(name: &String, native: Option<String>) -> (path: Result<
    String,
    InstanceError,
>)
    ensures
        match resolve_coordinate(name@, optional_text(native)) {
            Some(resolved) => path matches Ok(p) && p@ == resolved,
            None => path == Err::<String, InstanceError>(InstanceError::CoordinateParseError),
        },
{
    let whole = name.as_str();
    let n = whole.unicode_len();
    proof {
        lemma_last_index_of(name@, '@');
    }
    let (body, extension) = match find_last(whole, '@') {
        Some(at) => (whole.substring_char(0, at), whole.substring_char(at + 1, n).to_owned()),
        None => (whole, "jar".to_owned()),
    };
    assert(body@ == coordinate_body(name@));
    assert(extension@ == coordinate_extension(name@));
    let mut segments = split_on_char(body, ':');
    if segments.len() < 3 {
        return Err(InstanceError::CoordinateParseError);
    }
    let ghost all = texts(segments@);
    let group = segments.remove(0);
    assert(texts(segments@) =~= all.skip(1));
    let mut path = replace_char_with(group.as_str(), '.', "/");
    path.append("/");
    path.append(segments[0].as_str());
    path.append("/");
    path.append(segments[1].as_str());
    path.append("/");
    match native {
        Some(classifier) => {
            let ghost before = texts(segments@);
            segments.push(classifier);
            assert(texts(segments@) =~= before.push(classifier@));
        },
        None => {},
    }
    let file = join_strings(&segments, "-");
    path.append(file.as_str());
    path.append(".");
    path.append(extension.as_str());
    proof {
        let resolved = resolve_coordinate(name@, optional_text(native))->0;
        assert(path@ =~= resolved);
    }
    Ok(path)
}

/// Resolution is a function of the coordinate and the classifier: the same
/// two always resolve to the same path, or both times to none.
pub proof fn lemma_resolution_is_deterministic(
    name: Seq<char>,
    native: Option<Seq<char>>,
    again: Seq<char>,
    native_again: Option<Seq<char>>,
)
    requires
        name == again,
        native == native_again,
    ensures
        resolve_coordinate(name, native) == resolve_coordinate(again, native_again),
{
}

/// A coordinate resolves if and only if what stands before its extension has
/// three colon-separated segments or more.
pub proof fn lemma_resolves_iff_three_segments(name: Seq<char>, native: Option<Seq<char>>)
    ensures
        resolve_coordinate(name, native) is Some <==> split_on(coordinate_body(name), ':').len()
            >= 3,
{
}

} // verus!
