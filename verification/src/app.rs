//! The application: its name and the files it plays.

use crate::paths;
use crate::text;
use vstd::prelude::*;

verus! {

pub const APP_NAME: &'static str = "ECHO CLI";

pub const APP_VERSION: &'static str = "0.1.0";

pub const SUPPORTED_EXTENSIONS: [&'static str; 5] = ["mp3", "flac", "wav", "mp4", "m4a"];

/// The extension is one of the supported ones, in upper or lower case.
pub open spec fn supported_spec(extension: Option<Seq<char>>) -> bool {
    match extension {
        Some(extension) => text::literals(SUPPORTED_EXTENSIONS@).contains(
            text::ascii_lower_spec(extension),
        ),
        None => false,
    }
}

pub fn is_supported_extension(extension: Option<&str>) -> (r: bool)
    ensures
        r == supported_spec(
            match extension {
                Some(extension) => Some(extension@),
                None => None,
            },
        ),
{
    match extension {
        Some(extension) => {
            let lowered = text::ascii_lower(extension);
            text::is_one_of(&lowered, &SUPPORTED_EXTENSIONS)
        },
        None => false,
    }
}

/// Whether the path names a file that can be played.
///
/// Where the file name behind a backslash has only a leading dot, it depends on the platform whether
/// what follows is an extension; so it does for paths that do not end in a file name.
pub fn is_supported_audio_path(path: &str) -> (r: bool)
    ensures
        paths::plain_path(path@) ==> r == supported_spec(
            paths::extension_spec(paths::tail_spec(path@)),
        ),
        paths::names_a_file(path@) && (paths::has_extension(paths::name_spec(path@))
            || paths::has_no_dot(paths::name_spec(path@))) ==> r == supported_spec(
            paths::extension_spec(paths::name_spec(path@)),
        ),
        paths::names_a_file(path@) ==> r == supported_spec(
            paths::extension_spec(paths::name_spec(path@)),
        ) || r == supported_spec(paths::extension_spec(paths::tail_spec(path@))),
        r ==> exists|extension: Seq<char>|
            supported_spec(Some(extension)) && #[trigger] text::contains_spec(
                path@,
                "."@ + extension,
            ),
{
    match paths::path_extension(path) {
        Some(extension) => {
            proof {
                if extension@.contains('\\') {
                    lemma_no_backslash_in_extensions(extension@);
                }
            }
            is_supported_extension(Some(extension.as_str()))
        },
        None => false,
    }
}

proof fn lemma_no_backslash_in_extensions(extension: Seq<char>)
    requires
        extension.contains('\\'),
    ensures
        !supported_spec(Some(extension)),
{
    reveal_strlit("mp3");
    reveal_strlit("flac");
    reveal_strlit("wav");
    reveal_strlit("mp4");
    reveal_strlit("m4a");
    let lowered = text::ascii_lower_spec(extension);
    let at = choose|at: int| 0 <= at < extension.len() && extension[at] == '\\';
    assert(lowered[at] == '\\');
    let words = text::literals(SUPPORTED_EXTENSIONS@);
    assert forall|i: int| 0 <= i < words.len() implies words[i] != lowered by {
        assert(words[i] == SUPPORTED_EXTENSIONS@[i]@);
        assert(forall|k: int| 0 <= k < words[i].len() ==> words[i][k] != '\\');
    }
}

pub open spec fn title_spec(name: Option<Seq<char>>) -> Seq<char> {
    match name {
        Some(name) => if text::trim_spec(name).len() > 0 {
            text::trim_spec(name)
        } else {
            "Untitled"@
        },
        None => "Untitled"@,
    }
}

/// The title of a file without one of its own, from its name.
pub fn title_from_name(name: Option<&str>) -> (r: String)
    ensures
        r@ == title_spec(
            match name {
                Some(name) => Some(name@),
                None => None,
            },
        ),
{
    match name {
        Some(name) => {
            let trimmed = text::trim(name);
            if trimmed.is_empty() {
                "Untitled".to_owned()
            } else {
                trimmed.to_owned()
            }
        },
        None => "Untitled".to_owned(),
    }
}

/// The title of a file without one of its own, from its path.
///
/// Where the path holds backslashes, it depends on the platform whether the name begins behind
/// them; where it does not end in a file name, what the name is.
pub fn fallback_title_from_path(path: &str) -> (r: String)
    ensures
        paths::plain_path(path@) ==> r@ == title_spec(
            Some(paths::stem_spec(paths::tail_spec(path@))),
        ),
        paths::names_a_file(path@) ==> r@ == title_spec(
            Some(paths::stem_spec(paths::name_spec(path@))),
        ) || r@ == title_spec(Some(paths::stem_spec(paths::tail_spec(path@)))),
        r@ == "Untitled"@ || exists|name: Seq<char>| #[trigger]
            text::contains_spec(path@, name) && r@ == title_spec(Some(name)),
        r@.len() > 0,
        text::trim_spec(r@) == r@,
{
    proof {
        titles_are_never_blank(None);
        assert forall|name: Seq<char>| title_spec(Some(name)).len() > 0 && #[trigger]
            text::trim_spec(title_spec(Some(name))) == title_spec(Some(name)) by {
            titles_are_never_blank(Some(name));
        }
    }
    match paths::path_file_stem(path) {
        Some(name) => title_from_name(Some(name.as_str())),
        None => title_from_name(None),
    }
}

/// A title is never blank, and has no white space around it.
pub proof fn titles_are_never_blank(name: Option<Seq<char>>)
    ensures
        title_spec(name).len() > 0,
        text::trim_spec(title_spec(name)) == title_spec(name),
{
    reveal_strlit("Untitled");
    match name {
        Some(name) => {
            text::trimming_twice_is_trimming(name);
        },
        None => {},
    }
    assert(text::trim_spec("Untitled"@) == "Untitled"@);
}

/// Five kinds of files are played, whatever the case of their extension, and no others.
pub proof fn five_kinds_are_played(extension: Seq<char>)
    ensures
        supported_spec(Some(extension)) <==> {
            let lowered = text::ascii_lower_spec(extension);
            lowered == "mp3"@ || lowered == "flac"@ || lowered == "wav"@ || lowered == "mp4"@
                || lowered == "m4a"@
        },
        !supported_spec(None),
{
    let words = text::literals(SUPPORTED_EXTENSIONS@);
    assert(words[0] == "mp3"@ && words[1] == "flac"@ && words[2] == "wav"@ && words[3] == "mp4"@
        && words[4] == "m4a"@);
}

/// A title is the name without the white space around it, where anything is left of it.
pub proof fn titles_are_trimmed_names(name: Seq<char>)
    ensures
        text::trim_spec(name).len() > 0 ==> title_spec(Some(name)) == text::trim_spec(name),
        text::trim_spec(name).len() == 0 ==> title_spec(Some(name)) == "Untitled"@,
        title_spec(None) == "Untitled"@,
{
}

} // verus!
