//! File paths, held as text.

use crate::text;
use vstd::prelude::*;

verus! {

/// The number of characters behind the last slash.
pub open spec fn tail_len(path: Seq<char>) -> nat
    decreases path.len(),
{
    if path.len() > 0 && path.last() != '/' {
        tail_len(path.drop_last()) + 1
    } else {
        0
    }
}

/// What stands behind the last slash.
pub open spec fn tail_spec(path: Seq<char>) -> Seq<char> {
    path.skip(path.len() - tail_len(path))
}

pub open spec fn separator(c: char) -> bool {
    c == '/' || c == '\\'
}

/// Two separators at the start have a meaning of their own on some platforms.
pub open spec fn marked(path: Seq<char>) -> bool {
    path.len() >= 2 && separator(path[0]) && separator(path[1])
}

/// One character and a colon at the start may be a drive.
pub open spec fn may_start_with_drive(path: Seq<char>) -> bool {
    path.len() >= 2 && path[1] == ':'
}

/// A path whose file name every platform reads alike: it is what stands behind the last slash,
/// and neither a directory mark nor anything with a meaning of its own on some platform. A colon
/// has one only at the start of a path.
pub open spec fn plain_path(path: Seq<char>) -> bool {
    let name = tail_spec(path);
    &&& name.len() > 0
    &&& name != "."@
    &&& name != ".."@
    &&& !name.contains('\\')
    &&& name.len() < path.len() || !may_start_with_drive(path)
    &&& !marked(path)
}

/// The number of characters behind the last slash or backslash.
pub open spec fn name_len(path: Seq<char>) -> nat
    decreases path.len(),
{
    if path.len() > 0 && !separator(path.last()) {
        name_len(path.drop_last()) + 1
    } else {
        0
    }
}

/// What stands behind the last slash or backslash.
pub open spec fn name_spec(path: Seq<char>) -> Seq<char> {
    path.skip(path.len() - name_len(path))
}

pub open spec fn is_letter(c: char) -> bool {
    'a' <= c <= 'z' || 'A' <= c <= 'Z'
}

/// An absolute path in the form that Windows gives to a path it has resolved: `\\?\`, a drive,
/// and backslashes only.
pub open spec fn resolved_on_drive(path: Seq<char>) -> bool {
    &&& path.len() >= 7
    &&& path.take(4) == "\\\\?\\"@
    &&& is_letter(path[4])
    &&& path[5] == ':'
    &&& path[6] == '\\'
    &&& !path.contains('/')
}

/// The form that Windows gives to a path on a network folder it has resolved: `\\?\UNC\`, a server
/// and a share with a backslash behind each, and backslashes only.
pub open spec fn resolved_on_share(path: Seq<char>) -> bool {
    &&& path.len() > 8
    &&& path.take(8) == "\\\\?\\UNC\\"@
    &&& !path.contains('/')
    &&& exists|i: int, j: int|
        8 <= i < j < path.len() && #[trigger] path[i] == '\\' && #[trigger] path[j] == '\\'
}

/// A path on a network folder as it is typed: two separators, a server and a share with a separator
/// behind each. A question mark or a dot in place of the server has a meaning of its own.
pub open spec fn on_share(path: Seq<char>) -> bool {
    &&& marked(path)
    &&& path.len() > 2
    &&& !separator(path[2])
    &&& path[2] != '?'
    &&& path[2] != '.'
    &&& exists|i: int, j: int|
        2 < i < j < path.len() && separator(#[trigger] path[i]) && separator(#[trigger] path[j])
}

/// A path that ends in a file name. Every platform takes the name from behind a separator; those
/// that know the backslash only as a character take what stands behind the last slash, which ends
/// in the same name.
pub open spec fn names_a_file(path: Seq<char>) -> bool {
    let name = name_spec(path);
    &&& !marked(path) || resolved_on_drive(path) || resolved_on_share(path) || on_share(path)
    &&& name.len() > 0
    &&& name != "."@
    &&& name != ".."@
    &&& name.len() < path.len() || !may_start_with_drive(path)
}

/// The number of characters behind the last dot; all of them, if there is none.
pub open spec fn dot_len(name: Seq<char>) -> nat
    decreases name.len(),
{
    if name.len() > 0 && name.last() != '.' {
        dot_len(name.drop_last()) + 1
    } else {
        0
    }
}

pub open spec fn has_no_dot(name: Seq<char>) -> bool {
    dot_len(name) == name.len()
}

/// The name has a dot that is not its first character.
pub open spec fn has_extension(name: Seq<char>) -> bool {
    dot_len(name) + 1 < name.len()
}

pub open spec fn extension_spec(name: Seq<char>) -> Option<Seq<char>> {
    if has_extension(name) {
        Some(name.skip(name.len() - dot_len(name)))
    } else {
        None
    }
}

pub open spec fn stem_spec(name: Seq<char>) -> Seq<char> {
    if has_extension(name) {
        name.take(name.len() - dot_len(name) - 1)
    } else {
        name
    }
}

pub open spec fn view_of(value: Option<String>) -> Option<Seq<char>> {
    match value {
        Some(value) => Some(value@),
        None => None,
    }
}

/// `Path::extension` of std: what follows the last dot of the file name, unless the name has no
/// dot or only a leading one. The contract says so of a plain path. Of a path that ends in a file
/// name, the extension is that of the part behind the last separator of either kind, or of the part
/// behind the last slash where the platform knows no backslash. Both have the same one where the
/// first of them has one; where it has no dot, the other may have one before it, and the extension
/// then holds the backslash. Of other paths it only says that the extension stands behind a dot in
/// the path.
#[verifier::external_body]
pub(crate) fn path_extension(path: &str) -> (r: Option<String>)
    ensures
        plain_path(path@) ==> view_of(r) == extension_spec(tail_spec(path@)),
        names_a_file(path@) ==> view_of(r) == extension_spec(name_spec(path@)) || view_of(r)
            == extension_spec(tail_spec(path@)),
        names_a_file(path@) && has_extension(name_spec(path@)) ==> view_of(r) == extension_spec(
            name_spec(path@),
        ),
        names_a_file(path@) && has_no_dot(name_spec(path@)) ==> (r matches Some(extension)
            ==> extension@.contains('\\')),
        r matches Some(extension) ==> text::contains_spec(path@, "."@ + extension@),
{
    std::path::Path::new(path).extension().and_then(|name| name.to_str()).map(str::to_owned)
}

/// `Path::file_stem` of std: the file name without its extension and the dot before it. The
/// contract says so of a plain path. Of a path that ends in a file name, the name is what stands
/// behind the last separator of either kind, or behind the last slash where the platform knows no
/// backslash. Of other paths it only says that the stem stands in the path.
#[verifier::external_body]
pub(crate) fn path_file_stem(path: &str) -> (r: Option<String>)
    ensures
        plain_path(path@) ==> view_of(r) == Some(stem_spec(tail_spec(path@))),
        names_a_file(path@) ==> view_of(r) == Some(stem_spec(name_spec(path@))) || view_of(r)
            == Some(stem_spec(tail_spec(path@))),
        r matches Some(stem) ==> text::contains_spec(path@, stem@),
{
    std::path::Path::new(path).file_stem().and_then(|name| name.to_str()).map(str::to_owned)
}

/// A file name of one component: not empty, no directory mark, no separator or drive in it.
pub open spec fn plain_name(name: Seq<char>) -> bool {
    plain_path(name) && !name.contains('/')
}

/// The name in the folder, behind a separator. None is put where the folder is empty or ends in
/// one; whether a backslash at the end is one, and which separator is put, is the platform's
/// affair. Behind a bare drive Windows puts none.
pub open spec fn joined(folder: Seq<char>, name: Seq<char>, path: Seq<char>) -> bool {
    if folder.len() == 0 || folder.last() == '/' {
        path == folder + name
    } else if folder.last() == '\\' {
        path == folder + name || path == folder + "/"@ + name
    } else {
        ||| path == folder + "/"@ + name
        ||| path == folder + "\\"@ + name
        ||| folder.last() == ':' && path == folder + name
    }
}

/// `Path::join` of std, for a plain file name: it is put behind the folder, with a separator
/// between them where one is needed. Which separator that is depends on the platform. Of a folder
/// that starts with two separators and is not on a network folder as it is typed, the contract only
/// says that the name comes last.
#[verifier::external_body]
pub(crate) fn path_join(folder: &str, name: &str) -> (r: String)
    requires
        plain_name(name@),
    ensures
        !marked(folder@) || on_share(folder@) ==> joined(folder@, name@, r@),
        text::ends_with_spec(r@, name@),
{
    std::path::Path::new(folder).join(name).to_string_lossy().into_owned()
}

/// A text without a slash is all behind the last one.
pub proof fn lemma_name_without_slash(name: Seq<char>)
    requires
        forall|i: int| 0 <= i < name.len() ==> name[i] != '/',
    ensures
        tail_len(name) == name.len(),
        tail_spec(name) == name,
    decreases name.len(),
{
    if name.len() > 0 {
        lemma_name_without_slash(name.drop_last());
    }
    assert(name.skip(0) =~= name);
}

/// What stands behind the last slash holds none, and with what is before it makes up the path.
pub proof fn tail_stands_behind_the_last_slash(path: Seq<char>)
    ensures
        tail_len(path) <= path.len(),
        !tail_spec(path).contains('/'),
        tail_len(path) < path.len() ==> path[path.len() - tail_len(path) - 1] == '/',
        path.take(path.len() - tail_len(path)) + tail_spec(path) == path,
    decreases path.len(),
{
    if path.len() > 0 && path.last() != '/' {
        let shorter = path.drop_last();
        tail_stands_behind_the_last_slash(shorter);
        assert(tail_spec(path) =~= tail_spec(shorter).push(path.last()));
        assert forall|i: int| 0 <= i < tail_spec(path).len() implies tail_spec(path)[i] != '/' by {
            if i < tail_spec(shorter).len() {
                assert(tail_spec(shorter)[i] == tail_spec(path)[i]);
                assert(!tail_spec(shorter).contains('/'));
            }
        }
    }
    assert(path.take(path.len() - tail_len(path)) + tail_spec(path) =~= path);
}

proof fn lemma_dot_len(name: Seq<char>)
    ensures
        dot_len(name) <= name.len(),
        forall|i: int| name.len() - dot_len(name) <= i < name.len() ==> #[trigger] name[i] != '.',
        dot_len(name) < name.len() ==> name[name.len() - dot_len(name) - 1] == '.',
    decreases name.len(),
{
    if name.len() > 0 && name.last() != '.' {
        let shorter = name.drop_last();
        lemma_dot_len(shorter);
        assert forall|i: int| name.len() - dot_len(name) <= i < name.len() implies #[trigger] name[i]
            != '.' by {
            if i < shorter.len() {
                assert(shorter[i] == name[i]);
            }
        }
    }
}

/// Stem, dot and extension make up the name, and the extension holds no dot; a name without an
/// extension is all stem.
pub proof fn stem_and_extension_make_the_name(name: Seq<char>)
    ensures
        extension_spec(name) matches Some(extension) ==> stem_spec(name) + "."@ + extension == name
            && !extension.contains('.') && stem_spec(name).len() > 0,
        extension_spec(name) is None ==> stem_spec(name) == name,
        name.len() > 0 && (forall|i: int| 0 < i < name.len() ==> #[trigger] name[i] != '.') <==>
            name.len() > 0 && extension_spec(name) is None,
{
    reveal_strlit(".");
    lemma_dot_len(name);
    match extension_spec(name) {
        Some(extension) => {
            assert(stem_spec(name) + "."@ + extension =~= name);
            assert forall|i: int| 0 <= i < extension.len() implies extension[i] != '.' by {
                assert(name[name.len() - dot_len(name) + i] != '.');
            }
            assert(name[name.len() - dot_len(name) - 1] == '.');
        },
        None => {},
    }
}

} // verus!
