//! Which files of a directory are uploaded, and under which name each of
//! them is known in the store.

use vstd::prelude::*;
use crate::text::{
    chars_of, is_text, lowercase_of, slice_of, string_of, trim_start_char, trim_start_char_pos,
};

verus! {

/// Why a file has no name relative to the base.
#[derive(Debug, Clone, Copy, PartialEq, Eq, Structural)]
pub enum PathError {
    /// The path ends in no file name.
    NoFileName,
    /// The path does not lie under the base.
    NotUnderBase,
}

/// The error in words.
pub open spec fn path_error_text(error: PathError) -> Seq<char> {
    match error {
        PathError::NoFileName => "Failed to get filename"@,
        PathError::NotUnderBase => "Failed to strip prefix"@,
    }
}

impl PathError {
    /// The error in words.
    pub fn message(&self) -> (text: String)
        ensures
            text@ == path_error_text(*self),
    {
        match self {
            PathError::NoFileName => string_of(&chars_of("Failed to get filename")),
            PathError::NotUnderBase => string_of(&chars_of("Failed to strip prefix")),
        }
    }
}

/// A text, where there is one.
pub open spec fn text_of(value: Option<String>) -> Option<Seq<char>> {
    match value {
        Some(text) => Some(text@),
        None => None,
    }
}

/// The name under which a file is known, given the file name that its path
/// ends in and what is left of the path once the base is taken from its
/// front. The file name alone is used where the directories are flattened,
/// and where the base is itself the file.
pub open spec fn relative_name(
    file_name: Option<Seq<char>>,
    under_base: Option<Seq<char>>,
    base_is_file: bool,
    flatten: bool,
) -> Result<Seq<char>, PathError> {
    if flatten || base_is_file {
        match file_name {
            Some(name) => Ok(name),
            None => Err(PathError::NoFileName),
        }
    } else {
        match under_base {
            Some(rest) => Ok(rest),
            None => Err(PathError::NotUnderBase),
        }
    }
}

/// The name under which a file is known in the store.
pub fn relative_path_from(
    file_name: Option<String>,
    under_base: Option<String>,
    base_is_file: bool,
    flatten: bool,
) -> (result: Result<String, PathError>)
    ensures
        match relative_name(text_of(file_name), text_of(under_base), base_is_file, flatten) {
            Ok(name) => result matches Ok(found) && found@ == name,
            Err(error) => result == Err::<String, PathError>(error),
        },
{
    if flatten || base_is_file {
        match file_name {
            Some(name) => Ok(name),
            None => Err(PathError::NoFileName),
        }
    } else {
        match under_base {
            Some(rest) => Ok(rest),
            None => Err(PathError::NotUnderBase),
        }
    }
}

/// `Path::file_name` of std, as a text: the last component of the path, if
/// it is a file or directory name. Nothing is stated of it, since what the
/// components of a path are differs between systems.
#[verifier::external_body]
fn file_name_of(path: &std::path::Path) -> (name: Option<String>) {
    path.file_name().map(|name| name.to_string_lossy().to_string())
}

/// `Path::strip_prefix` of std, as a text: the path without the base at its
/// front, if it lies under the base. Nothing is stated of it, for the same
/// reason.
#[verifier::external_body]
fn strip_base(path: &std::path::Path, base: &std::path::Path) -> (rest: Option<String>) {
    path.strip_prefix(base).ok().map(|rest| rest.to_string_lossy().to_string())
}

/// The name under which `file` is known in the store: its file name where
/// `flatten` is set or the base is itself a file, and its path from `base` on
/// otherwise.
pub fn get_relative_path(
    base: &std::path::Path,
    file: &std::path::Path,
    base_is_file: bool,
    flatten: bool,
) -> (result: Result<String, PathError>)
    ensures
        result matches Err(error) ==> error == if flatten || base_is_file {
            PathError::NoFileName
        } else {
            PathError::NotUnderBase
        },
{
    if flatten || base_is_file {
        relative_path_from(file_name_of(file), None, base_is_file, flatten)
    } else {
        relative_path_from(None, strip_base(file, base), base_is_file, flatten)
    }
}

/// An extension as it is compared: without the periods in front of it, and
/// in lowercase.
pub open spec fn normal_extension(extension: Seq<char>) -> Seq<char> {
    lowercase_of(trim_start_char(extension, '.'))
}

/// A file with extension `extension` is among those to upload: its
/// extension, in lowercase, is one of the allowed ones, which are given
/// as [`normalize_extensions`] returns them.
pub open spec fn is_allowed(allowed: Seq<String>, extension: Seq<char>) -> bool {
    exists|i: int| 0 <= i < allowed.len() && (#[trigger] allowed[i])@ == lowercase_of(extension)
}

/// An allowed extension as it is compared.
pub fn normalize_extension(extension: &str) -> (normal: String)
    ensures
        normal@ == normal_extension(extension@),
{
    let text = chars_of(extension);
    let start = trim_start_char_pos(&text, '.');
    let bare = slice_of(&text, start, text.len());
    assert(bare@ == text@.skip(start as int));
    string_of(&bare).as_str().to_lowercase()
}

/// The allowed extensions as they are compared, in their order.
pub fn normalize_extensions(allowed: &Vec<String>) -> (normal: Vec<String>)
    ensures
        normal@.len() == allowed@.len(),
        forall|i: int|
            0 <= i < normal@.len() ==> (#[trigger] normal@[i])@ == normal_extension(allowed@[i]@),
{
    let mut normal: Vec<String> = Vec::new();
    let mut i: usize = 0;
    while i < allowed.len()
        invariant
            i <= allowed.len(),
            normal@.len() == i,
            forall|k: int|
                0 <= k < i ==> (#[trigger] normal@[k])@ == normal_extension(allowed@[k]@),
        decreases allowed.len() - i,
    {
        normal.push(normalize_extension(allowed[i].as_str()));
        i += 1;
    }
    normal
}

/// Whether `lowered`, a file's extension in lowercase, is one of the `allowed`.
pub fn allows_lowered(allowed: &Vec<String>, lowered: &str) -> (found: bool)
    ensures
        found == exists|i: int| 0 <= i < allowed@.len() && (#[trigger] allowed@[i])@ == lowered@,
{
    let mut i: usize = 0;
    while i < allowed.len()
        invariant
            i <= allowed.len(),
            forall|k: int| 0 <= k < i ==> (#[trigger] allowed@[k])@ != lowered@,
        decreases allowed.len() - i,
    {
        if is_text(&chars_of(allowed[i].as_str()), lowered) {
            return true;
        }
        i += 1;
    }
    false
}

/// Whether a file with extension `extension` is among those to upload. The
/// case of the extension does not count.
pub fn extension_allowed(allowed: &Vec<String>, extension: &str) -> (found: bool)
    ensures
        found == is_allowed(allowed@, extension@),
{
    let lowered = extension.to_lowercase();
    allows_lowered(allowed, lowered.as_str())
}

} // verus!
