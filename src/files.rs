//! Parts of a file path, as the standard library's path handling splits it.

use vstd::prelude::*;

verus! {

/// The extension of the last component of a path, as `Path::extension`
/// finds it, when it is valid Unicode.
pub uninterp spec fn extension_of(path: Seq<char>) -> Option<Seq<char>>;

/// The last component of a path, as `Path::file_name` finds it.
pub uninterp spec fn file_name_of(path: Seq<char>) -> Option<Seq<char>>;

/// The last component of a path without its extension, as `Path::file_stem`
/// finds it.
pub uninterp spec fn file_stem_of(path: Seq<char>) -> Option<Seq<char>>;

/// The lower-case form of a text, as `str::to_lowercase` gives it.
pub uninterp spec fn lower_of(s: Seq<char>) -> Seq<char>;

pub open spec fn text_of(o: Option<String>) -> Option<Seq<char>> {
    match o {
        Some(s) => Some(s@),
        None => None,
    }
}

/// Relies on `Path::extension`: the extension of the path's last component.
#[verifier::external_body]
fn path_extension(path: &str) -> (r: Option<String>)
    ensures
        text_of(r) == extension_of(path@),
{
    match std::path::Path::new(path).extension() {
        Some(part) => match part.to_str() {
            Some(text) => Some(text.to_string()),
            None => None,
        },
        None => None,
    }
}

/// Relies on `Path::file_name`: the path's last component.
#[verifier::external_body]
fn path_file_name(path: &str) -> (r: Option<String>)
    ensures
        text_of(r) == file_name_of(path@),
{
    match std::path::Path::new(path).file_name() {
        Some(part) => match part.to_str() {
            Some(text) => Some(text.to_string()),
            None => None,
        },
        None => None,
    }
}

/// Relies on `Path::file_stem`: the path's last component without its
/// extension.
#[verifier::external_body]
fn path_file_stem(path: &str) -> (r: Option<String>)
    ensures
        text_of(r) == file_stem_of(path@),
{
    match std::path::Path::new(path).file_stem() {
        Some(part) => match part.to_str() {
            Some(text) => Some(text.to_string()),
            None => None,
        },
        None => None,
    }
}

/// Relies on `str::to_lowercase`: the result depends on the characters of
/// `s` alone.
#[verifier::external_body]
fn lowercase(s: &str) -> (r: String)
    ensures
        r@ == lower_of(s@),
{
    s.to_lowercase()
}

/// Path helpers of the file layer.
pub struct FileService;

impl FileService {
    /// The extension of the path, in lower case.
    pub fn get_file_extension(path: &str) -> (r: Option<String>)
        ensures
            text_of(r) == match extension_of(path@) {
                Some(e) => Some(lower_of(e)),
                None => None,
            },
    {
        match path_extension(path) {
            Some(e) => Some(lowercase(e.as_str())),
            None => None,
        }
    }

    pub fn get_file_name(path: &str) -> (r: Option<String>)
        ensures
            text_of(r) == file_name_of(path@),
    {
        path_file_name(path)
    }

    pub fn get_file_stem(path: &str) -> (r: Option<String>)
        ensures
            text_of(r) == file_stem_of(path@),
    {
        path_file_stem(path)
    }
}

} // verus!
