//! Input validation for names, identifiers, sizes and coordinates.

use vstd::prelude::*;
use crate::error::AppError;
use crate::text::{decimal, decimal_string};

verus! {

pub const MAX_COMPONENTS: usize = 10000;
pub const MAX_WIRES: usize = 50000;
/// Largest accepted document, in bytes.
pub const MAX_JSON_BYTES: usize = 10485760;
/// Largest accepted coordinate magnitude.
pub const COORDINATE_LIMIT: i32 = 50000;
pub const MAX_NAME_BYTES: usize = 100;
pub const MAX_PATH_BYTES: usize = 4096;

/// Pattern of a project name: word characters, white space and hyphens.
pub const PROJECT_NAME_PATTERN: &'static str = r"^[\w\s\-]+$";
/// Pattern of a component identifier: ASCII letters, digits, `_` and `-`.
pub const COMPONENT_ID_PATTERN: &'static str = r"^[a-zA-Z0-9_-]+$";
/// Pattern of a semantic version with optional pre-release and build parts.
pub const VERSION_PATTERN: &'static str = r"^\d+\.\d+\.\d+(-[\w.]+)?(\+[\w.]+)?$";
/// Characters that cannot stand in a file name.
pub const FILENAME_FORBIDDEN_PATTERN: &'static str = r#"[<>:"/\\|?*\x00-\x1f]"#;

/// Whether `text` has a match of the regular expression `pattern`, as the
/// `regex` crate decides it (an invalid pattern matches nothing).
pub uninterp spec fn regex_matches(pattern: Seq<char>, text: Seq<char>) -> bool;

/// `text` with every match of `pattern` replaced by `replacement`, as the
/// `regex` crate computes it (an invalid pattern leaves `text` unchanged).
pub uninterp spec fn regex_replaced(
    pattern: Seq<char>,
    text: Seq<char>,
    replacement: Seq<char>,
) -> Seq<char>;

/// Relies on `regex::Regex::new` and `Regex::is_match`: whether `text` has a
/// match of `pattern`.
#[verifier::external_body]
fn regex_is_match(pattern: &str, text: &str) -> (r: bool)
    ensures
        r == regex_matches(pattern@, text@),
{
    match regex::Regex::new(pattern) {
        Ok(re) => re.is_match(text),
        Err(_) => false,
    }
}

/// Relies on `regex::Regex::new` and `Regex::replace_all`: `text` with every
/// match of `pattern` replaced by `replacement`.
#[verifier::external_body]
fn regex_replace_all(pattern: &str, text: &str, replacement: &str) -> (r: String)
    ensures
        r@ == regex_replaced(pattern@, text@, replacement@),
{
    match regex::Regex::new(pattern) {
        Ok(re) => re.replace_all(text, replacement).into_owned(),
        Err(_) => text.to_string(),
    }
}

/// Whether `s` holds the character `c`.
pub fn str_has_char(s: &str, c: char) -> (r: bool)
    ensures
        r == s@.contains(c),
{
    let n = s.unicode_len();
    let mut i: usize = 0;
    while i < n
        invariant
            n == s@.len(),
            i <= n,
            forall|j: int| 0 <= j < i ==> s@[j] != c,
        decreases n - i,
    {
        if s.get_char(i) == c {
            return true;
        }
        i = i + 1;
    }
    false
}

pub fn validate_component_count(count: usize) -> (r: bool)
    ensures
        r == (count <= MAX_COMPONENTS),
{
    count <= MAX_COMPONENTS
}

pub fn validate_wire_count(count: usize) -> (r: bool)
    ensures
        r == (count <= MAX_WIRES),
{
    count <= MAX_WIRES
}

/// Length in bytes of the UTF-8 encoding of `s`.
pub open spec fn byte_len(s: Seq<char>) -> usize {
    vstd::utf8::encode_utf8(s).len() as usize
}

/// A string that is not empty, holds no NUL character and whose UTF-8 length
/// lies between `min_len` and `max_len` bytes.
pub open spec fn string_length_ok(s: Seq<char>, min_len: usize, max_len: usize) -> bool {
    s.len() > 0 && byte_len(s) >= min_len && byte_len(s) <= max_len && !s.contains('\0')
}

pub fn validate_string_length(s: &str, max_len: usize) -> (r: bool)
    ensures
        r == string_length_ok(s@, 0, max_len),
{
    !s.is_empty() && s.len() <= max_len && !str_has_char(s, '\0')
}

pub open spec fn length_range_message(min_len: usize, max_len: usize) -> Seq<char> {
    "String length must be between "@ + decimal(min_len as nat) + " and "@ + decimal(
        max_len as nat,
    ) + " characters"@
}

pub fn validate_string_length_range(s: &str, min_len: usize, max_len: usize) -> (r: Result<
    (),
    AppError,
>)
    ensures
        r is Ok <==> string_length_ok(s@, min_len, max_len),
        r matches Err(e) ==> e matches AppError::InvalidInput(m) && m@ == length_range_message(
            min_len,
            max_len,
        ),
{
    if s.is_empty() || s.len() < min_len || s.len() > max_len || str_has_char(s, '\0') {
        let mut m = String::from_str("String length must be between ");
        m.append(decimal_string(min_len).as_str());
        m.append(" and ");
        m.append(decimal_string(max_len).as_str());
        m.append(" characters");
        return Err(AppError::InvalidInput(m));
    }
    Ok(())
}

pub fn validate_json_size(json: &str) -> (r: bool)
    ensures
        r == (json.len() <= MAX_JSON_BYTES),
{
    json.len() <= MAX_JSON_BYTES
}

pub open spec fn coordinate_ok(value: i32) -> bool {
    -COORDINATE_LIMIT <= value <= COORDINATE_LIMIT
}

/// Whether a coordinate lies within the document's extent.
pub fn validate_coordinate(value: i32) -> (r: bool)
    ensures
        r == coordinate_ok(value),
{
    -COORDINATE_LIMIT <= value && value <= COORDINATE_LIMIT
}

pub fn validate_coordinate_strict(value: i32) -> (r: Result<(), AppError>)
    ensures
        r is Ok <==> coordinate_ok(value),
        r matches Err(e) ==> e matches AppError::InvalidInput(m) && m@
            == "Invalid coordinate value"@,
{
    if !validate_coordinate(value) {
        return Err(AppError::InvalidInput(String::from_str("Invalid coordinate value")));
    }
    Ok(())
}

/// Whether a name of `name.len()` bytes that does (or does not) match its
/// pattern is acceptable: not empty, at most the name limit, matching.
pub fn name_checks(name: &str, matches_pattern: bool) -> (r: bool)
    ensures
        r == (name@.len() > 0 && name.len() <= MAX_NAME_BYTES && matches_pattern),
{
    !name.is_empty() && name.len() <= MAX_NAME_BYTES && matches_pattern
}

pub fn validate_project_name(name: &str) -> (r: bool)
    ensures
        r == (name@.len() > 0 && name.len() <= MAX_NAME_BYTES && regex_matches(
            PROJECT_NAME_PATTERN@,
            name@,
        )),
{
    if name.is_empty() || name.len() > MAX_NAME_BYTES {
        return false;
    }
    let matched = regex_is_match(PROJECT_NAME_PATTERN, name);
    name_checks(name, matched)
}

pub fn validate_component_id(id: &str) -> (r: bool)
    ensures
        r == (id@.len() > 0 && id.len() <= MAX_NAME_BYTES && regex_matches(
            COMPONENT_ID_PATTERN@,
            id@,
        )),
{
    if id.is_empty() || id.len() > MAX_NAME_BYTES {
        return false;
    }
    let matched = regex_is_match(COMPONENT_ID_PATTERN, id);
    name_checks(id, matched)
}

pub fn validate_version(version: &str) -> (r: bool)
    ensures
        r == regex_matches(VERSION_PATTERN@, version@),
{
    regex_is_match(VERSION_PATTERN, version)
}

/// Replaces each character that cannot stand in a file name by `_`.
pub fn sanitize_filename(filename: &str) -> (r: String)
    ensures
        r@ == regex_replaced(FILENAME_FORBIDDEN_PATTERN@, filename@, "_"@),
{
    regex_replace_all(FILENAME_FORBIDDEN_PATTERN, filename, "_")
}

/// The text of a path is acceptable: not empty, at most the path limit, and
/// free of parent-directory steps (`../`, `..\`) and of NUL, carriage return
/// and line feed characters.
pub open spec fn path_text_ok(path: &str) -> bool {
    &&& path@.len() > 0
    &&& path.len() <= MAX_PATH_BYTES
    &&& !crate::text::contains_seq(path@, "../"@)
    &&& !crate::text::contains_seq(path@, "..\\"@)
    &&& !path@.contains('\0')
    &&& !path@.contains('\r')
    &&& !path@.contains('\n')
}

/// Checks the text of a path before it is resolved on disk.
pub fn validate_file_path_text(path: &str) -> (r: bool)
    ensures
        r == path_text_ok(path),
{
    if path.is_empty() || path.len() > MAX_PATH_BYTES {
        return false;
    }
    !crate::text::str_contains(path, "../") && !crate::text::str_contains(path, "..\\")
        && !str_has_char(path, '\0') && !str_has_char(path, '\r') && !str_has_char(path, '\n')
}

} // verus!
