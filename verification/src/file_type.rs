//! Telling the format of a scene file from its name.
use vstd::prelude::*;

use crate::models::opt_view;
use crate::text::chars_of;

verus! {

/// The formats of scene files.
#[derive(Debug, Clone, Copy, PartialEq, Eq, Structural)]
pub enum FileType {
    /// The native scene format (`.crdf`, `.scene`, `.cirious`).
    CRDF,
    /// Wavefront OBJ (`.obj`).
    Obj,
    /// JSON (`.json`).
    Json,
    /// Any other extension.
    Unknown,
}

/// The extension that `std::path::Path::extension` finds in `path` (the part
/// of the file name after its last `.`), as text.
pub uninterp spec fn path_extension(path: Seq<char>) -> Option<Seq<char>>;

/// The text that `str::to_lowercase` gives for `s`.
pub uninterp spec fn lowercase(s: Seq<char>) -> Seq<char>;

/// `std::path::Path::extension` on `path`, converted to a `String`.
///
/// Trusted: the result is the named result [`path_extension`] of the text of
/// `path`. The extension of a file name given as a `&str` is always valid
/// UTF-8, so the conversion back to text loses nothing.
#[verifier::external_body]
fn extension_of(path: &str) -> (r: Option<String>)
    ensures
        opt_view(r) == path_extension(path@),
{
    std::path::Path::new(path).extension().and_then(|e| e.to_str()).map(|e| e.to_owned())
}

/// `str::to_lowercase` on `s`.
///
/// Trusted: the result is the named result [`lowercase`] of the text of `s`.
#[verifier::external_body]
fn to_lowercase(s: &str) -> (r: String)
    ensures
        r@ == lowercase(s@),
{
    s.to_lowercase()
}

/// The format that a lower-case extension stands for.
pub open spec fn file_type_of(ext: Seq<char>) -> FileType {
    if ext == "crdf"@ || ext == "scene"@ || ext == "cirious"@ {
        FileType::CRDF
    } else if ext == "obj"@ {
        FileType::Obj
    } else if ext == "json"@ {
        FileType::Json
    } else {
        FileType::Unknown
    }
}

/// Whether the characters `v` spell the text `lit`.
fn spells(v: &Vec<char>, lit: &str) -> (r: bool)
    ensures
        r == (v@ == lit@),
{
    let w = chars_of(lit);
    if v.len() != w.len() {
        return false;
    }
    let n = v.len();
    for i in 0..n
        invariant
            n == v@.len(),
            n == w@.len(),
            w@ == lit@,
            forall|k: int| 0 <= k < i ==> v@[k] == w@[k],
    {
        if v[i] != w[i] {
            assert(v@[i as int] != w@[i as int]);
            return false;
        }
    }
    assert(v@ =~= w@);
    true
}

/// The format that the lower-case extension `ext` stands for.
pub fn file_type_of_lowercase(ext: &str) -> (r: FileType)
    ensures
        r == file_type_of(ext@),
{
    let v = chars_of(ext);
    if spells(&v, "crdf") || spells(&v, "scene") || spells(&v, "cirious") {
        FileType::CRDF
    } else if spells(&v, "obj") {
        FileType::Obj
    } else if spells(&v, "json") {
        FileType::Json
    } else {
        FileType::Unknown
    }
}

/// The format of a file, told by the extension of its name compared without
/// regard to case; `None` when the name has no extension.
pub fn get_file_type(path: &str) -> (r: Option<FileType>)
    ensures
        r == match path_extension(path@) {
            Some(e) => Some(file_type_of(lowercase(e))),
            None => None,
        },
{
    match extension_of(path) {
        Some(e) => {
            let lower = to_lowercase(e.as_str());
            Some(file_type_of_lowercase(lower.as_str()))
        },
        None => None,
    }
}

} // verus!
