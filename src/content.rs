//! Content types of the static frontend files, by file extension.

use vstd::prelude::*;
use crate::text::same_str;

verus! {

broadcast use vstd::string::group_string_axioms;

/// File extensions and the content types they are served with.
pub const CONTENT_TYPES: [(&'static str, &'static str); 12] = [
    ("html", "text/html"),
    ("htm", "text/html"),
    ("js", "text/javascript"),
    ("css", "text/css"),
    ("ico", "image/vnd.microsoft.icon"),
    ("txt", "text/plain"),
    ("xml", "application/xml"),
    ("webmanifest", "application/manifest+json"),
    ("png", "image/png"),
    ("svg", "image/svg+xml"),
    ("gif", "image/gif"),
    ("map", "application/json"),
];

/// No content type is known for the extension.
#[derive(Clone, Copy, Debug, PartialEq, Eq, Structural)]
pub enum ContentTypeError {
    NotFound,
}

/// The content type of the first entry of the table from index `i` on whose
/// extension is `ext`.
pub open spec fn content_type_from(ext: Seq<char>, i: int) -> Option<Seq<char>>
    decreases 12 - i,
{
    if i < 0 || i >= 12 {
        None
    } else if CONTENT_TYPES[i].0@ == ext {
        Some(CONTENT_TYPES[i].1@)
    } else {
        content_type_from(ext, i + 1)
    }
}

/// The content type of a file with extension `ext`.
pub fn get_content_type(ext: &str) -> (r: Result<&'static str, ContentTypeError>)
    ensures
        match r {
            Ok(t) => content_type_from(ext@, 0) == Some(t@),
            Err(_) => content_type_from(ext@, 0) is None,
        },
{
    let mut i: usize = 0;
    while i < 12
        invariant
            i <= 12,
            content_type_from(ext@, 0) == content_type_from(ext@, i as int),
        decreases 12 - i,
    {
        let entry = CONTENT_TYPES[i];
        if same_str(ext, entry.0) {
            return Ok(entry.1);
        }
        i += 1;
    }
    Err(ContentTypeError::NotFound)
}


/// The content type of a file without a known extension.
pub open spec fn fallback_type(is_binary: bool) -> Seq<char> {
    if is_binary {
        "application/octet-stream"@
    } else {
        "text/plain"@
    }
}

/// The content type to serve a file with: by its extension `ext` when the
/// table knows it, else by whether its contents are binary.
pub fn file_content_type(ext: Option<&str>, is_binary: bool) -> (r: &'static str)
    ensures
        r@ == match ext {
            Some(e) => match content_type_from(e@, 0) {
                Some(t) => t,
                None => fallback_type(is_binary),
            },
            None => fallback_type(is_binary),
        },
{
    let fallback = if is_binary {
        "application/octet-stream"
    } else {
        "text/plain"
    };
    match ext {
        Some(e) => match get_content_type(e) {
            Ok(t) => t,
            Err(_) => fallback,
        },
        None => fallback,
    }
}

} // verus!
