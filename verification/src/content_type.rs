//! The content type of what a request resolved to.

use vstd::prelude::*;
use vstd::string::*;
use crate::paths::{extension, extension_of};

verus! {

/// The content type of every directory listing.
pub const TEXT_HTML_UTF_8: &'static str = "text/html; charset=utf-8";

/// The content type of a file whose extension says nothing, and of every
/// failure reported as text.
pub const TEXT_PLAIN: &'static str = "text/plain";

/// What a resolved path turned out to be.
#[derive(Debug, Clone, Copy, PartialEq, Eq, Structural)]
pub enum Target {
    /// A directory.
    Directory,
    /// Anything else: a regular file, or nothing at all. That a file is
    /// missing shows only when it is read.
    File,
}

/// Classifies a resolved path by what the file system says of it.
pub fn classify(is_dir: bool) -> (r: Target)
    ensures
        r == (if is_dir {
            Target::Directory
        } else {
            Target::File
        }),
{
    if is_dir {
        Target::Directory
    } else {
        Target::File
    }
}

/// `s` with its ASCII capital letters replaced by small ones.
pub open spec fn ascii_lowercase(s: Seq<char>) -> Seq<char> {
    s.map_values(
        |c: char|
            if 'A' <= c <= 'Z' {
                ((c as u8) + 32) as char
            } else {
                c
            },
    )
}

/// The media type that the extension table of `mime_guess` holds first for
/// the extension `ext`, if it holds one.
pub uninterp spec fn extension_mime(ext: Seq<char>) -> Option<Seq<char>>;

/// The content type of a file, given what the extension table answered for
/// its extension, if the file has one.
pub open spec fn file_content_type(found: Option<Option<Seq<char>>>) -> Seq<char> {
    match found {
        Some(Some(mime)) => mime,
        _ => TEXT_PLAIN@,
    }
}

/// The content type of the target at `path`.
pub open spec fn content_type_of(target: Target, path: Seq<char>) -> Seq<char> {
    match target {
        Target::Directory => TEXT_HTML_UTF_8@,
        Target::File => file_content_type(
            match extension_of(path) {
                Some(ext) => Some(extension_mime(ascii_lowercase(ext))),
                None => None,
            },
        ),
    }
}

/// What `mime_guess::from_ext(ext).first_raw()` returns. Trusted: the crate
/// searches a table fixed when it is built and finds nothing for the empty
/// extension. It compares without regard to case, folding letters beyond
/// ASCII too; two extensions whose ASCII lowercase forms are equal fold
/// alike, so the answer depends on that form alone.
#[verifier::external_body]
fn lookup_extension(ext: &str) -> (r: Option<&'static str>)
    ensures
        match r {
            Some(mime) => extension_mime(ascii_lowercase(ext@)) == Some(mime@),
            None => extension_mime(ascii_lowercase(ext@)) is None,
        },
        ext@.len() == 0 ==> r is None,
{
    mime_guess::from_ext(ext).first_raw()
}

/// The content type of a file from what the extension table answered:
/// the media type found, and `text/plain` where the file has no extension
/// or the table does not know it.
pub fn content_type_from(found: Option<Option<String>>) -> (r: String)
    ensures
        r@ == file_content_type(
            match found {
                Some(Some(mime)) => Some(Some(mime@)),
                Some(None) => Some(None),
                None => None,
            },
        ),
{
    match found {
        Some(Some(mime)) => mime,
        _ => TEXT_PLAIN.to_owned(),
    }
}

/// The content type of the target at `path`: `text/html; charset=utf-8` for
/// a directory, and for a file what its extension says. The file itself is
/// never looked at.
pub fn content_type(target: Target, path: &str) -> (r: String)
    ensures
        r@ == content_type_of(target, path@),
        target == Target::Directory ==> r@ == TEXT_HTML_UTF_8@,
        target == Target::File && (match extension_of(path@) {
            Some(ext) => extension_mime(ascii_lowercase(ext)) is None,
            None => true,
        }) ==> r@ == TEXT_PLAIN@,
{
    match target {
        Target::Directory => TEXT_HTML_UTF_8.to_owned(),
        Target::File => {
            let found = match extension(path) {
                Some(ext) => Some(
                    match lookup_extension(ext.as_str()) {
                        Some(mime) => Some(mime.to_owned()),
                        None => None,
                    },
                ),
                None => None,
            };
            content_type_from(found)
        },
    }
}

} // verus!
