//! From the path of a request to a path in the file system.

use vstd::prelude::*;
use vstd::string::*;
use vstd::utf8::{decode_utf8, encode_utf8, valid_utf8, encode_utf8_decode_utf8, encode_utf8_valid_utf8};
use crate::error::ServeError;
use crate::paths::{join, joined, SEPARATOR};

verus! {

/// Whether `b` is an ASCII hexadecimal digit, of either case.
pub open spec fn is_hex_digit(b: u8) -> bool {
    (0x30 <= b <= 0x39) || (0x41 <= b <= 0x46) || (0x61 <= b <= 0x66)
}

/// The number that the hexadecimal digit `b` stands for.
pub open spec fn hex_value(b: u8) -> int {
    if b <= 0x39 {
        b - 0x30
    } else if b <= 0x46 {
        b - 0x41 + 10
    } else {
        b - 0x61 + 10
    }
}

/// Whether an escape starts at index `i` of `b`: a `%` and two hexadecimal
/// digits.
pub open spec fn is_escape_at(b: Seq<u8>, i: int) -> bool {
    &&& 0 <= i
    &&& i + 2 < b.len()
    &&& b[i] == 0x25
    &&& is_hex_digit(b[i + 1])
    &&& is_hex_digit(b[i + 2])
}

/// Whether `b` holds an escape anywhere.
pub open spec fn has_escape(b: Seq<u8>) -> bool {
    exists|i: int| is_escape_at(b, i)
}

/// `b` with every escape replaced by the byte it names, read from the left.
/// A `%` that starts no escape stands for itself.
pub open spec fn percent_decoded(b: Seq<u8>) -> Seq<u8>
    decreases b.len(),
{
    if b.len() == 0 {
        Seq::empty()
    } else if is_escape_at(b, 0) {
        seq![(hex_value(b[1]) * 16 + hex_value(b[2])) as u8] + percent_decoded(b.skip(3))
    } else {
        seq![b[0]] + percent_decoded(b.skip(1))
    }
}

/// `raw` without its one leading separator.
pub open spec fn without_leading_separator(raw: Seq<char>) -> Seq<char> {
    if raw.len() > 0 && raw[0] == SEPARATOR {
        raw.skip(1)
    } else {
        raw
    }
}

/// The relative path that the request path `raw` names: `raw` without its
/// leading separator, percent-decoded and read as UTF-8. There is none where
/// the decoded bytes are not UTF-8.
pub open spec fn decoded_path(raw: Seq<char>) -> Option<Seq<char>> {
    let bytes = percent_decoded(encode_utf8(without_leading_separator(raw)));
    if valid_utf8(bytes) {
        Some(decode_utf8(bytes))
    } else {
        None
    }
}

/// The path in the file system that the request path `raw` names under `root`.
pub open spec fn resolved_path(root: Seq<char>, raw: Seq<char>) -> Option<Seq<char>> {
    match decoded_path(raw) {
        Some(rel) => Some(joined(root, rel)),
        None => None,
    }
}

/// Bytes that hold no escape decode to themselves.
pub proof fn lemma_decoded_without_escape(b: Seq<u8>)
    requires
        !has_escape(b),
    ensures
        percent_decoded(b) == b,
    decreases b.len(),
{
    if b.len() > 0 {
        assert(!is_escape_at(b, 0));
        assert forall|i: int| !is_escape_at(b.skip(1), i) by {
            assert(is_escape_at(b.skip(1), i) ==> is_escape_at(b, i + 1));
        }
        lemma_decoded_without_escape(b.skip(1));
        assert(seq![b[0]] + b.skip(1) == b);
    }
}

/// Decoding never makes bytes longer, and makes them shorter exactly where
/// they hold an escape.
pub proof fn lemma_decoded_len(b: Seq<u8>)
    ensures
        percent_decoded(b).len() <= b.len(),
        has_escape(b) <==> percent_decoded(b).len() < b.len(),
    decreases b.len(),
{
    if b.len() == 0 {
    } else if is_escape_at(b, 0) {
        lemma_decoded_len(b.skip(3));
    } else {
        lemma_decoded_len(b.skip(1));
        if has_escape(b) {
            let i = choose|i: int| is_escape_at(b, i);
            assert(is_escape_at(b.skip(1), i - 1));
        }
        if has_escape(b.skip(1)) {
            let i = choose|i: int| is_escape_at(b.skip(1), i);
            assert(is_escape_at(b, i + 1));
        }
    }
}

/// A request path made of a separator and a relative path `rel` whose UTF-8
/// bytes hold no escape names `rel` again, and so the entry of that name under
/// the root.
pub proof fn lemma_link_resolves(root: Seq<char>, rel: Seq<char>)
    requires
        !has_escape(encode_utf8(rel)),
    ensures
        decoded_path(seq![SEPARATOR] + rel) == Some(rel),
        resolved_path(root, seq![SEPARATOR] + rel) == Some(joined(root, rel)),
{
    let raw = seq![SEPARATOR] + rel;
    assert(without_leading_separator(raw) == rel);
    lemma_decoded_without_escape(encode_utf8(rel));
    encode_utf8_valid_utf8(rel);
    encode_utf8_decode_utf8(rel);
}

/// A request path made of a separator and a relative path `rel` whose UTF-8
/// bytes hold an escape does not name `rel`.
pub proof fn lemma_link_with_escape_differs(rel: Seq<char>)
    requires
        has_escape(encode_utf8(rel)),
    ensures
        decoded_path(seq![SEPARATOR] + rel) != Some(rel),
{
    let raw = seq![SEPARATOR] + rel;
    assert(without_leading_separator(raw) == rel);
    let bytes = percent_decoded(encode_utf8(rel));
    lemma_decoded_len(encode_utf8(rel));
    if valid_utf8(bytes) && decode_utf8(bytes) == rel {
        vstd::utf8::decode_utf8_encode_utf8(bytes);
    }
}

/// What `percent_encoding::percent_decode(input).decode_utf8()` returns, as an
/// owned string. Trusted: the crate replaces each `%` that two hexadecimal
/// digits follow by the byte they name, leaves every other byte as it is, and
/// hands the bytes to std's UTF-8 check, which fails exactly on bytes that
/// are not UTF-8.
#[verifier::external_body]
fn percent_decode_utf8(input: &[u8]) -> (r: Option<String>)
    ensures
        r is Some <==> valid_utf8(percent_decoded(input@)),
        r matches Some(s) ==> s@ == decode_utf8(percent_decoded(input@)),
{
    match percent_encoding::percent_decode(input).decode_utf8() {
        Ok(s) => Some(s.into_owned()),
        Err(_) => None,
    }
}

/// The relative path that the request path `raw` names, or `None` where its
/// bytes do not decode to UTF-8.
pub fn decode_path(raw: &str) -> (r: Option<String>)
    ensures
        match r {
            Some(rel) => decoded_path(raw@) == Some(rel@),
            None => decoded_path(raw@) is None,
        },
{
    let n: usize = raw.unicode_len();
    let rest: &str = if n > 0 && raw.get_char(0) == SEPARATOR {
        raw.substring_char(1, n)
    } else {
        raw
    };
    percent_decode_utf8(rest.as_bytes())
}

/// A request being handled: the path that was asked for and the path in the
/// file system that it names.
#[derive(Debug, Clone)]
pub struct RequestContext {
    /// The path as it was received, percent-encoded.
    pub raw_path: String,
    /// The decoded path, relative to the root.
    pub relative: String,
    /// The path in the file system: the relative path joined onto the root.
    pub resolved: String,
}

impl RequestContext {
    /// Whether this context is what `resolve` gives for `raw` under `root`.
    pub open spec fn resolves(self, root: Seq<char>, raw: Seq<char>) -> bool {
        &&& self.raw_path@ == raw
        &&& decoded_path(raw) == Some(self.relative@)
        &&& self.resolved@ == joined(root, self.relative@)
    }
}

/// Resolves the request path `raw_path` against the root directory `root`.
/// It fails, with `ServeError::Decode`, exactly where the path does not
/// decode to UTF-8. The file system is not asked: the resolved path may name
/// nothing, and it may lie outside the root.
pub fn resolve(root: &str, raw_path: &str) -> (r: Result<RequestContext, ServeError>)
    ensures
        match r {
            Ok(context) => context.resolves(root@, raw_path@),
            Err(e) => decoded_path(raw_path@) is None && e is Decode,
        },
{
    match decode_path(raw_path) {
        Some(relative) => {
            let resolved = join(root, relative.as_str());
            Ok(RequestContext { raw_path: raw_path.to_owned(), relative, resolved })
        },
        None => Err(ServeError::Decode),
    }
}

} // verus!
