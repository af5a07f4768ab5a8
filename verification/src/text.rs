//! Text handling for the attribute format: UTF-8 decoding of raw
//! bytes, whitespace trimming, case folding for field-name comparison,
//! and NUL-terminated name extraction.
//!
//! Byte-level scanning is verified directly; the UTF-8 decode itself
//! and the character-level trims lean on the standard library through
//! trusted wrappers whose contracts are stated over vstd's model of
//! UTF-8 and over the spec functions below.

use vstd::prelude::*;
use vstd::utf8::{decode_utf8, valid_utf8};

verus! {

/// The Unicode white-space characters — the set `char::is_whitespace`
/// accepts (the characters with the White_Space property).
pub open spec fn is_ws_char(c: char) -> bool {
    ||| c == '\u{9}'
    ||| c == '\u{a}'
    ||| c == '\u{b}'
    ||| c == '\u{c}'
    ||| c == '\u{d}'
    ||| c == ' '
    ||| c == '\u{85}'
    ||| c == '\u{a0}'
    ||| c == '\u{1680}'
    ||| ('\u{2000}' <= c && c <= '\u{200a}')
    ||| c == '\u{2028}'
    ||| c == '\u{2029}'
    ||| c == '\u{202f}'
    ||| c == '\u{205f}'
    ||| c == '\u{3000}'
}

/// Fold one character to lower case; only ASCII letters change.
pub open spec fn ascii_lower_char(c: char) -> char {
    if 'A' <= c && c <= 'Z' {
        (((c as u8) + 0x20) as char)
    } else {
        c
    }
}

/// The text folded to ASCII lower case.
pub open spec fn lower_chars(s: Seq<char>) -> Seq<char> {
    s.map_values(|c: char| ascii_lower_char(c))
}

/// The text with its trailing whitespace removed.
pub open spec fn drop_trailing_ws_chars(s: Seq<char>) -> Seq<char>
    decreases s.len(),
{
    if s.len() > 0 && is_ws_char(s[s.len() - 1]) {
        drop_trailing_ws_chars(s.drop_last())
    } else {
        s
    }
}

/// The text with its leading whitespace removed.
pub open spec fn drop_leading_ws_chars(s: Seq<char>) -> Seq<char>
    decreases s.len(),
{
    if s.len() > 0 && is_ws_char(s[0]) {
        drop_leading_ws_chars(s.drop_first())
    } else {
        s
    }
}

/// The text with whitespace removed from both ends.
pub open spec fn trim_chars(s: Seq<char>) -> Seq<char> {
    drop_trailing_ws_chars(drop_leading_ws_chars(s))
}

/// The key under which a field name compares: folded to lower case,
/// then trimmed of whitespace at both ends.
pub open spec fn fold_key_chars(s: Seq<char>) -> Seq<char> {
    trim_chars(lower_chars(s))
}

/// Two names are the same lookup key when they fold to the same
/// lower-cased, trimmed text.
pub open spec fn keys_match(a: Seq<char>, b: Seq<char>) -> bool {
    fold_key_chars(a) == fold_key_chars(b)
}

/// The length of the prefix before the first NUL byte; the whole length
/// when no NUL occurs.
pub open spec fn nul_prefix_len(s: Seq<u8>) -> int
    decreases s.len(),
{
    if s.len() == 0 {
        0
    } else if s[0] == 0 {
        0
    } else {
        1 + nul_prefix_len(s.drop_first())
    }
}

/// A scan that stopped at the first NUL (or ran off the end) found the
/// NUL-prefix length.
proof fn lemma_nul_prefix_len(s: Seq<u8>, k: int)
    requires
        0 <= k <= s.len(),
        forall|j: int| 0 <= j < k ==> s[j] != 0,
        k < s.len() ==> s[k] == 0,
    ensures
        nul_prefix_len(s) == k,
    decreases k,
{
    if k > 0 {
        lemma_nul_prefix_len(s.drop_first(), k - 1);
    }
}

/// Relies on `String::from_utf8`: it succeeds exactly on input that is
/// valid UTF-8, and then yields the decoded characters. vstd's
/// `valid_utf8` and `decode_utf8` model the same encoding that vstd's
/// own string specifications are stated over.
#[verifier::external_body]
pub(crate) fn string_from_utf8(bytes: Vec<u8>) -> (r: Option<String>)
    ensures
        r is Some <==> valid_utf8(bytes@),
        r matches Some(t) ==> t@ == decode_utf8(bytes@),
{
    match String::from_utf8(bytes) {
        Ok(s) => Some(s),
        Err(_) => None,
    }
}

/// Relies on `str::trim_end`: it removes exactly the trailing
/// characters with the Unicode White_Space property, which
/// `is_ws_char` spells out.
#[verifier::external_body]
pub(crate) fn trim_end_str<'a>(s: &'a str) -> (r: &'a str)
    ensures
        r@ == drop_trailing_ws_chars(s@),
{
    s.trim_end()
}

/// Relies on `str::trim`: it removes exactly the leading and trailing
/// characters with the Unicode White_Space property, which
/// `is_ws_char` spells out.
#[verifier::external_body]
pub(crate) fn trim_str<'a>(s: &'a str) -> (r: &'a str)
    ensures
        r@ == trim_chars(s@),
{
    s.trim()
}

/// Relies on `str::to_ascii_lowercase`: it maps the ASCII upper-case
/// letters to their lower-case forms and leaves every other character
/// unchanged.
#[verifier::external_body]
pub(crate) fn ascii_lowercase_str(s: &str) -> (r: String)
    ensures
        r@ == lower_chars(s@),
{
    s.to_ascii_lowercase()
}

/// The trimmed, lower-cased key of a name, for case-insensitive lookup.
pub fn str_fold_key(s: &str) -> (r: String)
    ensures
        r@ == fold_key_chars(s@),
{
    let low = ascii_lowercase_str(s);
    let tr = trim_str(low.as_str());
    tr.to_owned()
}

/// Trim a string at both ends; all-whitespace text yields nothing
/// rather than an empty string.
pub fn trim_to_option(s: &str) -> (r: Option<String>)
    ensures
        r is None <==> trim_chars(s@).len() == 0,
        r matches Some(t) ==> t@ == trim_chars(s@) && t@.len() > 0,
{
    let tr = trim_str(s);
    if tr.is_empty() {
        None
    } else {
        Some(tr.to_owned())
    }
}

/// Decode an 11-byte NUL-terminated, NUL-padded name: the text before
/// the first NUL, which must exist and be valid UTF-8.
pub fn name_from_bytes(buf: &Vec<u8>) -> (r: Option<String>)
    ensures
        r is Some <==> nul_prefix_len(buf@) < buf@.len() && valid_utf8(
            buf@.take(nul_prefix_len(buf@)),
        ),
        r matches Some(t) ==> t@ == decode_utf8(buf@.take(nul_prefix_len(buf@))),
{
    let len = buf.len();
    let mut k: usize = 0;
    while k < len && buf[k] != 0
        invariant
            k <= len,
            len == buf@.len(),
            forall|j: int| 0 <= j < k ==> buf@[j] != 0,
        decreases len - k,
    {
        k = k + 1;
    }
    proof {
        lemma_nul_prefix_len(buf@, k as int);
    }
    if k == len {
        return None;
    }
    let mut v: Vec<u8> = Vec::new();
    for i in 0..k
        invariant
            k < len,
            len == buf@.len(),
            v@.len() == i,
            forall|j: int| 0 <= j < i ==> v@[j] == buf@[j],
        {
        v.push(buf[i]);
    }
    proof {
        assert(v@ =~= buf@.take(k as int));
    }
    string_from_utf8(v)
}

/// Decode a fixed-width entry: the bytes must be valid UTF-8, and
/// trailing whitespace is dropped.
pub fn utf8_trimmed_end(buf: Vec<u8>) -> (r: Option<String>)
    ensures
        r is Some <==> valid_utf8(buf@),
        r matches Some(t) ==> t@ == drop_trailing_ws_chars(decode_utf8(buf@)),
{
    match string_from_utf8(buf) {
        Some(t) => {
            let tr = trim_end_str(t.as_str());
            Some(tr.to_owned())
        },
        None => None,
    }
}

} // verus!
