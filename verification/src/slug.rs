//! Group-location slugs.
use vstd::prelude::*;
use vstd::string::*;
use vstd::utf8::encode_utf8;
use crate::text::str_chars;

verus! {

/// A character allowed in a slug: ASCII letter or digit, `-` or `_`.
pub open spec fn is_slug_char(c: char) -> bool {
    ('a' <= c && c <= 'z') || ('A' <= c && c <= 'Z') || ('0' <= c && c <= '9') || c == '-' || c == '_'
}

/// A slug is non-empty, at most 100 bytes long and made of slug characters only.
pub open spec fn is_slug(s: Seq<char>) -> bool {
    &&& s.len() > 0
    &&& encode_utf8(s).len() <= 100
    &&& forall|i: int| 0 <= i < s.len() ==> is_slug_char(#[trigger] s[i])
}

/// Decides whether `value` may be used as a group location in paths and branch names.
pub fn valid_slug(value: &str) -> (ok: bool)
    ensures
        ok == is_slug(value@),
{
    if value.is_empty() || value.as_bytes().len() > 100 {
        return false;
    }
    let chars = str_chars(value);
    let mut i: usize = 0;
    while i < chars.len()
        invariant
            chars@ == value@,
            value@.len() > 0,
            value.spec_bytes().len() <= 100,
            i <= chars.len(),
            forall|j: int| 0 <= j < i ==> is_slug_char(#[trigger] value@[j]),
        decreases chars.len() - i,
    {
        let c = chars[i];
        if !(('a' <= c && c <= 'z') || ('A' <= c && c <= 'Z') || ('0' <= c && c <= '9') || c == '-' || c == '_') {
            return false;
        }
        i += 1;
    }
    true
}

} // verus!
