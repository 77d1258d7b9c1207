//! JSON text: string literals as `serde_json` writes them, and opaque JSON
//! values carried through unread.
use vstd::prelude::*;

verus! {

/// `serde_json::Value`, carried by the library without being read.
#[verifier::external_type_specification]
#[verifier::external_body]
pub struct ExJsonValue(serde_json::Value);

/// A lower-case hexadecimal digit for `0 <= n < 16`.
pub open spec fn lower_hex_char(n: int) -> char {
    if n < 10 {
        (48 + n) as char
    } else {
        (87 + n) as char
    }
}

/// How one character is written inside a JSON string literal.
pub open spec fn json_escape_char(c: char) -> Seq<char> {
    if c == '"' {
        seq!['\\', '"']
    } else if c == '\\' {
        seq!['\\', '\\']
    } else if c == '\u{8}' {
        seq!['\\', 'b']
    } else if c == '\t' {
        seq!['\\', 't']
    } else if c == '\n' {
        seq!['\\', 'n']
    } else if c == '\u{c}' {
        seq!['\\', 'f']
    } else if c == '\r' {
        seq!['\\', 'r']
    } else if (c as u32) < 0x20 {
        seq!['\\', 'u', '0', '0', lower_hex_char((c as int) / 16), lower_hex_char((c as int) % 16)]
    } else {
        seq![c]
    }
}

/// The characters of `s`, each escaped for a JSON string literal.
pub open spec fn json_escape(s: Seq<char>) -> Seq<char>
    decreases s.len(),
{
    if s.len() == 0 {
        seq![]
    } else {
        json_escape(s.drop_last()) + json_escape_char(s.last())
    }
}

/// The JSON string literal for `s`.
pub open spec fn json_quote(s: Seq<char>) -> Seq<char> {
    seq!['"'] + json_escape(s) + seq!['"']
}

/// The value of a hexadecimal digit (either case).
pub open spec fn hex_char_value(c: char) -> Option<int> {
    if '0' <= c <= '9' {
        Some(c as int - 48)
    } else if 'a' <= c <= 'f' {
        Some(c as int - 87)
    } else if 'A' <= c <= 'F' {
        Some(c as int - 55)
    } else {
        None
    }
}

/// The character a one-letter JSON escape `\e` stands for.
pub open spec fn json_short_escape(e: char) -> Option<char> {
    if e == '"' {
        Some('"')
    } else if e == '\\' {
        Some('\\')
    } else if e == '/' {
        Some('/')
    } else if e == 'b' {
        Some('\u{8}')
    } else if e == 'f' {
        Some('\u{c}')
    } else if e == 'n' {
        Some('\n')
    } else if e == 'r' {
        Some('\r')
    } else if e == 't' {
        Some('\t')
    } else {
        None
    }
}

/// The code point of the four hexadecimal digits of `t` from `i` on.
pub open spec fn hex4_value(t: Seq<char>, i: int) -> Option<int> {
    match (hex_char_value(t[i]), hex_char_value(t[i + 1]), hex_char_value(t[i + 2]), hex_char_value(t[i + 3])) {
        (Some(a), Some(b), Some(c), Some(d)) => Some(4096 * a + 256 * b + 16 * c + d),
        _ => None,
    }
}

/// `c` in front of the text `r`, if there is one.
pub open spec fn prepend_char(c: char, r: Option<Seq<char>>) -> Option<Seq<char>> {
    match r {
        Some(r) => Some(seq![c] + r),
        None => None,
    }
}

/// Reads the text between the quotes of a JSON string literal (RFC 8259):
/// a character other than `"`, `\` and the control characters stands for
/// itself; `\"`, `\\`, `\/`, `\b`, `\f`, `\n`, `\r`, `\t` and `\uXXXX`
/// (outside the surrogate range) stand for the character they escape.
/// `None` when the text is not such contents (escaped surrogate pairs are
/// not read).
pub open spec fn json_unescape(t: Seq<char>) -> Option<Seq<char>>
    decreases t.len(),
{
    if t.len() == 0 {
        Some(seq![])
    } else if t[0] == '"' || (t[0] as int) < 0x20 {
        None
    } else if t[0] != '\\' {
        prepend_char(t[0], json_unescape(t.drop_first()))
    } else if t.len() < 2 {
        None
    } else if json_short_escape(t[1]) is Some {
        prepend_char(json_short_escape(t[1])->0, json_unescape(t.subrange(2, t.len() as int)))
    } else if t[1] == 'u' && t.len() >= 6 && hex4_value(t, 2) is Some && !(0xD800 <= hex4_value(t, 2)->0
        < 0xE000) {
        prepend_char(hex4_value(t, 2)->0 as char, json_unescape(t.subrange(6, t.len() as int)))
    } else {
        None
    }
}

/// `lit` is a JSON string literal whose value is `value`: the text read
/// between its two quotes.
pub open spec fn is_json_string_literal(lit: Seq<char>, value: Seq<char>) -> bool {
    &&& lit.len() >= 2
    &&& lit[0] == '"'
    &&& lit[lit.len() - 1] == '"'
    &&& json_unescape(lit.subrange(1, lit.len() - 1)) == Some(value)
}

proof fn lemma_escape_concat(a: Seq<char>, b: Seq<char>)
    ensures
        json_escape(a + b) == json_escape(a) + json_escape(b),
    decreases b.len(),
{
    if b.len() == 0 {
        assert(a + b == a);
    } else {
        lemma_escape_concat(a, b.drop_last());
        assert((a + b).drop_last() == a + b.drop_last());
    }
}

proof fn lemma_lower_hex_value(n: int)
    requires
        0 <= n < 16,
    ensures
        hex_char_value(lower_hex_char(n)) == Some(n),
{
}

/// Reading one escaped character gives that character back.
proof fn lemma_unescape_char(c: char, r: Seq<char>)
    ensures
        json_unescape(json_escape_char(c) + r) == prepend_char(c, json_unescape(r)),
{
    let t = json_escape_char(c) + r;
    let e = json_escape_char(c);
    if e.len() == 2 {
        assert(t.subrange(2, t.len() as int) == r);
    } else if e.len() == 6 {
        lemma_lower_hex_value((c as int) / 16);
        lemma_lower_hex_value((c as int) % 16);
        assert(t.subrange(6, t.len() as int) == r);
        assert(hex4_value(t, 2) == Some(c as int));
        assert((c as int) as char == c);
    } else {
        assert(t.drop_first() == r);
    }
}

/// Reading the escaped text of `s` gives `s` back.
proof fn lemma_unescape_escape(s: Seq<char>)
    ensures
        json_unescape(json_escape(s)) == Some(s),
    decreases s.len(),
{
    if s.len() > 0 {
        let rest = s.drop_first();
        lemma_escape_concat(seq![s[0]], rest);
        assert(seq![s[0]] + rest == s);
        assert(json_escape(seq![s[0]]) == json_escape_char(s[0])) by {
            assert(seq![s[0]].drop_last() == Seq::<char>::empty());
            assert(seq![s[0]].last() == s[0]);
            assert(json_escape(Seq::<char>::empty()) == Seq::<char>::empty());
            assert(Seq::<char>::empty() + json_escape_char(s[0]) =~= json_escape_char(s[0]));
        }
        lemma_unescape_char(s[0], json_escape(rest));
        lemma_unescape_escape(rest);
    }
}

/// The literal the serializer writes for `s` is a JSON string literal whose
/// value is `s`.
pub proof fn lemma_json_quote_reads_back(s: Seq<char>)
    ensures
        is_json_string_literal(json_quote(s), s),
{
    let lit = json_quote(s);
    assert(lit.subrange(1, lit.len() - 1) == json_escape(s));
    lemma_unescape_escape(s);
}

/// Calls `serde_json::to_string` on a string slice. Claimed, as the escape
/// table of `serde_json`'s serializer shows: the result is `s` in double
/// quotes with `"` and `\` backslash-escaped, the control characters
/// U+0008, U+0009, U+000A, U+000C, U+000D written `\b \t \n \f \r`, the
/// other characters below U+0020 written `\u00xx` in lower-case hex, and
/// every other character unchanged. Serializing a `str` into memory does
/// not fail.
#[verifier::external_body]
pub(crate) fn json_string(s: &str) -> (out: String)
    ensures
        out@ == json_quote(s@),
{
    serde_json::to_string(s).unwrap()
}

} // verus!
