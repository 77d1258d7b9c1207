//! Hex-encoded Ed25519 keys and signatures, and strict signature checks.
use vstd::prelude::*;
use vstd::string::*;

use ed25519_dalek::{Signature, VerifyingKey};

verus! {

/// The value of an ASCII hexadecimal digit (either case), if `b` is one.
pub open spec fn hex_digit(b: u8) -> Option<int> {
    if 48 <= b <= 57 {
        Some(b - 48)
    } else if 97 <= b <= 102 {
        Some(b - 87)
    } else if 65 <= b <= 70 {
        Some(b - 55)
    } else {
        None
    }
}

/// `u8::from_str_radix(s, 16)` on the two-byte text `b0 b1`: an optional
/// leading `+` followed by hexadecimal digits.
pub open spec fn radix16_pair(b0: u8, b1: u8) -> Option<u8> {
    if b0 == 43 {
        match hex_digit(b1) {
            Some(v) => Some(v as u8),
            None => None,
        }
    } else {
        match (hex_digit(b0), hex_digit(b1)) {
            (Some(h), Some(l)) => Some((16 * h + l) as u8),
            _ => None,
        }
    }
}

/// Byte `i` of `b` starts a character, or `i` is the end of `b`.
pub open spec fn at_char_boundary(b: Seq<u8>, i: int) -> bool {
    i == 0 || i == b.len() || (0 < i < b.len() && !(0x80 <= b[i] < 0xC0))
}

/// The `k`-th pair of a 64-character public key text.
pub open spec fn key_pair(b: Seq<u8>, k: int) -> Option<u8> {
    radix16_pair(b[2 * k], b[2 * k + 1])
}

/// The first `k` pairs of the key text all parse.
pub open spec fn key_pairs_parse(b: Seq<u8>, k: int) -> bool {
    forall|j: int| 0 <= j < k ==> (#[trigger] key_pair(b, j)) is Some
}

/// Reading the key text slices it two bytes at a time; such a slice
/// cannot cut a character in two. This holds when slicing stops early or
/// never cuts inside a character.
pub open spec fn key_text_slices_cleanly(s: &str) -> bool {
    let b = s.spec_bytes();
    b.len() == 64 ==> forall|k: int| 0 <= k < 32 && key_pairs_parse(b, k) ==> #[trigger] pair_sliceable(b, k)
}

/// The `k`-th two-byte slice of `b` starts and ends at character boundaries.
pub open spec fn pair_sliceable(b: Seq<u8>, k: int) -> bool {
    at_char_boundary(b, 2 * k) && at_char_boundary(b, 2 * k + 2)
}

/// The 32 bytes spelled by a 64-character key text whose pairs all parse.
pub open spec fn key_bytes_of(b: Seq<u8>) -> Seq<u8> {
    Seq::new(32, |k: int| key_pair(b, k)->0)
}

/// The compressed point `key` decompresses to a curve point
/// (`VerifyingKey::from_bytes` succeeds).
pub uninterp spec fn ed25519_key_decompresses(key: Seq<u8>) -> bool;

/// `VerifyingKey::from_bytes(key)` succeeds and `verify_strict(message, signature)`
/// accepts.
pub uninterp spec fn ed25519_verify_strict(key: Seq<u8>, message: Seq<u8>, signature: Seq<u8>) -> bool;

/// What `parse_public_key` returns for the text `s`.
pub open spec fn public_key_of(s: &str) -> Option<Seq<u8>> {
    public_key_of_text(s.spec_bytes())
}

/// What `parse_public_key` returns for a text with the UTF-8 bytes `b`.
pub open spec fn public_key_of_text(b: Seq<u8>) -> Option<Seq<u8>> {
    if b.len() == 64 && key_pairs_parse(b, 32) && ed25519_key_decompresses(key_bytes_of(b)) {
        Some(key_bytes_of(b))
    } else {
        None
    }
}

/// Calls `ed25519_dalek::VerifyingKey::from_bytes` and reports whether it
/// succeeded. Claimed: the answer is a function of the 32 bytes alone.
#[verifier::external_body]
fn key_decompresses(bytes: &[u8; 32]) -> (ok: bool)
    ensures
        ok == ed25519_key_decompresses(bytes@),
{
    VerifyingKey::from_bytes(bytes).is_ok()
}

/// Calls `ed25519_dalek::VerifyingKey::verify_strict` for the key made from
/// `key` by `VerifyingKey::from_bytes` and the signature made from
/// `signature` by `Signature::from_bytes`. Claimed: the answer is a
/// function of the three byte strings alone.
#[verifier::external_body]
pub(crate) fn verify_strict(key: &[u8; 32], message: &[u8], signature: &[u8; 64]) -> (ok: bool)
    ensures
        ok == ed25519_verify_strict(key@, message@, signature@),
{
    match VerifyingKey::from_bytes(key) {
        Ok(k) => k.verify_strict(message, &Signature::from_bytes(signature)).is_ok(),
        Err(_) => false,
    }
}

/// An ASCII letter `a`..=`f`.
pub open spec fn is_lower_hex_letter(b: u8) -> bool {
    97 <= b <= 102
}

/// An ASCII letter `A`..=`F`.
pub open spec fn is_upper_hex_letter(b: u8) -> bool {
    65 <= b <= 70
}

/// Text accepted by `Signature::from_str`: 128 hexadecimal digits, letters
/// all of one case.
pub open spec fn signature_text_ok(b: Seq<u8>) -> bool {
    &&& b.len() == 128
    &&& forall|i: int| 0 <= i < b.len() ==> (#[trigger] hex_digit(b[i])) is Some
    &&& !((exists|i: int| 0 <= i < b.len() && is_lower_hex_letter(#[trigger] b[i])) && (exists|
        j: int,
    | 0 <= j < b.len() && is_upper_hex_letter(#[trigger] b[j])))
}

/// The 64 bytes spelled by a signature text.
pub open spec fn signature_bytes_of(b: Seq<u8>) -> Seq<u8> {
    Seq::new(64, |k: int| (16 * hex_digit(b[2 * k])->0 + hex_digit(b[2 * k + 1])->0) as u8)
}

/// Calls `<ed25519_dalek::Signature as FromStr>::from_str` and returns the
/// signature's bytes. Claimed, as its source shows: it accepts exactly 128
/// hexadecimal digits whose letters are all lower case or all upper case,
/// and decodes them pairwise.
#[verifier::external_body]
pub(crate) fn parse_signature(s: &str) -> (sig: Option<[u8; 64]>)
    ensures
        sig is Some <==> signature_text_ok(s.spec_bytes()),
        sig matches Some(b) ==> b@ == signature_bytes_of(s.spec_bytes()),
{
    match s.parse::<Signature>() {
        Ok(signature) => Some(signature.to_bytes()),
        Err(_) => None,
    }
}

/// The hexadecimal digit of `n`, `0 <= n < 16`, as a byte: its letters
/// upper case when `upper`, else lower case.
pub open spec fn hex_byte(n: int, upper: bool) -> u8 {
    if n < 10 {
        (48 + n) as u8
    } else if upper {
        (55 + n) as u8
    } else {
        (87 + n) as u8
    }
}

/// The hexadecimal text of `bytes`, two digits per byte, high digit first,
/// its letters upper case when `upper`, else lower case.
pub open spec fn hex_text(bytes: Seq<u8>, upper: bool) -> Seq<u8> {
    Seq::new(2 * bytes.len(), |i: int| if i % 2 == 0 {
        hex_byte(bytes[i / 2] as int / 16, upper)
    } else {
        hex_byte(bytes[i / 2] as int % 16, upper)
    })
}

proof fn lemma_hex_byte(n: int, upper: bool)
    requires
        0 <= n < 16,
    ensures
        hex_digit(hex_byte(n, upper)) == Some(n),
        upper ==> !is_lower_hex_letter(hex_byte(n, upper)),
        !upper ==> !is_upper_hex_letter(hex_byte(n, upper)),
        hex_byte(n, upper) != 43,
{
}

/// Reading a key text undoes writing it: the hex text of 32 bytes, in
/// either case, reads back as those bytes, and is accepted exactly when
/// they are a valid compressed point.
pub proof fn lemma_public_key_text_roundtrip(key: Seq<u8>, upper: bool)
    requires
        key.len() == 32,
    ensures
        key_pairs_parse(hex_text(key, upper), 32),
        key_bytes_of(hex_text(key, upper)) == key,
        ed25519_key_decompresses(key) ==> public_key_of_text(hex_text(key, upper)) == Some(key),
        !ed25519_key_decompresses(key) ==> public_key_of_text(hex_text(key, upper)) is None,
{
    let b = hex_text(key, upper);
    assert forall|k: int| 0 <= k < 32 implies (#[trigger] key_pair(b, k)) == Some(key[k]) by {
        assert((2 * k) % 2 == 0 && (2 * k) / 2 == k);
        assert((2 * k + 1) % 2 == 1 && (2 * k + 1) / 2 == k);
        lemma_hex_byte(key[k] as int / 16, upper);
        lemma_hex_byte(key[k] as int % 16, upper);
        assert(16 * (key[k] as int / 16) + key[k] as int % 16 == key[k] as int);
    }
    assert(key_bytes_of(b) =~= key);
}

/// Whatever a key text reads as, it is 64 bytes long and spells the key's
/// bytes pairwise.
pub proof fn lemma_public_key_read_spells_its_bytes(b: Seq<u8>)
    ensures
        public_key_of_text(b) matches Some(key) ==> {
            &&& b.len() == 64
            &&& key.len() == 32
            &&& forall|k: int| 0 <= k < 32 ==> radix16_pair(b[2 * k], b[2 * k + 1]) == Some(#[trigger] key[k])
        },
{
    if public_key_of_text(b) is Some {
        let key = key_bytes_of(b);
        assert forall|k: int| 0 <= k < 32 implies radix16_pair(b[2 * k], b[2 * k + 1]) == Some(#[trigger] key[k]) by {
            assert(key_pair(b, k) is Some);
        }
    }
}

/// Reading a signature text undoes writing it: the hex text of 64 bytes,
/// in either case, is a signature text spelling those bytes.
pub proof fn lemma_signature_text_roundtrip(sig: Seq<u8>, upper: bool)
    requires
        sig.len() == 64,
    ensures
        signature_text_ok(hex_text(sig, upper)),
        signature_bytes_of(hex_text(sig, upper)) == sig,
{
    let b = hex_text(sig, upper);
    assert forall|i: int| 0 <= i < b.len() implies (#[trigger] hex_digit(b[i])) is Some && (upper
        ==> !is_lower_hex_letter(b[i])) && (!upper ==> !is_upper_hex_letter(b[i])) by {
        lemma_hex_byte(sig[i / 2] as int / 16, upper);
        lemma_hex_byte(sig[i / 2] as int % 16, upper);
    }
    assert forall|k: int| 0 <= k < 64 implies #[trigger] signature_bytes_of(b)[k] == sig[k] by {
        assert((2 * k) % 2 == 0 && (2 * k) / 2 == k);
        assert((2 * k + 1) % 2 == 1 && (2 * k + 1) / 2 == k);
        lemma_hex_byte(sig[k] as int / 16, upper);
        lemma_hex_byte(sig[k] as int % 16, upper);
    }
    assert(signature_bytes_of(b) =~= sig);
}

/// Exec twin of `hex_digit`.
fn hex_digit_exec(b: u8) -> (r: Option<u8>)
    ensures
        r matches Some(v) ==> hex_digit(b) == Some(v as int),
        r is None ==> hex_digit(b) is None,
{
    if 48 <= b && b <= 57 {
        Some(b - 48)
    } else if 97 <= b && b <= 102 {
        Some(b - 87)
    } else if 65 <= b && b <= 70 {
        Some(b - 55)
    } else {
        None
    }
}

/// Exec twin of `radix16_pair`.
fn radix16_pair_exec(b0: u8, b1: u8) -> (r: Option<u8>)
    ensures
        r == radix16_pair(b0, b1),
{
    if b0 == 43 {
        hex_digit_exec(b1)
    } else {
        match (hex_digit_exec(b0), hex_digit_exec(b1)) {
            (Some(h), Some(l)) => Some(16 * h + l),
            _ => None,
        }
    }
}

/// Decides `key_text_slices_cleanly`: whether reading the key text two
/// bytes at a time cuts no character before a pair fails to parse.
pub fn key_text_is_sliceable(s: &str) -> (ok: bool)
    ensures
        ok == key_text_slices_cleanly(s),
{
    let b = s.as_bytes();
    if b.len() != 64 {
        return true;
    }
    let mut k: usize = 0;
    while k < 32
        invariant
            b@ == s.spec_bytes(),
            b@.len() == 64,
            k <= 32,
            key_pairs_parse(b@, k as int),
            forall|j: int| 0 <= j < k ==> #[trigger] pair_sliceable(b@, j),
        decreases 32 - k,
    {
        let start = 2 * k;
        let end = 2 * k + 2;
        let start_ok = start == 0 || !(0x80 <= b[start] && b[start] < 0xC0);
        let end_ok = end == 64 || !(0x80 <= b[end] && b[end] < 0xC0);
        if !start_ok || !end_ok {
            assert(!pair_sliceable(b@, k as int));
            assert(key_pairs_parse(b@, k as int));
            return false;
        }
        assert(pair_sliceable(b@, k as int));
        if radix16_pair_exec(b[start], b[start + 1]).is_none() {
            assert(pair_sliceable(b@, k as int));
            assert forall|j: int| 0 <= j < 32 && key_pairs_parse(b@, j) implies #[trigger] pair_sliceable(b@, j) by {
                if j > k {
                    assert(key_pair(b@, k as int) is None);
                }
            }
            return true;
        }
        assert(key_pair(b@, k as int) is Some);
        k += 1;
    }
    true
}

/// Reads the 64-character hexadecimal public key of a Discord application:
/// each two-character slice is read with `u8::from_str_radix(_, 16)`, and
/// the 32 bytes must form a valid compressed Ed25519 point.
pub fn parse_public_key(s: &str) -> (key: Option<[u8; 32]>)
    requires
        key_text_slices_cleanly(s),
    ensures
        key matches Some(k) ==> public_key_of(s) == Some(k@),
        key is None ==> public_key_of(s) is None,
{
    let b = s.as_bytes();
    if b.len() != 64 {
        return None;
    }
    let mut bytes: [u8; 32] = [0u8; 32];
    let mut i: usize = 0;
    while i < 32
        invariant
            b@ == s.spec_bytes(),
            b@.len() == 64,
            i <= 32,
            key_pairs_parse(b@, i as int),
            forall|k: int| 0 <= k < i ==> bytes@[k] == (#[trigger] key_pair(b@, k))->0,
        decreases 32 - i,
    {
        match radix16_pair_exec(b[2 * i], b[2 * i + 1]) {
            Some(v) => {
                bytes[i] = v;
            },
            None => {
                assert(!key_pairs_parse(b@, 32)) by {
                    assert(key_pair(b@, i as int) is None);
                }
                return None;
            },
        }
        i += 1;
    }
    assert(bytes@ == key_bytes_of(b@));
    if key_decompresses(&bytes) {
        Some(bytes)
    } else {
        None
    }
}

} // verus!
