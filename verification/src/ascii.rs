//! ASCII validation: the trust boundary for every text field of a message.
//!
//! A byte sequence is accepted as text only after every byte has been checked
//! to be ASCII; the conversion itself then cannot fail.

use vstd::prelude::*;

verus! {

use vstd::string::StringSliceAdditionalSpecFns;

/// Every byte of the sequence is ASCII (high bit clear).
pub open spec fn ascii_bytes(s: Seq<u8>) -> bool {
    forall|i: int| 0 <= i < s.len() ==> s[i] < 128
}

/// The characters spelled by a sequence of ASCII bytes, one per byte.
pub open spec fn chars_of(s: Seq<u8>) -> Seq<char> {
    s.map_values(|b: u8| b as char)
}

/// Error returned when a byte sequence that should be text holds a
/// non-ASCII byte.
#[derive(Debug, PartialEq, Eq, Structural)]
pub struct NonAsciiCharacterError;

/// Relies on `String::from_utf8`: bytes below 0x80 decode to the string
/// whose characters are exactly those bytes, one character per byte.
#[verifier::external_body]
fn utf8_string_from_ascii(v: Vec<u8>) -> (r: String)
    requires
        ascii_bytes(v@),
    ensures
        r@ == chars_of(v@),
{
    match String::from_utf8(v) {
        Ok(s) => s,
        Err(_) => String::new(),
    }
}

/// Decides whether two string slices spell the same character sequence.
pub fn str_eq(a: &str, b: &str) -> (r: bool)
    ensures
        r == (a@ == b@),
{
    proof {
        vstd::utf8::encode_utf8_decode_utf8(a@);
        vstd::utf8::encode_utf8_decode_utf8(b@);
    }
    let ab = a.as_bytes();
    let bb = b.as_bytes();
    if ab.len() != bb.len() {
        return false;
    }
    let mut i: usize = 0;
    while i < ab.len()
        invariant
            0 <= i <= ab@.len(),
            ab@.len() == bb@.len(),
            ab@ == a.spec_bytes(),
            bb@ == b.spec_bytes(),
            vstd::utf8::decode_utf8(a.spec_bytes()) == a@,
            vstd::utf8::decode_utf8(b.spec_bytes()) == b@,
            forall|j: int| 0 <= j < i ==> ab@[j] == bb@[j],
        decreases ab@.len() - i,
    {
        if ab[i] != bb[i] {
            return false;
        }
        i += 1;
    }
    proof {
        assert(ab@ =~= bb@);
    }
    true
}

/// Converts a byte slice to text, failing on the first non-ASCII byte and
/// performing no partial conversion.
pub fn string_from_ascii(v: &[u8]) -> (r: Result<String, NonAsciiCharacterError>)
    ensures
        match r {
            Ok(s) => ascii_bytes(v@) && s@ == chars_of(v@),
            Err(_) => !ascii_bytes(v@),
        },
{
    let mut i: usize = 0;
    while i < v.len()
        invariant
            0 <= i <= v@.len(),
            forall|j: int| 0 <= j < i ==> v@[j] < 128,
        decreases v@.len() - i,
    {
        if v[i] >= 128 {
            return Err(NonAsciiCharacterError);
        }
        i += 1;
    }
    let mut owned: Vec<u8> = Vec::new();
    owned.extend_from_slice(v);
    Ok(utf8_string_from_ascii(owned))
}

} // verus!
