use vstd::prelude::*;

verus! {

/// The UTF-8 bytes of a character sequence; string contracts in this crate
/// are stated over these bytes.
pub open spec fn utf8_bytes(s: Seq<char>) -> Seq<u8> {
    vstd::utf8::encode_utf8(s)
}

/// A `tchar` of the HTTP token grammar: the characters legal in method
/// names and header field names (letters, digits, and
/// `! # $ % & ' * + - . ^ _ ` | ~`).
pub open spec fn is_tchar(b: u8) -> bool {
    ||| b == 33
    ||| 35 <= b <= 39
    ||| b == 42
    ||| b == 43
    ||| b == 45
    ||| b == 46
    ||| 48 <= b <= 57
    ||| 65 <= b <= 90
    ||| 94 <= b <= 96
    ||| 97 <= b <= 122
    ||| b == 124
    ||| b == 126
}

/// A byte legal in an HTTP header field value: horizontal tab or any
/// visible or high byte (32..=255 except DEL).
pub open spec fn is_field_value_byte(b: u8) -> bool {
    b == 9 || (32 <= b && b != 127)
}

/// ASCII lowercasing of one byte; other bytes are unchanged.
pub open spec fn spec_lower_byte(b: u8) -> u8 {
    if 65 <= b <= 90 {
        (b + 32) as u8
    } else {
        b
    }
}

/// ASCII uppercasing of one byte; other bytes are unchanged.
pub open spec fn spec_upper_byte(b: u8) -> u8 {
    if 97 <= b <= 122 {
        (b - 32) as u8
    } else {
        b
    }
}

pub open spec fn lower_bytes(s: Seq<u8>) -> Seq<u8> {
    s.map_values(|b: u8| spec_lower_byte(b))
}

pub open spec fn upper_bytes(s: Seq<u8>) -> Seq<u8> {
    s.map_values(|b: u8| spec_upper_byte(b))
}

/// A valid HTTP token: nonempty, all token characters.
pub open spec fn token_ok(b: Seq<u8>) -> bool {
    b.len() > 0 && (forall|i: int| 0 <= i < b.len() ==> is_tchar(#[trigger] b[i]))
}

/// A valid header field name is a token.
pub open spec fn header_name_ok(b: Seq<u8>) -> bool {
    token_ok(b)
}

/// A valid header field value: every byte legal (an empty value is legal).
pub open spec fn header_value_ok(b: Seq<u8>) -> bool {
    forall|i: int| 0 <= i < b.len() ==> is_field_value_byte(#[trigger] b[i])
}

pub fn lower_byte(b: u8) -> (r: u8)
    ensures
        r == spec_lower_byte(b),
{
    if 65 <= b && b <= 90 {
        b + 32
    } else {
        b
    }
}

pub fn upper_byte(b: u8) -> (r: u8)
    ensures
        r == spec_upper_byte(b),
{
    if 97 <= b && b <= 122 {
        b - 32
    } else {
        b
    }
}

pub fn is_tchar_exec(b: u8) -> (r: bool)
    ensures
        r == is_tchar(b),
{
    b == 33 || (35 <= b && b <= 39) || b == 42 || b == 43 || b == 45 || b == 46 || (48 <= b && b
        <= 57) || (65 <= b && b <= 90) || (94 <= b && b <= 96) || (97 <= b && b <= 122) || b == 124
        || b == 126
}

/// Byte-for-byte equality of two slices.
pub fn bytes_eq(a: &[u8], b: &[u8]) -> (r: bool)
    ensures
        r == (a@ == b@),
{
    if a.len() != b.len() {
        return false;
    }
    let mut i: usize = 0;
    while i < a.len()
        invariant
            i <= a@.len(),
            a@.len() == b@.len(),
            forall|j: int| 0 <= j < i ==> a@[j] == b@[j],
        decreases a@.len() - i,
    {
        if a[i] != b[i] {
            return false;
        }
        i += 1;
    }
    proof {
        assert(a@ =~= b@);
    }
    true
}

/// Whether the UTF-8 bytes of `s` form a valid HTTP token.
pub fn check_token(s: &str) -> (r: bool)
    ensures
        r == token_ok(utf8_bytes(s@)),
{
    let b = s.as_bytes();
    if b.len() == 0 {
        return false;
    }
    let mut i: usize = 0;
    while i < b.len()
        invariant
            i <= b@.len(),
            b@ == utf8_bytes(s@),
            forall|j: int| 0 <= j < i ==> is_tchar(#[trigger] b@[j]),
        decreases b@.len() - i,
    {
        if !is_tchar_exec(b[i]) {
            return false;
        }
        i += 1;
    }
    true
}

/// Whether the UTF-8 bytes of `s` are all legal in a header field value.
pub fn check_header_value(s: &str) -> (r: bool)
    ensures
        r == header_value_ok(utf8_bytes(s@)),
{
    let b = s.as_bytes();
    let mut i: usize = 0;
    while i < b.len()
        invariant
            i <= b@.len(),
            b@ == utf8_bytes(s@),
            forall|j: int| 0 <= j < i ==> is_field_value_byte(#[trigger] b@[j]),
        decreases b@.len() - i,
    {
        let c = b[i];
        if !(c == 9 || (32 <= c && c != 127)) {
            return false;
        }
        i += 1;
    }
    true
}

/// Relies on std's `String::from_utf8`: bytes below 128 are valid UTF-8 and
/// decode to the string whose characters are exactly those bytes, so the
/// call cannot fail and its UTF-8 encoding is the input.
#[verifier::external_body]
fn ascii_to_string(bytes: Vec<u8>) -> (r: String)
    requires
        forall|i: int| 0 <= i < bytes@.len() ==> bytes@[i] < 128,
    ensures
        r@ == bytes@.map_values(|b: u8| b as char),
        utf8_bytes(r@) == bytes@,
{
    String::from_utf8(bytes).unwrap_or_default()
}

/// ASCII-lowercases a string of token characters.
pub fn lower_token(s: &str) -> (r: String)
    requires
        token_ok(utf8_bytes(s@)),
    ensures
        utf8_bytes(r@) == lower_bytes(utf8_bytes(s@)),
{
    let b = s.as_bytes();
    let mut out: Vec<u8> = Vec::new();
    let mut i: usize = 0;
    while i < b.len()
        invariant
            i <= b@.len(),
            b@ == utf8_bytes(s@),
            token_ok(utf8_bytes(s@)),
            out@ =~= lower_bytes(b@).take(i as int),
        decreases b@.len() - i,
    {
        out.push(lower_byte(b[i]));
        proof {
            assert(out@ =~= lower_bytes(b@).take(i + 1 as int));
        }
        i += 1;
    }
    proof {
        assert(out@ =~= lower_bytes(b@));
        assert(forall|j: int| 0 <= j < out@.len() ==> out@[j] < 128) by {
            assert(forall|j: int| 0 <= j < b@.len() ==> is_tchar(#[trigger] b@[j]));
        }
    }
    ascii_to_string(out)
}

/// ASCII-uppercases a string of arbitrary bytes, returning the uppercased
/// string when the result is a valid token and `None` otherwise.
pub fn upper_if_token(s: &str) -> (r: Option<String>)
    ensures
        r matches Some(t) ==> utf8_bytes(t@) == upper_bytes(utf8_bytes(s@)) && token_ok(
            utf8_bytes(t@),
        ),
        r is None ==> !token_ok(upper_bytes(utf8_bytes(s@))),
{
    let b = s.as_bytes();
    if b.len() == 0 {
        return None;
    }
    let mut out: Vec<u8> = Vec::new();
    let mut i: usize = 0;
    while i < b.len()
        invariant
            i <= b@.len(),
            b@.len() > 0,
            b@ == utf8_bytes(s@),
            out@ =~= upper_bytes(b@).take(i as int),
            forall|j: int| 0 <= j < i ==> is_tchar(#[trigger] upper_bytes(b@)[j]),
        decreases b@.len() - i,
    {
        let c = upper_byte(b[i]);
        if !is_tchar_exec(c) {
            proof {
                assert(upper_bytes(b@)[i as int] == spec_upper_byte(b@[i as int]));
                assert(!token_ok(upper_bytes(utf8_bytes(s@))));
            }
            return None;
        }
        out.push(c);
        proof {
            assert(out@ =~= upper_bytes(b@).take(i + 1 as int));
        }
        i += 1;
    }
    proof {
        assert(out@ =~= upper_bytes(b@));
        assert(forall|j: int| 0 <= j < out@.len() ==> out@[j] < 128) by {
            assert(forall|j: int| 0 <= j < out@.len() ==> is_tchar(#[trigger] out@[j]));
        }
    }
    Some(ascii_to_string(out))
}

} // verus!
