//! Small verified text utilities: string equality, lowercase hexadecimal
//! rendering and parsing, and decoding of ASCII byte tags.

use vstd::prelude::*;

verus! {

/// Compares two string slices character by character.
pub fn str_eq(a: &str, b: &str) -> (r: bool)
    ensures
        r == (a@ == b@),
{
    let la = a.unicode_len();
    let lb = b.unicode_len();
    if la != lb {
        assert(a@ != b@);
        return false;
    }
    let mut i: usize = 0;
    while i < la
        invariant
            la == a@.len(),
            la == b@.len(),
            i <= la,
            forall|j: int| 0 <= j < i ==> a@[j] == b@[j],
        decreases la - i,
    {
        if a.get_char(i) != b.get_char(i) {
            assert(a@ != b@);
            return false;
        }
        i = i + 1;
    }
    assert(a@ =~= b@);
    true
}

/// The numeric value of a hexadecimal digit character, if it is one.
/// Both cases are accepted, as the tabular symbol sources may use either.
pub open spec fn spec_hex_digit_value(c: char) -> Option<u32> {
    if '0' <= c && c <= '9' {
        Some((c as u32 - '0' as u32) as u32)
    } else if 'a' <= c && c <= 'f' {
        Some((c as u32 - 'a' as u32 + 10) as u32)
    } else if 'A' <= c && c <= 'F' {
        Some((c as u32 - 'A' as u32 + 10) as u32)
    } else {
        None
    }
}

/// Evaluates [`spec_hex_digit_value`] on a concrete character.
pub fn hex_digit_value(c: char) -> (r: Option<u32>)
    ensures
        r == spec_hex_digit_value(c),
{
    if '0' <= c && c <= '9' {
        Some(c as u32 - '0' as u32)
    } else if 'a' <= c && c <= 'f' {
        Some(c as u32 - 'a' as u32 + 10)
    } else if 'A' <= c && c <= 'F' {
        Some(c as u32 - 'A' as u32 + 10)
    } else {
        None
    }
}

/// The `u32` denoted by exactly eight hexadecimal characters, or `None` if
/// the sequence is not eight hexadecimal digits. This is the fixed-width
/// hexadecimal field format of the tabular symbol and bounds inputs.
pub open spec fn spec_parse_hex_u32(s: Seq<char>) -> Option<u32>
    decreases s.len(),
{
    if s.len() != 8 {
        None
    } else {
        spec_parse_hex_acc(s, 0, 0)
    }
}

/// Folds hexadecimal digits of `s` from index `i` on into `acc`.
pub open spec fn spec_parse_hex_acc(s: Seq<char>, i: int, acc: u32) -> Option<u32>
    decreases s.len() - i,
{
    if i < 0 || i > s.len() {
        None
    } else if i == s.len() {
        Some(acc)
    } else {
        match spec_hex_digit_value(s[i]) {
            None => None,
            Some(d) => spec_parse_hex_acc(s, i + 1, ((acc * 16) % 0x100000000 + d) as u32),
        }
    }
}

/// Parses a fixed-width (eight digit) hexadecimal `u32` field.
pub fn parse_hex_u32(s: &str) -> (r: Option<u32>)
    ensures
        r == spec_parse_hex_u32(s@),
{
    let n = s.unicode_len();
    if n != 8 {
        return None;
    }
    let mut acc: u32 = 0;
    let mut i: usize = 0;
    while i < 8
        invariant
            s@.len() == 8,
            i <= 8,
            spec_parse_hex_acc(s@, 0, 0) == spec_parse_hex_acc(s@, i as int, acc),
        decreases 8 - i,
    {
        let c = s.get_char(i);
        match hex_digit_value(c) {
            None => {
                return None;
            },
            Some(d) => {
                assert(acc * 16 <= 0xffffffffu32 * 16) by (nonlinear_arith)
                    requires acc <= 0xffffffffu32;
                let wide: u64 = acc as u64 * 16;
                acc = (wide % 0x100000000) as u32 + d;
                assert(acc as int == (wide as int % 0x100000000) + d);
            },
        }
        i = i + 1;
    }
    Some(acc)
}

/// The lowercase hexadecimal digit for a value below 16.
pub open spec fn spec_hex_char(d: u32) -> char
    recommends
        d < 16,
{
    if d < 10 {
        (('0' as u32) + d) as char
    } else {
        (('a' as u32) + (d - 10)) as char
    }
}

/// The minimal lowercase hexadecimal rendering of `v` (no leading zeroes;
/// `0` renders as `"0"`).
pub open spec fn spec_hex_string(v: u32) -> Seq<char>
    decreases v,
{
    if v < 16 {
        seq![spec_hex_char(v)]
    } else {
        spec_hex_string(v / 16).push(spec_hex_char(v % 16))
    }
}

/// The character of a single hexadecimal digit.
pub fn hex_char(d: u32) -> (c: char)
    requires
        d < 16,
    ensures
        c == spec_hex_char(d),
{
    if d < 10 {
        (('0' as u8) + d as u8) as char
    } else {
        (('a' as u8) + (d - 10) as u8) as char
    }
}

/// Renders `v` as minimal lowercase hexadecimal, as the debug build tag of a
/// plugin-runtime dump is displayed.
pub fn hex_string(v: u32) -> (r: String)
    ensures
        r@ == spec_hex_string(v),
    decreases v,
{
    if v < 16 {
        let mut s = String::new();
        s.push(hex_char(v));
        proof {
            assert(s@ =~= spec_hex_string(v));
        }
        s
    } else {
        let mut s = hex_string(v / 16);
        s.push(hex_char(v % 16));
        s
    }
}

/// Relies on `String::push`: appends exactly the given character.
pub assume_specification[ String::push ](s: &mut String, c: char)
    ensures
        final(s)@ == old(s)@.push(c),
;

} // verus!
