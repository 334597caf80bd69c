//! Reading hexadecimal command-line numbers.

use vstd::prelude::*;
use vstd::string::StrSliceExecFns;
use std::num::ParseIntError;

verus! {

#[verifier::external_type_specification]
#[verifier::external_body]
pub struct ExParseIntError(ParseIntError);

/// The value of a hex digit, any case.
pub open spec fn hex_digit_value(c: char) -> Option<int> {
    if '0' <= c && c <= '9' {
        Some(c as int - '0' as int)
    } else if 'a' <= c && c <= 'f' {
        Some(c as int - 'a' as int + 10)
    } else if 'A' <= c && c <= 'F' {
        Some(c as int - 'A' as int + 10)
    } else {
        None
    }
}

/// The number that a string of hex digits spells, if all are digits.
pub open spec fn hex_digits_value(s: Seq<char>) -> Option<int>
    decreases s.len(),
{
    if s.len() == 0 {
        Some(0)
    } else {
        match (hex_digits_value(s.drop_last()), hex_digit_value(s.last())) {
            (Some(v), Some(d)) => Some(v * 16 + d),
            _ => None,
        }
    }
}

/// What `u64::from_str_radix(s, 16)` accepts: an optional `+` and at least
/// one hex digit, of a value that fits a `u64`.
pub open spec fn u64_from_hex(s: Seq<char>) -> Option<u64> {
    let body = if s.len() > 0 && s[0] == '+' { s.drop_first() } else { s };
    if body.len() == 0 {
        None
    } else {
        match hex_digits_value(body) {
            Some(v) => if v <= u64::MAX { Some(v as u64) } else { None },
            None => None,
        }
    }
}

/// Relies on `u64::from_str_radix` with radix 16: an optional `+` followed by
/// digits `0-9`, `a-f`, `A-F` only, whose value fits, else an error.
#[verifier::external_body]
fn from_hex_radix(s: &str) -> (r: Result<u64, ParseIntError>)
    ensures
        r.is_ok() <==> u64_from_hex(s@).is_some(),
        r matches Ok(v) ==> u64_from_hex(s@) == Some(v),
{
    u64::from_str_radix(s, 16)
}

/// The digits `parse_hex64` reads: what follows a `0x` or `0X` prefix when
/// something does, else the whole input.
pub open spec fn hex_body(s: Seq<char>) -> Seq<char> {
    if s.len() > 2 && s[0] == '0' && (s[1] == 'x' || s[1] == 'X') {
        s.subrange(2, s.len() as int)
    } else {
        s
    }
}

/// Reads a hexadecimal `u64`, with or without a `0x`/`0X` prefix.
pub fn parse_hex64(input: &str) -> (r: Result<u64, ParseIntError>)
    ensures
        r.is_ok() <==> u64_from_hex(hex_body(input@)).is_some(),
        r matches Ok(v) ==> u64_from_hex(hex_body(input@)) == Some(v),
{
    let n = input.unicode_len();
    if n > 2 {
        let c0 = input.get_char(0);
        let c1 = input.get_char(1);
        if c0 == '0' && (c1 == 'x' || c1 == 'X') {
            let rest = input.substring_char(2, n);
            return from_hex_radix(rest);
        }
    }
    from_hex_radix(input)
}

} // verus!
