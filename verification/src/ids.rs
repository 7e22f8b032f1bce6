//! Unique identifiers: parsing leans on the uuid crate; the canonical
//! hyphenated text form is produced by verified code.

use vstd::prelude::*;
use crate::text::push_char;

verus! {

/// The value that `uuid::Uuid::parse_str` reads out of a string, if any.
pub uninterp spec fn parsed_uuid(s: Seq<char>) -> Option<u128>;

/// Relies on `uuid::Uuid::parse_str` and `Uuid::as_u128`: which strings parse,
/// and to what 128-bit value, depends on the characters alone.
#[verifier::external_body]
pub(crate) fn parse_uuid(s: &str) -> (r: Option<u128>)
    ensures
        r == parsed_uuid(s@),
{
    match uuid::Uuid::parse_str(s) {
        Ok(u) => Some(u.as_u128()),
        Err(_) => None,
    }
}

/// The lower-case hexadecimal digit for a value below sixteen.
pub open spec fn hex_char(n: int) -> char {
    if n == 0 { '0' } else if n == 1 { '1' } else if n == 2 { '2' } else if n == 3 { '3' }
    else if n == 4 { '4' } else if n == 5 { '5' } else if n == 6 { '6' } else if n == 7 { '7' }
    else if n == 8 { '8' } else if n == 9 { '9' } else if n == 10 { 'a' } else if n == 11 { 'b' }
    else if n == 12 { 'c' } else if n == 13 { 'd' } else if n == 14 { 'e' } else { 'f' }
}

fn hex_digit(n: u8) -> (c: char)
    requires
        n < 16,
    ensures
        c == hex_char(n as int),
{
    match n {
        0 => '0', 1 => '1', 2 => '2', 3 => '3',
        4 => '4', 5 => '5', 6 => '6', 7 => '7',
        8 => '8', 9 => '9', 10 => 'a', 11 => 'b',
        12 => 'c', 13 => 'd', 14 => 'e', _ => 'f',
    }
}

/// The canonical hyphenated text of `v`, nibble by nibble from the most
/// significant, with hyphens after the 8th, 12th, 16th and 20th digit.
pub open spec fn uuid_text_acc(v: u128, i: int, acc: Seq<char>) -> Seq<char>
    decreases 32 - i,
{
    if i < 0 || i >= 32 {
        acc
    } else {
        let withhyphen = if i == 8 || i == 12 || i == 16 || i == 20 {
            acc.push('-')
        } else {
            acc
        };
        uuid_text_acc(v, i + 1, withhyphen.push(hex_char(((v >> (124 - 4 * i)) & 0xf) as int)))
    }
}

/// The canonical hyphenated form of a 128-bit identifier.
pub open spec fn uuid_text(v: u128) -> Seq<char> {
    uuid_text_acc(v, 0, Seq::empty())
}

/// Renders `v` in the canonical hyphenated form.
pub fn uuid_string(v: u128) -> (r: String)
    ensures
        r@ == uuid_text(v),
{
    let mut out = String::new();
    let mut i: usize = 0;
    while i < 32
        invariant
            i <= 32,
            uuid_text_acc(v, i as int, out@) == uuid_text(v),
        decreases 32 - i,
    {
        if i == 8 || i == 12 || i == 16 || i == 20 {
            push_char(&mut out, '-');
        }
        let sh: u32 = 124 - 4 * (i as u32);
        let nib: u8 = ((v >> sh) & 0xf) as u8;
        proof {
            let w = v >> sh;
            assert(w & 0xf < 16) by (bit_vector);
            assert(nib == (w & 0xf) as int);
        }
        let c = hex_digit(nib);
        push_char(&mut out, c);
        i = i + 1;
    }
    out
}

} // verus!
