//! Base64 text (RFC 4648, standard alphabet), as the key fingerprints and
//! `authorized_keys` lines use it.

use vstd::prelude::*;

verus! {

/// The character of the standard Base64 alphabet for a 6-bit value.
pub open spec fn base64_char(v: int) -> char {
    if v < 26 {
        (('A' as int) + v) as char
    } else if v < 52 {
        (('a' as int) + v - 26) as char
    } else if v < 62 {
        (('0' as int) + v - 52) as char
    } else if v == 62 {
        '+'
    } else {
        '/'
    }
}

/// Standard Base64 text of `data` without padding: every three bytes
/// become four characters, a last one or two bytes two or three.
pub open spec fn base64_unpadded(data: Seq<u8>) -> Seq<char>
    decreases data.len(),
{
    if data.len() == 0 {
        Seq::empty()
    } else if data.len() == 1 {
        let a = data[0] as int;
        seq![base64_char(a / 4), base64_char((a % 4) * 16)]
    } else if data.len() == 2 {
        let a = data[0] as int;
        let b = data[1] as int;
        seq![base64_char(a / 4), base64_char((a % 4) * 16 + b / 16), base64_char((b % 16) * 4)]
    } else {
        let a = data[0] as int;
        let b = data[1] as int;
        let c = data[2] as int;
        seq![
            base64_char(a / 4),
            base64_char((a % 4) * 16 + b / 16),
            base64_char((b % 16) * 4 + c / 64),
            base64_char(c % 64),
        ] + base64_unpadded(data.skip(3))
    }
}

/// Standard Base64 text of `data`, padded with `=` to a multiple of four
/// characters.
pub open spec fn base64_padded(data: Seq<u8>) -> Seq<char> {
    let u = base64_unpadded(data);
    if data.len() % 3 == 1 {
        u + seq!['=', '=']
    } else if data.len() % 3 == 2 {
        u + seq!['=']
    } else {
        u
    }
}

} // verus!
