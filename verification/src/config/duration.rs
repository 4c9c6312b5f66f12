//! Durations written as text: `10s`, `30sec`, `5m`, `2hours`, `7days`, `1w`.

use vstd::prelude::*;
use crate::error::Error;
use crate::text::{is_ws, lower, trim, trim_start};

verus! {

/// Whether a character has the Unicode Alphabetic property.
pub uninterp spec fn spec_is_alphabetic(c: char) -> bool;

/// `char::is_alphabetic`: whether the character has the Unicode
/// Alphabetic property. The answer is named by [`spec_is_alphabetic`]; of
/// ASCII characters, exactly the letters `A`-`Z` and `a`-`z` have the
/// property (digits, white space and punctuation do not).
#[verifier::external_body]
fn char_is_alphabetic(c: char) -> (r: bool)
    ensures
        r == spec_is_alphabetic(c),
        (c as u32) < 128 ==> (r <==> (('a' <= c && c <= 'z') || ('A' <= c && c <= 'Z'))),
{
    c.is_alphabetic()
}

/// An ASCII decimal digit.
pub open spec fn is_ascii_digit(c: char) -> bool {
    '0' <= c && c <= '9'
}

/// Whether a character is alphabetic: an ASCII letter, or a non-ASCII
/// character with the Unicode Alphabetic property.
pub open spec fn is_alphabetic_char(c: char) -> bool {
    if (c as u32) < 128 {
        ('a' <= c && c <= 'z') || ('A' <= c && c <= 'Z')
    } else {
        spec_is_alphabetic(c)
    }
}

/// The index of the first alphabetic character in `t`.
pub open spec fn first_letter(t: Seq<char>) -> Option<int> {
    if exists|i: int| 0 <= i < t.len() && is_alphabetic_char(t[i]) {
        Some(choose|i: int| 0 <= i < t.len() && is_alphabetic_char(t[i]) && forall|j: int|
            0 <= j < i ==> !is_alphabetic_char(t[j]))
    } else {
        None
    }
}

/// The number part and unit part of a duration text: split before the
/// first alphabetic character; without one, the unit is seconds.
pub open spec fn split_duration(t: Seq<char>) -> (Seq<char>, Seq<char>) {
    match first_letter(t) {
        Some(i) => (t.take(i), t.skip(i)),
        None => (t, "s"@),
    }
}

/// The value of a string of decimal digits.
pub open spec fn digits_value(d: Seq<char>) -> int
    decreases d.len(),
{
    if d.len() == 0 {
        0
    } else {
        digits_value(d.drop_last()) * 10 + ((d.last() as int) - ('0' as int))
    }
}

/// The number a text reads as in `u64` parsing: an optional `+`, then one
/// or more decimal digits, of a value that fits in a `u64`.
pub open spec fn parse_u64_text(s: Seq<char>) -> Option<int> {
    let d = strip_plus(s);
    if d.len() > 0 && all_digits(d) && digits_value(d) <= u64::MAX {
        Some(digits_value(d))
    } else {
        None
    }
}

/// `s` without one leading `+`.
pub open spec fn strip_plus(s: Seq<char>) -> Seq<char> {
    if s.len() > 0 && s[0] == '+' {
        s.skip(1)
    } else {
        s
    }
}

/// Every character of `d` is a decimal digit.
pub open spec fn all_digits(d: Seq<char>) -> bool {
    forall|i: int| 0 <= i < d.len() ==> is_ascii_digit(#[trigger] d[i])
}

/// Seconds per unit, for the unit names accepted (in any case).
pub open spec fn unit_seconds(u: Seq<char>) -> Option<int> {
    let l = lower(u);
    if l == "s"@ || l == "sec"@ || l == "secs"@ || l == "second"@ || l == "seconds"@ || l == ""@ {
        Some(1)
    } else if l == "m"@ || l == "min"@ || l == "mins"@ || l == "minute"@ || l == "minutes"@ {
        Some(60)
    } else if l == "h"@ || l == "hr"@ || l == "hrs"@ || l == "hour"@ || l == "hours"@ {
        Some(3600)
    } else if l == "d"@ || l == "day"@ || l == "days"@ {
        Some(86400)
    } else if l == "w"@ || l == "week"@ || l == "weeks"@ {
        Some(604800)
    } else {
        None
    }
}

/// The number and the seconds per unit that a duration text gives, or
/// `None` when it is empty, its number does not parse, or its unit is unknown.
pub open spec fn spec_duration_parts(s: Seq<char>) -> Option<(int, int)> {
    let t = trim(s);
    if t.len() == 0 {
        None
    } else {
        let (num, unit) = split_duration(t);
        match parse_u64_text(trim(num)) {
            None => None,
            Some(n) => match unit_seconds(unit) {
                None => None,
                Some(f) => Some((n, f)),
            },
        }
    }
}

/// The number of seconds a duration text stands for.
pub open spec fn spec_parse_duration(s: Seq<char>) -> Option<int> {
    match spec_duration_parts(s) {
        Some((n, f)) => Some(n * f),
        None => None,
    }
}

/// The seconds a duration text stands for fit in a `u64` (a text that does
/// not parse fits trivially).
pub open spec fn spec_duration_in_range(s: Seq<char>) -> bool {
    match spec_duration_parts(s) {
        Some((n, f)) => n * f <= u64::MAX,
        None => true,
    }
}

/// The index of the first character of `d` that is not a decimal digit
/// (the length of `d` when all are digits).
pub open spec fn first_non_digit(d: Seq<char>) -> int {
    if exists|i: int| 0 <= i < d.len() && !is_ascii_digit(d[i]) {
        choose|i: int| 0 <= i < d.len() && !is_ascii_digit(d[i]) && forall|j: int| 0 <= j < i ==> is_ascii_digit(d[j])
    } else {
        d.len() as int
    }
}

/// The message of the error with which `str::parse::<u64>` rejects `s`:
/// an empty text; a lone sign or a character that is not a digit; or
/// digits whose value, read up to the first non-digit, does not fit.
pub open spec fn u64_parse_error(s: Seq<char>) -> Seq<char> {
    if s.len() == 0 {
        "cannot parse integer from empty string"@
    } else if s.len() == 1 && (s[0] == '+' || s[0] == '-') {
        "invalid digit found in string"@
    } else {
        let d = strip_plus(s);
        if digits_value(d.take(first_non_digit(d))) > u64::MAX {
            "number too large to fit in target type"@
        } else {
            "invalid digit found in string"@
        }
    }
}

/// Why a duration text does not parse: it is empty, its number does not
/// parse (with the number part as written and the parse error), or its
/// unit is unknown (with the unit and the trimmed text).
pub open spec fn spec_duration_error(s: Seq<char>) -> Seq<char> {
    let t = trim(s);
    if t.len() == 0 {
        "Empty duration string"@
    } else {
        let (num, unit) = split_duration(t);
        match parse_u64_text(trim(num)) {
            None => "Invalid duration number '"@ + num + "': "@ + u64_parse_error(trim(num)),
            Some(_) => "Unknown duration unit '"@ + unit + "' in '"@ + t + "'"@,
        }
    }
}

/// An ASCII letter.
pub open spec fn is_ascii_letter(c: char) -> bool {
    ('a' <= c && c <= 'z') || ('A' <= c && c <= 'Z')
}

/// A duration written as decimal digits followed by a known unit name
/// (`5m`, `2hours`, `7days`, `2MIN`), or by nothing (`5`, read as
/// seconds), is that number of units, in seconds.
pub proof fn lemma_duration_number_unit(d: Seq<char>, u: Seq<char>)
    requires
        d.len() > 0,
        all_digits(d),
        digits_value(d) <= u64::MAX,
        forall|i: int| 0 <= i < u.len() ==> is_ascii_letter(#[trigger] u[i]),
        u.len() == 0 || unit_seconds(u) is Some,
    ensures
        spec_parse_duration(d + u) == Some(
            digits_value(d) * if u.len() == 0 {
                1
            } else {
                unit_seconds(u)->Some_0
            },
        ),
{
    let t = d + u;
    assert(is_ascii_digit(d[0]));
    assert(t[0] == d[0]);
    assert(!is_ws(t[0]));
    assert(trim_start(t) == t);
    if u.len() > 0 {
        assert(t.last() == u.last());
        assert(is_ascii_letter(u[u.len() - 1]));
    } else {
        assert(t.last() == d.last());
        assert(is_ascii_digit(d[d.len() - 1]));
    }
    assert(!is_ws(t.last()));
    assert(trim(t) == t);
    assert(trim_start(d) == d);
    assert(is_ascii_digit(d[d.len() - 1]));
    assert(trim(d) == d);
    assert forall|i: int| 0 <= i < d.len() implies !is_alphabetic_char(#[trigger] t[i]) by {
        assert(t[i] == d[i]);
        assert(is_ascii_digit(d[i]));
    }
    let (num, unit) = split_duration(t);
    if u.len() == 0 {
        assert(t =~= d);
        assert(first_letter(t) is None);
        assert((num, unit) == (d, "s"@));
        reveal_strlit("s");
        assert(lower("s"@) =~= "s"@);
        assert(unit_seconds("s"@) == Some(1int));
    } else {
        let k = d.len() as int;
        assert(t[k] == u[0]);
        assert(is_ascii_letter(u[0]));
        assert(is_alphabetic_char(t[k]));
        let c = choose|i: int| 0 <= i < t.len() && is_alphabetic_char(t[i]) && forall|j: int|
            0 <= j < i ==> !is_alphabetic_char(t[j]);
        assert(0 <= c < t.len() && is_alphabetic_char(t[c]) && forall|j: int| 0 <= j < c ==> !is_alphabetic_char(t[j]));
        if c < k {
            assert(!is_alphabetic_char(t[c]));
        } else if c > k {
            assert(!is_alphabetic_char(t[k]));
        }
        assert(first_letter(t) == Some(k));
        assert(t.take(k) =~= d);
        assert(t.skip(k) =~= u);
    }
    assert(strip_plus(d) == d);
}

proof fn lemma_digits_value_prefix(d: Seq<char>, i: int)
    requires
        0 <= i <= d.len(),
        forall|j: int| 0 <= j < d.len() ==> is_ascii_digit(#[trigger] d[j]),
    ensures
        0 <= digits_value(d.take(i)) <= digits_value(d),
    decreases d.len(),
{
    if d.len() > 0 {
        assert forall|j: int| 0 <= j < d.drop_last().len() implies is_ascii_digit(
            #[trigger] d.drop_last()[j],
        ) by {
            assert(d.drop_last()[j] == d[j]);
        }
        if i == d.len() {
            assert(d.take(i) =~= d);
            lemma_digits_value_prefix(d.drop_last(), 0);
        } else {
            lemma_digits_value_prefix(d.drop_last(), i);
            assert(d.drop_last().take(i) =~= d.take(i));
        }
        assert(is_ascii_digit(d.last()));
    } else {
        assert(d.take(i) =~= d);
    }
}

/// Reads `d` as decimal digits: `None` unless it is one or more digits of
/// a value that fits in a `u64`.
fn parse_digits(d: &[char]) -> (r: Option<u64>)
    ensures
        match r {
            Some(v) => d@.len() > 0 && (forall|i: int| 0 <= i < d@.len() ==> is_ascii_digit(#[trigger] d@[i]))
                && digits_value(d@) == v,
            None => !(d@.len() > 0 && (forall|i: int| 0 <= i < d@.len() ==> is_ascii_digit(#[trigger] d@[i]))
                && digits_value(d@) <= u64::MAX),
        },
{
    if d.len() == 0 {
        return None;
    }
    let mut i: usize = 0;
    while i < d.len()
        invariant
            i <= d@.len(),
            forall|j: int| 0 <= j < i ==> is_ascii_digit(#[trigger] d@[j]),
        decreases d@.len() - i,
    {
        if !('0' <= d[i] && d[i] <= '9') {
            return None;
        }
        i = i + 1;
    }
    let mut acc: u64 = 0;
    let mut k: usize = 0;
    while k < d.len()
        invariant
            k <= d@.len(),
            forall|j: int| 0 <= j < d@.len() ==> is_ascii_digit(#[trigger] d@[j]),
            acc == digits_value(d@.take(k as int)),
        decreases d@.len() - k,
    {
        let digit = (d[k] as u32 - 48) as u64;
        assert(d@.take(k + 1).drop_last() =~= d@.take(k as int));
        assert(d@.take(k + 1).last() == d@[k as int]);
        let next: u128 = (acc as u128) * 10 + (digit as u128);
        if next > 18446744073709551615u128 {
            proof {
                lemma_digits_value_prefix(d@, k + 1);
            }
            return None;
        }
        acc = next as u64;
        k = k + 1;
    }
    assert(d@.take(d@.len() as int) =~= d@);
    Some(acc)
}

/// Reads a `u64` the way `str::parse::<u64>` does.
fn parse_u64_chars(s: &[char]) -> (r: Option<u64>)
    ensures
        match r {
            Some(v) => parse_u64_text(s@) == Some(v as int),
            None => parse_u64_text(s@) is None,
        },
{
    if s.len() > 0 && s[0] == '+' {
        let rest = crate::text::sub_chars(s, 1, s.len());
        assert(rest@ =~= s@.skip(1));
        let r = parse_digits(rest.as_slice());
        proof {
            let d = s@.skip(1);
            assert(d == rest@);
            if let Some(v) = r {
                assert(forall|i: int| 0 <= i < d.len() ==> is_ascii_digit(#[trigger] d[i]));
                assert(parse_u64_text(s@) == Some(v as int));
            } else {
                if d.len() > 0 && (forall|i: int| 0 <= i < d.len() ==> is_ascii_digit(#[trigger] d[i]))
                    && digits_value(d) <= u64::MAX {
                    assert(forall|i: int| 0 <= i < rest@.len() ==> is_ascii_digit(#[trigger] rest@[i]));
                }
                assert(parse_u64_text(s@) is None);
            }
        }
        r
    } else {
        let r = parse_digits(s);
        proof {
            if let Some(v) = r {
                assert(parse_u64_text(s@) == Some(v as int));
            } else {
                assert(!(s@.len() > 0 && s@[0] == '+'));
                assert(!(s@.len() > 0 && (forall|i: int| 0 <= i < s@.len() ==> is_ascii_digit(#[trigger] s@[i]))
                    && digits_value(s@) <= u64::MAX));
                assert(parse_u64_text(s@) is None);
            }
        }
        r
    }
}

/// Reads a `u32` the way `str::parse::<u32>` does: an optional `+`, then
/// one or more decimal digits, of a value that fits.
pub fn parse_u32_str(s: &str) -> (r: Option<u32>)
    ensures
        match r {
            Some(v) => parse_u64_text(s@) == Some(v as int),
            None => !(parse_u64_text(s@) matches Some(x) && x <= u32::MAX),
        },
{
    let v = crate::text::chars_of(s);
    match parse_u64_chars(v.as_slice()) {
        Some(x) => if x <= 0xFFFF_FFFFu64 {
            Some(x as u32)
        } else {
            None
        },
        None => None,
    }
}

/// The index of the first alphabetic character.
fn find_letter(t: &[char]) -> (r: Option<usize>)
    ensures
        match r {
            Some(i) => first_letter(t@) == Some(i as int) && i < t@.len(),
            None => first_letter(t@) is None,
        },
{
    let mut i: usize = 0;
    while i < t.len()
        invariant
            i <= t@.len(),
            forall|j: int| 0 <= j < i ==> !is_alphabetic_char(t@[j]),
        decreases t@.len() - i,
    {
        if char_is_alphabetic(t[i]) {
            proof {
                let k = choose|k: int| 0 <= k < t@.len() && is_alphabetic_char(t@[k]) && forall|j: int|
                    0 <= j < k ==> !is_alphabetic_char(t@[j]);
                if k < i {
                } else if k > i {
                    assert(!is_alphabetic_char(t@[i as int]));
                }
            }
            return Some(i);
        }
        i = i + 1;
    }
    None
}

/// The message of the error with which `str::parse::<u64>` rejects `s`,
/// as [`u64_parse_error`] states.
fn u64_error_text(s: &[char]) -> (r: String)
    ensures
        r@ == u64_parse_error(s@),
{
    if s.len() == 0 {
        return "cannot parse integer from empty string".to_string();
    }
    if s.len() == 1 && (s[0] == '+' || s[0] == '-') {
        return "invalid digit found in string".to_string();
    }
    let d = if s[0] == '+' {
        crate::text::sub_chars(s, 1, s.len())
    } else {
        crate::text::sub_chars(s, 0, s.len())
    };
    assert(d@ =~= strip_plus(s@));
    let mut i: usize = 0;
    while i < d.len() && '0' <= d[i] && d[i] <= '9'
        invariant
            i <= d@.len(),
            forall|j: int| 0 <= j < i ==> is_ascii_digit(#[trigger] d@[j]),
        decreases d@.len() - i,
    {
        i = i + 1;
    }
    proof {
        if i < d@.len() {
            assert(!is_ascii_digit(d@[i as int]));
            let k = choose|k: int| 0 <= k < d@.len() && !is_ascii_digit(d@[k]) && forall|j: int|
                0 <= j < k ==> is_ascii_digit(d@[j]);
            if k < i {
                assert(is_ascii_digit(d@[k]));
            } else if k > i {
                assert(is_ascii_digit(d@[i as int]));
            }
            assert(first_non_digit(d@) == i);
        } else {
            assert(first_non_digit(d@) == i);
        }
    }
    let run = crate::text::sub_chars(d.as_slice(), 0, i);
    assert(run@ =~= d@.take(i as int));
    match parse_digits(run.as_slice()) {
        Some(_) => "invalid digit found in string".to_string(),
        None => if i == 0 {
            "invalid digit found in string".to_string()
        } else {
            "number too large to fit in target type".to_string()
        },
    }
}

fn unit_is(l: &[char], name: &str) -> (b: bool)
    ensures
        b == (l@ == name@),
{
    crate::text::eq_chars(l, crate::text::chars_of(name).as_slice())
}

/// Seconds per unit.
fn unit_seconds_exec(u: &[char]) -> (r: Option<u64>)
    ensures
        match r {
            Some(f) => unit_seconds(u@) == Some(f as int),
            None => unit_seconds(u@) is None,
        },
{
    let lv = crate::text::lower_chars(u);
    let l = lv.as_slice();
    if unit_is(l, "s") || unit_is(l, "sec") || unit_is(l, "secs") || unit_is(l, "second") || unit_is(
        l,
        "seconds",
    ) || unit_is(l, "") {
        Some(1)
    } else if unit_is(l, "m") || unit_is(l, "min") || unit_is(l, "mins") || unit_is(l, "minute")
        || unit_is(l, "minutes") {
        Some(60)
    } else if unit_is(l, "h") || unit_is(l, "hr") || unit_is(l, "hrs") || unit_is(l, "hour")
        || unit_is(l, "hours") {
        Some(3600)
    } else if unit_is(l, "d") || unit_is(l, "day") || unit_is(l, "days") {
        Some(86400)
    } else if unit_is(l, "w") || unit_is(l, "week") || unit_is(l, "weeks") {
        Some(604800)
    } else {
        None
    }
}

/// The number and seconds per unit of a duration text, or why there are
/// none.
fn duration_parts(s: &str) -> (r: Result<(u64, u64), String>)
    ensures
        match r {
            Ok((n, f)) => spec_duration_parts(s@) == Some((n as int, f as int)) && f <= 604800,
            Err(m) => spec_duration_parts(s@) is None && m@ == spec_duration_error(s@),
        },
{
    let chars = crate::text::chars_of(s);
    let t = crate::text::trim_chars(chars.as_slice());
    if t.len() == 0 {
        return Err("Empty duration string".to_string());
    }
    let (num, unit) = match find_letter(t.as_slice()) {
        Some(i) => {
            let num = crate::text::sub_chars(t.as_slice(), 0, i);
            let unit = crate::text::sub_chars(t.as_slice(), i, t.len());
            assert(num@ =~= t@.take(i as int));
            assert(unit@ =~= t@.skip(i as int));
            (num, unit)
        },
        None => (t.clone(), crate::text::chars_of("s")),
    };
    let num_trimmed = crate::text::trim_chars(num.as_slice());
    let n = match parse_u64_chars(num_trimmed.as_slice()) {
        Some(n) => n,
        None => {
            let num_text = crate::text::string_of(num.as_slice());
            let a = crate::text::concat_str("Invalid duration number '", num_text.as_str());
            let b = crate::text::concat_str(a.as_str(), "': ");
            let e = u64_error_text(num_trimmed.as_slice());
            return Err(crate::text::concat_str(b.as_str(), e.as_str()));
        },
    };
    let f = match unit_seconds_exec(unit.as_slice()) {
        Some(f) => f,
        None => {
            let unit_text = crate::text::string_of(unit.as_slice());
            let t_text = crate::text::string_of(t.as_slice());
            let a = crate::text::concat_str("Unknown duration unit '", unit_text.as_str());
            let b = crate::text::concat_str(a.as_str(), "' in '");
            let c = crate::text::concat_str(b.as_str(), t_text.as_str());
            return Err(crate::text::concat_str(c.as_str(), "'"));
        },
    };
    Ok((n, f))
}

/// Whether the seconds a duration text stands for fit in a `u64`; parsing
/// a text for which this is false would overflow.
pub fn duration_in_range(s: &str) -> (b: bool)
    ensures
        b == spec_duration_in_range(s@),
{
    match duration_parts(s) {
        Ok((n, f)) => {
            assert((n as int) * (f as int) <= 18446744073709551615 * 604800) by (nonlinear_arith)
                requires
                    n <= 18446744073709551615u64,
                    f <= 604800,
            ;
            (n as u128) * (f as u128) <= 18446744073709551615u128
        },
        Err(_) => true,
    }
}

/// Parses a duration such as `1h`, `30m`, `10s`, `1d` or `1w` into
/// seconds. Surrounding white space is ignored, a number without unit is
/// seconds, and unit names (`s`, `sec`, `secs`, `second`, `seconds`, `m`,
/// `min`, ..., `w`, `week`, `weeks`) are accepted in any case. Fails on an
/// empty text, a number that does not parse and an unknown unit.
pub fn parse_duration(s: &str) -> (r: Result<u64, Error>)
    requires
        spec_duration_in_range(s@),
    ensures
        r is Ok <==> spec_parse_duration(s@) is Some,
        match r {
            Ok(v) => spec_parse_duration(s@) == Some(v as int),
            Err(e) => e matches Error::Config(m) && m@ == spec_duration_error(s@),
        },
{
    match duration_parts(s) {
        Ok((n, f)) => {
            assert(n * f <= u64::MAX);
            Ok(n * f)
        },
        Err(m) => Err(Error::Config(m)),
    }
}

/// The seconds per unit, whatever the letters' case: every second unit
/// (`s`, `sec`, `secs`, `second`, `seconds`, or none) is 1, every minute
/// unit (`m`, `min`, `mins`, `minute`, `minutes`) 60, every hour unit (`h`,
/// `hr`, `hrs`, `hour`, `hours`) 3600, every day unit (`d`, `day`, `days`)
/// 86400 and every week unit (`w`, `week`, `weeks`) 604800.
pub proof fn lemma_unit_seconds_by_name(u: Seq<char>)
    ensures
        lower(u) == "s"@ || lower(u) == "sec"@ || lower(u) == "secs"@ || lower(u) == "second"@ || lower(u)
            == "seconds"@ || lower(u) == ""@ ==> unit_seconds(u) == Some(1int),
        lower(u) == "m"@ || lower(u) == "min"@ || lower(u) == "mins"@ || lower(u) == "minute"@ || lower(u)
            == "minutes"@ ==> unit_seconds(u) == Some(60int),
        lower(u) == "h"@ || lower(u) == "hr"@ || lower(u) == "hrs"@ || lower(u) == "hour"@ || lower(u) == "hours"@
            ==> unit_seconds(u) == Some(3600int),
        lower(u) == "d"@ || lower(u) == "day"@ || lower(u) == "days"@ ==> unit_seconds(u) == Some(86400int),
        lower(u) == "w"@ || lower(u) == "week"@ || lower(u) == "weeks"@ ==> unit_seconds(u) == Some(604800int),
{
    reveal_strlit("s");
    reveal_strlit("sec");
    reveal_strlit("secs");
    reveal_strlit("second");
    reveal_strlit("seconds");
    reveal_strlit("");
    reveal_strlit("m");
    reveal_strlit("min");
    reveal_strlit("mins");
    reveal_strlit("minute");
    reveal_strlit("minutes");
    reveal_strlit("h");
    reveal_strlit("hr");
    reveal_strlit("hrs");
    reveal_strlit("hour");
    reveal_strlit("hours");
    reveal_strlit("d");
    reveal_strlit("day");
    reveal_strlit("days");
    reveal_strlit("w");
    reveal_strlit("week");
    reveal_strlit("weeks");
    let l = lower(u);
    let secs = seq!["s"@, "sec"@, "secs"@, "second"@, "seconds"@, ""@];
    let mins = seq!["m"@, "min"@, "mins"@, "minute"@, "minutes"@];
    let hours = seq!["h"@, "hr"@, "hrs"@, "hour"@, "hours"@];
    let days = seq!["d"@, "day"@, "days"@];
    if l.len() > 0 && l[0] != 's' {
        assert forall|i: int| 0 <= i < secs.len() implies l != #[trigger] secs[i] by {
            if secs[i].len() > 0 {
                assert(secs[i][0] == 's');
            }
        }
    }
    if l.len() > 0 && l[0] != 'm' {
        assert forall|i: int| 0 <= i < mins.len() implies l != #[trigger] mins[i] by {
            assert(mins[i][0] == 'm');
        }
    }
    if l.len() > 0 && l[0] != 'h' {
        assert forall|i: int| 0 <= i < hours.len() implies l != #[trigger] hours[i] by {
            assert(hours[i][0] == 'h');
        }
    }
    if l.len() > 0 && l[0] != 'd' {
        assert forall|i: int| 0 <= i < days.len() implies l != #[trigger] days[i] by {
            assert(days[i][0] == 'd');
        }
    }
    if l == "m"@ || l == "min"@ || l == "mins"@ || l == "minute"@ || l == "minutes"@ {
        assert(l[0] == 'm');
        assert(l != secs[0] && l != secs[1] && l != secs[2] && l != secs[3] && l != secs[4] && l != secs[5]);
    }
    if l == "h"@ || l == "hr"@ || l == "hrs"@ || l == "hour"@ || l == "hours"@ {
        assert(l[0] == 'h');
        assert(l != secs[0] && l != secs[1] && l != secs[2] && l != secs[3] && l != secs[4] && l != secs[5]);
        assert(l != mins[0] && l != mins[1] && l != mins[2] && l != mins[3] && l != mins[4]);
    }
    if l == "d"@ || l == "day"@ || l == "days"@ {
        assert(l[0] == 'd');
        assert(l != secs[0] && l != secs[1] && l != secs[2] && l != secs[3] && l != secs[4] && l != secs[5]);
        assert(l != mins[0] && l != mins[1] && l != mins[2] && l != mins[3] && l != mins[4]);
        assert(l != hours[0] && l != hours[1] && l != hours[2] && l != hours[3] && l != hours[4]);
    }
    if l == "w"@ || l == "week"@ || l == "weeks"@ {
        assert(l[0] == 'w');
        assert(l != secs[0] && l != secs[1] && l != secs[2] && l != secs[3] && l != secs[4] && l != secs[5]);
        assert(l != mins[0] && l != mins[1] && l != mins[2] && l != mins[3] && l != mins[4]);
        assert(l != hours[0] && l != hours[1] && l != hours[2] && l != hours[3] && l != hours[4]);
        assert(l != days[0] && l != days[1] && l != days[2]);
    }
}

} // verus!
