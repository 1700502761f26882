//! Whitespace trimming and unsigned decimal parsing with the outcomes of
//! `str::trim` and `str::parse` for unsigned integers.

use vstd::prelude::*;

use crate::text::{chars_of, string_from_range};

verus! {

/// Spec: `c` has the Unicode `White_Space` property (what `char::is_whitespace` tests).
pub open spec fn is_white_space(c: char) -> bool {
    ||| ('\u{9}' <= c <= '\u{d}')
    ||| c == ' '
    ||| c == '\u{85}'
    ||| c == '\u{a0}'
    ||| c == '\u{1680}'
    ||| ('\u{2000}' <= c <= '\u{200a}')
    ||| c == '\u{2028}'
    ||| c == '\u{2029}'
    ||| c == '\u{202f}'
    ||| c == '\u{205f}'
    ||| c == '\u{3000}'
}

fn is_white_space_exec(c: char) -> (r: bool)
    ensures
        r == is_white_space(c),
{
    ('\u{9}' <= c && c <= '\u{d}') || c == ' ' || c == '\u{85}' || c == '\u{a0}' || c
        == '\u{1680}' || ('\u{2000}' <= c && c <= '\u{200a}') || c == '\u{2028}' || c
        == '\u{2029}' || c == '\u{202f}' || c == '\u{205f}' || c == '\u{3000}'
}

/// Spec: number of leading white-space characters of `s`.
pub open spec fn leading_ws(s: Seq<char>) -> nat
    decreases s.len(),
{
    if s.len() > 0 && is_white_space(s[0]) {
        1 + leading_ws(s.drop_first())
    } else {
        0
    }
}

/// Spec: number of trailing white-space characters of `s`.
pub open spec fn trailing_ws(s: Seq<char>) -> nat
    decreases s.len(),
{
    if s.len() > 0 && is_white_space(s.last()) {
        1 + trailing_ws(s.drop_last())
    } else {
        0
    }
}

/// Spec: `s` without leading and trailing white space.
pub open spec fn trimmed(s: Seq<char>) -> Seq<char> {
    let a = leading_ws(s);
    let t = s.skip(a as int);
    t.take(t.len() - trailing_ws(t))
}

proof fn lemma_leading_ws(s: Seq<char>, i: int)
    requires
        0 <= i <= s.len(),
        forall|j: int| 0 <= j < i ==> is_white_space(s[j]),
        i == s.len() || !is_white_space(s[i]),
    ensures
        leading_ws(s) == i,
    decreases i,
{
    if i > 0 {
        lemma_leading_ws(s.drop_first(), i - 1);
    }
}

proof fn lemma_trailing_ws(s: Seq<char>, i: int)
    requires
        0 <= i <= s.len(),
        forall|j: int| s.len() - i <= j < s.len() ==> is_white_space(s[j]),
        i == s.len() || !is_white_space(s[s.len() - i - 1]),
    ensures
        trailing_ws(s) == i,
    decreases i,
{
    if i > 0 {
        lemma_trailing_ws(s.drop_last(), i - 1);
    }
}

/// `s` without leading and trailing white space (`str::trim`).
pub fn trim_text(s: &str) -> (t: String)
    ensures
        t@ == trimmed(s@),
{
    let cs = chars_of(s);
    let n = cs.len();
    let mut start: usize = 0;
    while start < n && is_white_space_exec(cs[start])
        invariant
            start <= n,
            n == cs@.len(),
            forall|j: int| 0 <= j < start ==> is_white_space(cs@[j]),
        decreases n - start,
    {
        start += 1;
    }
    proof {
        lemma_leading_ws(cs@, start as int);
    }
    let ghost rest = cs@.skip(start as int);
    let mut end: usize = n;
    while end > start && is_white_space_exec(cs[end - 1])
        invariant
            start <= end <= n,
            n == cs@.len(),
            rest == cs@.skip(start as int),
            forall|j: int| end <= j < n ==> is_white_space(cs@[j]),
        decreases end - start,
    {
        end -= 1;
    }
    proof {
        assert forall|j: int| rest.len() - (n - end) <= j < rest.len() implies is_white_space(
            rest[j],
        ) by {
            assert(rest[j] == cs@[start + j]);
        }
        if end > start {
            assert(rest[rest.len() - (n - end) - 1] == cs@[end - 1]);
        }
        lemma_trailing_ws(rest, (n - end) as int);
        assert(cs@.subrange(start as int, end as int) =~= rest.take(rest.len() - (n - end)));
    }
    string_from_range(&cs, start, end)
}

/// Why an unsigned decimal string was refused (the kinds of `ParseIntError`).
#[derive(Debug, Clone, Copy, PartialEq, Eq, Structural)]
pub enum ParseFailure {
    Empty,
    InvalidDigit,
    PosOverflow,
}

/// Spec: `c` is an ASCII decimal digit.
pub open spec fn is_digit(c: char) -> bool {
    '0' <= c <= '9'
}

/// Spec: value of the ASCII digit `c`.
pub open spec fn digit_value(c: char) -> int {
    c as int - '0' as int
}

/// Spec: scanning `digits[i..]` onto the value `acc` read so far, refusing a
/// non-digit or a value above `max` at the first place either occurs (a
/// non-digit first).
pub open spec fn scan_digits(digits: Seq<char>, i: int, acc: int, max: int) -> Result<
    int,
    ParseFailure,
>
    decreases digits.len() - i,
{
    if i >= digits.len() || i < 0 {
        Ok(acc)
    } else if !is_digit(digits[i]) {
        Err(ParseFailure::InvalidDigit)
    } else if acc * 10 + digit_value(digits[i]) > max {
        Err(ParseFailure::PosOverflow)
    } else {
        scan_digits(digits, i + 1, acc * 10 + digit_value(digits[i]), max)
    }
}

/// Spec: outcome of parsing `s` as an unsigned decimal number no greater than
/// `max`: an optional `+`, then one or more digits.
pub open spec fn parse_unsigned(s: Seq<char>, max: int) -> Result<int, ParseFailure> {
    if s.len() == 0 {
        Err(ParseFailure::Empty)
    } else if s == seq!['+'] {
        Err(ParseFailure::InvalidDigit)
    } else if s[0] == '+' {
        scan_digits(s, 1, 0, max)
    } else {
        scan_digits(s, 0, 0, max)
    }
}

/// Parse `s` as an unsigned decimal number no greater than `max`.
pub fn parse_unsigned_decimal(s: &str, max: u64) -> (r: Result<u64, ParseFailure>)
    ensures
        match parse_unsigned(s@, max as int) {
            Ok(v) => r matches Ok(n) && n == v,
            Err(e) => r == Err::<u64, ParseFailure>(e),
        },
        r matches Ok(n) ==> n <= max,
{
    let cs = chars_of(s);
    let n = cs.len();
    if n == 0 {
        return Err(ParseFailure::Empty);
    }
    if n == 1 && cs[0] == '+' {
        proof {
            assert(s@ =~= seq!['+']);
        }
        return Err(ParseFailure::InvalidDigit);
    }
    proof {
        if s@ == seq!['+'] {
            assert(s@.len() == 1);
        }
    }
    let mut i: usize = if cs[0] == '+' {
        1
    } else {
        0
    };
    let ghost start = i as int;
    assert(parse_unsigned(s@, max as int) == scan_digits(cs@, start, 0, max as int));
    let mut acc: u64 = 0;
    while i < n
        invariant
            start <= i <= n,
            n == cs@.len(),
            cs@ == s@,
            acc <= max,
            parse_unsigned(s@, max as int) == scan_digits(cs@, start, 0, max as int),
            scan_digits(cs@, start, 0, max as int) == scan_digits(cs@, i as int, acc as int, max as int),
        decreases n - i,
    {
        let c = cs[i];
        if !('0' <= c && c <= '9') {
            return Err(ParseFailure::InvalidDigit);
        }
        let d = (c as u32 - '0' as u32) as u64;
        if d > max {
            return Err(ParseFailure::PosOverflow);
        }
        if acc > (max - d) / 10 {
            assert(acc * 10 + d > max) by (nonlinear_arith)
                requires
                    acc > (max - d) / 10,
                    d <= max,
            ;
            return Err(ParseFailure::PosOverflow);
        }
        assert(acc * 10 + d <= max) by (nonlinear_arith)
            requires
                acc <= (max - d) / 10,
                d <= max,
        ;
        acc = acc * 10 + d;
        i += 1;
    }
    Ok(acc)
}

/// Spec: the message `ParseIntError` prints for a failure.
pub open spec fn parse_failure_text(f: ParseFailure) -> Seq<char> {
    match f {
        ParseFailure::Empty => "cannot parse integer from empty string"@,
        ParseFailure::InvalidDigit => "invalid digit found in string"@,
        ParseFailure::PosOverflow => "number too large to fit in target type"@,
    }
}

/// The message `ParseIntError` prints for `f`.
pub fn parse_failure_message(f: ParseFailure) -> (m: String)
    ensures
        m@ == parse_failure_text(f),
{
    match f {
        ParseFailure::Empty => "cannot parse integer from empty string".to_owned(),
        ParseFailure::InvalidDigit => "invalid digit found in string".to_owned(),
        ParseFailure::PosOverflow => "number too large to fit in target type".to_owned(),
    }
}

} // verus!
