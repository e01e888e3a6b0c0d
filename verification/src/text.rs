//! Reading text: characters, decimal numbers, separated fields.

use vstd::prelude::*;

verus! {

pub open spec fn is_digit(c: char) -> bool {
    '0' <= c && c <= '9'
}

pub open spec fn digit_value(c: char) -> int {
    c as int - 48
}

/// The number that a run of decimal digits writes down.
pub open spec fn digits_value(s: Seq<char>) -> int
    decreases s.len(),
{
    if s.len() == 0 {
        0
    } else {
        digits_value(s.drop_last()) * 10 + digit_value(s.last())
    }
}

pub open spec fn all_digits(s: Seq<char>) -> bool {
    forall|i: int| 0 <= i < s.len() ==> is_digit(#[trigger] s[i])
}

/// The digits of an unsigned decimal number: the text itself, or what
/// follows a leading plus sign.
pub open spec fn unsigned_digits(s: Seq<char>) -> Seq<char> {
    if s.len() > 0 && s[0] == '+' {
        s.skip(1)
    } else {
        s
    }
}

/// An unsigned decimal number: an optional plus sign, then one digit or
/// more and nothing else. Leading zeros are allowed.
pub open spec fn parse_unsigned(s: Seq<char>) -> Option<int> {
    let digits = unsigned_digits(s);
    if digits.len() > 0 && all_digits(digits) {
        Some(digits_value(digits))
    } else {
        None
    }
}

/// An unsigned decimal number that is at most `max`.
pub open spec fn parse_up_to(s: Seq<char>, max: int) -> Option<int> {
    match parse_unsigned(s) {
        Some(v) => if v <= max {
            Some(v)
        } else {
            None
        },
        None => None,
    }
}

/// `String::push` of the standard library: the string afterwards is the
/// string before with the one character added at its end.
pub assume_specification[ String::push ](s: &mut String, ch: char)
    ensures
        final(s)@ == old(s)@.push(ch),
;

/// The string made of `chars[from..to]`.
pub fn string_of(chars: &Vec<char>, from: usize, to: usize) -> (text: String)
    requires
        from <= to <= chars@.len(),
    ensures
        text@ == chars@.subrange(from as int, to as int),
{
    let mut text: String = String::new();
    let mut i: usize = from;
    while i < to
        invariant
            from <= i <= to <= chars@.len(),
            text@ == chars@.subrange(from as int, i as int),
        decreases to - i,
    {
        text.push(chars[i]);
        assert(chars@.subrange(from as int, i + 1) =~= chars@.subrange(from as int, i as int).push(
            chars@[i as int],
        ));
        i += 1;
    }
    text
}

/// What `str::trim` leaves of a text: the text without the white space at
/// its two ends.
pub uninterp spec fn trimmed(text: Seq<char>) -> Seq<char>;

/// `str::trim` of the standard library, with the result copied into a
/// string of its own.
#[verifier::external_body]
pub(crate) fn trim(text: &str) -> (out: String)
    ensures
        out@ == trimmed(text@),
{
    text.trim().to_string()
}

/// Two texts, one after the other.
pub fn join(head: &str, tail: &str) -> (out: String)
    ensures
        out@ == head@ + tail@,
{
    let mut out: String = String::new();
    let first: Vec<char> = chars_of(head);
    let second: Vec<char> = chars_of(tail);
    let mut i: usize = 0;
    while i < first.len()
        invariant
            i <= first@.len(),
            out@ == first@.take(i as int),
        decreases first@.len() - i,
    {
        out.push(first[i]);
        assert(first@.take(i + 1) =~= first@.take(i as int).push(first@[i as int]));
        i += 1;
    }
    assert(first@.take(first@.len() as int) =~= first@);
    let mut j: usize = 0;
    while j < second.len()
        invariant
            j <= second@.len(),
            out@ == first@ + second@.take(j as int),
        decreases second@.len() - j,
    {
        out.push(second[j]);
        assert(first@ + second@.take(j + 1) =~= (first@ + second@.take(j as int)).push(
            second@[j as int],
        ));
        j += 1;
    }
    assert(second@.take(second@.len() as int) =~= second@);
    out
}

/// A number in decimal digits.
pub open spec fn decimal_text(n: nat) -> Seq<char>
    decreases n,
{
    if n < 10 {
        seq![((48 + n) as u8) as char]
    } else {
        decimal_text(n / 10).push(((48 + n % 10) as u8) as char)
    }
}

/// Adds a number in decimal digits to a text.
pub fn push_decimal(out: &mut String, n: u64)
    ensures
        final(out)@ == old(out)@ + decimal_text(n as nat),
    decreases n,
{
    if n >= 10 {
        push_decimal(out, n / 10);
    }
    out.push((48 + (n % 10) as u8) as char);
    assert(out@ =~= old(out)@ + decimal_text(n as nat));
}

/// The characters of a string.
pub fn chars_of(text: &str) -> (out: Vec<char>)
    ensures
        out@ == text@,
{
    let mut out: Vec<char> = Vec::new();
    for c in it: text.chars()
        invariant
            out@ == it.seq().take(it.index() as int),
            it.seq() == text@,
    {
        out.push(c);
    }
    out
}

/// Reads `chars[from..to]` as an unsigned decimal number that is at most `max`.
pub fn parse_number(chars: &Vec<char>, from: usize, to: usize, max: u32) -> (value: Option<u32>)
    requires
        from <= to <= chars@.len(),
        max < 0x1000_0000,
    ensures
        match value {
            Some(v) => parse_up_to(chars@.subrange(from as int, to as int), max as int) == Some(
                v as int,
            ),
            None => parse_up_to(chars@.subrange(from as int, to as int), max as int) is None,
        },
{
    let ghost s = chars@.subrange(from as int, to as int);
    let mut i: usize = from;
    if i < to && chars[i] == '+' {
        i += 1;
    }
    let start: usize = i;
    let ghost digits = chars@.subrange(start as int, to as int);
    assert(digits =~= unsigned_digits(s));
    if start == to {
        return None;
    }
    let mut acc: u32 = 0;
    let mut over: bool = false;
    while i < to
        invariant
            start <= i <= to <= chars@.len(),
            max < 0x1000_0000,
            digits == chars@.subrange(start as int, to as int),
            digits == unsigned_digits(chars@.subrange(from as int, to as int)),
            all_digits(digits.take(i - start)),
            digits_value(digits.take(i - start)) >= 0,
            !over ==> acc == digits_value(digits.take(i - start)) && acc <= max,
            over ==> digits_value(digits.take(i - start)) > max,
        decreases to - i,
    {
        let c: char = chars[i];
        let ghost prev = digits.take(i - start);
        let ghost next = digits.take(i + 1 - start);
        proof {
            assert(next.drop_last() =~= prev);
            assert(next.last() == c);
        }
        if !(c >= '0' && c <= '9') {
            proof {
                assert(digits[i - start] == c);
                assert(!all_digits(digits));
            }
            return None;
        }
        proof {
            assert forall|k: int| 0 <= k < next.len() implies is_digit(#[trigger] next[k]) by {
                if k < prev.len() {
                    assert(prev[k] == next[k]);
                }
            }
        }
        let d: u32 = (c as u32) - 48;
        if !over {
            let wide: u32 = acc * 10 + d;
            if wide > max {
                over = true;
            } else {
                acc = wide;
            }
        }
        i += 1;
    }
    assert(digits.take(to - start) =~= digits);
    if over {
        None
    } else {
        Some(acc)
    }
}

/// The first position at or behind `from` that holds `sep`, or the length
/// of the text where there is none.
pub open spec fn next_separator(s: Seq<char>, sep: char, from: int) -> int
    decreases s.len() - from,
{
    if from >= s.len() {
        s.len() as int
    } else if s[from] == sep {
        from
    } else {
        next_separator(s, sep, from + 1)
    }
}

/// Finds the next separator at or behind `from`.
pub fn find_separator(chars: &Vec<char>, sep: char, from: usize) -> (at: usize)
    requires
        from <= chars@.len(),
    ensures
        at == next_separator(chars@, sep, from as int),
        from <= at <= chars@.len(),
{
    let mut at: usize = from;
    while at < chars.len() && chars[at] != sep
        invariant
            from <= at <= chars@.len(),
            next_separator(chars@, sep, from as int) == next_separator(chars@, sep, at as int),
        decreases chars@.len() - at,
    {
        at += 1;
    }
    at
}

} // verus!
