//! Character-level helpers: conversion between strings and character
//! vectors, decimal number parsing and printing.

use vstd::prelude::*;

verus! {

// ---------------------------------------------------------------------------
// Strings and character vectors
// ---------------------------------------------------------------------------

/// Appends one character to a string (`String::push`).
#[verifier::external_body]
pub(crate) fn push_char(s: &mut String, c: char)
    ensures
        final(s)@ == old(s)@.push(c),
{
    s.push(c);
}

/// The characters of a string slice, in order.
pub fn chars_of(s: &str) -> (v: Vec<char>)
    ensures
        v@ == s@,
{
    let mut v: Vec<char> = Vec::new();
    proof {
        broadcast use vstd::string::axiom_spec_iter;
    }
    for c in it: s.chars()
        invariant
            v@ == it.seq().take(it.index() as int),
            it.seq() == s@,
    {
        v.push(c);
        assert(v@ =~= it.seq().take(it.index() + 1));
    }
    assert(v@ =~= s@);
    v
}

/// The characters of an optional string.
pub open spec fn opt_chars(o: Option<String>) -> Option<Seq<char>> {
    match o {
        Some(s) => Some(s@),
        None => None,
    }
}

/// The characters of an optional string slice.
pub open spec fn opt_str_chars(o: Option<&str>) -> Option<Seq<char>> {
    match o {
        Some(s) => Some(s@),
        None => None,
    }
}

/// A string holding the given characters.
pub fn string_of(v: &[char]) -> (s: String)
    ensures
        s@ == v@,
{
    let mut s = String::new();
    let mut i: usize = 0;
    while i < v.len()
        invariant
            i <= v@.len(),
            s@ == v@.take(i as int),
        decreases v@.len() - i,
    {
        push_char(&mut s, v[i]);
        assert(s@ =~= v@.take(i + 1));
        i = i + 1;
    }
    assert(s@ =~= v@);
    s
}

/// Appends the characters of `v` to `s`.
pub fn append_chars(s: &mut String, v: &[char])
    ensures
        final(s)@ == old(s)@ + v@,
{
    let mut i: usize = 0;
    while i < v.len()
        invariant
            i <= v@.len(),
            s@ == old(s)@ + v@.take(i as int),
        decreases v@.len() - i,
    {
        push_char(s, v[i]);
        assert(s@ =~= old(s)@ + v@.take(i + 1));
        i = i + 1;
    }
    assert(v@.take(v@.len() as int) =~= v@);
}

/// Appends the characters of `t` to `s`.
pub fn append_str(s: &mut String, t: &str)
    ensures
        final(s)@ == old(s)@ + t@,
{
    let v = chars_of(t);
    append_chars(s, v.as_slice());
}

/// What `str::to_lowercase` gives for a text holding a character outside
/// ASCII: the full Unicode lower-case mapping of every character, in order.
pub uninterp spec fn unicode_lowercase(s: Seq<char>) -> Seq<char>;

/// An ASCII character.
pub open spec fn is_ascii_char(c: char) -> bool {
    (c as u32) < 128
}

/// An ASCII letter in lower case; every other character as it is.
pub open spec fn ascii_lower(c: char) -> char {
    if 'A' <= c && c <= 'Z' {
        ((c as u32) + 32) as char
    } else {
        c
    }
}

/// What `str::to_lowercase` gives: on an ASCII text, A to Z become a to z
/// and every other character stays; otherwise Unicode's lower-case mapping.
pub open spec fn lowercase(s: Seq<char>) -> Seq<char> {
    if forall|i: int| 0 <= i < s.len() ==> is_ascii_char(#[trigger] s[i]) {
        Seq::new(s.len(), |i: int| ascii_lower(s[i]))
    } else {
        unicode_lowercase(s)
    }
}

/// Lower-cases a string (`str::to_lowercase`).
#[verifier::external_body]
pub(crate) fn to_lowercase(s: &str) -> (r: String)
    ensures
        r@ == lowercase(s@),
        !(forall|i: int| 0 <= i < s@.len() ==> is_ascii_char(#[trigger] s@[i])) ==> r@ == unicode_lowercase(s@),
{
    s.to_lowercase()
}

/// A string holding the characters of a string slice.
pub fn string_from(s: &str) -> (r: String)
    ensures
        r@ == s@,
{
    let mut r = String::new();
    append_str(&mut r, s);
    r
}

// ---------------------------------------------------------------------------
// Decimal digits
// ---------------------------------------------------------------------------

/// An ASCII decimal digit.
pub open spec fn is_digit(c: char) -> bool {
    '0' <= c && c <= '9'
}

/// The value of an ASCII decimal digit.
pub open spec fn digit_value(c: char) -> nat {
    (c as int - '0' as int) as nat
}

/// The character of a decimal digit below ten.
pub open spec fn digit_char(d: nat) -> char {
    ((d + '0' as int) as u32) as char
}

/// Every character is an ASCII decimal digit.
pub open spec fn all_digits(s: Seq<char>) -> bool {
    forall|i: int| 0 <= i < s.len() ==> #[trigger] is_digit(s[i])
}

/// The number written by a string of decimal digits (most significant first).
pub open spec fn digits_value(s: Seq<char>) -> nat
    decreases s.len(),
{
    if s.len() == 0 {
        0
    } else {
        digits_value(s.drop_last()) * 10 + digit_value(s.last())
    }
}

/// What `str::parse` gives for an unsigned integer type, before the range
/// check: an optional leading `+` followed by at least one ASCII digit.
pub open spec fn unsigned_literal(s: Seq<char>) -> Option<nat> {
    let body = if s.len() > 0 && s[0] == '+' { s.drop_first() } else { s };
    if body.len() > 0 && all_digits(body) {
        Some(digits_value(body))
    } else {
        None
    }
}

/// What `str::parse` gives for an unsigned integer type whose largest value is `max`.
pub open spec fn parse_unsigned(s: Seq<char>, max: nat) -> Option<nat> {
    match unsigned_literal(s) {
        Some(n) => if n <= max { Some(n) } else { None },
        None => None,
    }
}

/// What `str::parse::<i64>` gives: an optional sign followed by at least one
/// ASCII digit, in range.
pub open spec fn parse_signed(s: Seq<char>) -> Option<int> {
    if s.len() > 0 && s[0] == '-' {
        let body = s.drop_first();
        if body.len() > 0 && all_digits(body) && digits_value(body) <= 0x8000_0000_0000_0000 {
            Some(-(digits_value(body) as int))
        } else {
            None
        }
    } else {
        match parse_unsigned(s, 0x7fff_ffff_ffff_ffff) {
            Some(n) => Some(n as int),
            None => None,
        }
    }
}

/// The decimal representation of a natural number, without leading zeros.
pub open spec fn decimal(n: nat) -> Seq<char>
    decreases n,
{
    if n < 10 {
        seq![digit_char(n)]
    } else {
        decimal(n / 10).push(digit_char(n % 10))
    }
}

/// The decimal representation of an integer, with a leading `-` when negative.
pub open spec fn decimal_int(i: int) -> Seq<char> {
    if i < 0 {
        seq!['-'] + decimal((-i) as nat)
    } else {
        decimal(i as nat)
    }
}

proof fn lemma_digits_value_prefix_le(s: Seq<char>, i: int)
    requires
        0 <= i <= s.len(),
    ensures
        digits_value(s.take(i)) <= digits_value(s),
    decreases s.len() - i,
{
    if i < s.len() {
        lemma_digits_value_prefix_le(s, i + 1);
        assert(s.take(i + 1).drop_last() =~= s.take(i));
    } else {
        assert(s.take(i) =~= s);
    }
}

proof fn lemma_digit_char_value(d: nat)
    requires
        d < 10,
    ensures
        is_digit(digit_char(d)),
        digit_value(digit_char(d)) == d,
{
    assert(((d + '0' as int) as u32) as char as int == d + 48);
}

proof fn lemma_decimal_digits(n: nat)
    ensures
        all_digits(decimal(n)),
        decimal(n).len() > 0,
        digits_value(decimal(n)) == n,
        decimal(n)[0] != '0' || n == 0,
    decreases n,
{
    lemma_digit_char_value(n % 10);
    if n < 10 {
        let d = decimal(n);
        assert(d.drop_last() =~= Seq::<char>::empty());
        assert(digits_value(d) == digits_value(d.drop_last()) * 10 + digit_value(d.last()));
    } else {
        lemma_decimal_digits(n / 10);
        let d = decimal(n);
        assert(d.drop_last() =~= decimal(n / 10));
        assert(digits_value(d) == digits_value(d.drop_last()) * 10 + digit_value(d.last()));
        assert forall|k: int| 0 <= k < d.len() implies #[trigger] is_digit(d[k]) by {
            if k < d.len() - 1 {
                assert(d[k] == decimal(n / 10)[k]);
            }
        }
    }
}

/// Printing a number in decimal and parsing it back gives the number.
pub proof fn lemma_parse_decimal(n: nat)
    ensures
        unsigned_literal(decimal(n)) == Some(n),
{
    lemma_decimal_digits(n);
    assert(is_digit(decimal(n)[0]));
}

/// Parses the characters `s` as `str::parse` does for an unsigned integer
/// type whose largest value is `max`.
pub fn parse_unsigned_chars(s: &[char], max: u64) -> (r: Option<u64>)
    ensures
        r == (match parse_unsigned(s@, max as nat) {
            Some(n) => Some(n as u64),
            None => None::<u64>,
        }),
{
    let start: usize = if s.len() > 0 && s[0] == '+' { 1 } else { 0 };
    let ghost body = if s@.len() > 0 && s@[0] == '+' { s@.drop_first() } else { s@ };
    assert(body =~= s@.subrange(start as int, s@.len() as int));
    if start >= s.len() {
        return None;
    }
    let mut acc: u64 = 0;
    let mut i: usize = start;
    while i < s.len()
        invariant
            start <= i <= s@.len(),
            start < s@.len(),
            body == s@.subrange(start as int, s@.len() as int),
            body == (if s@.len() > 0 && s@[0] == '+' { s@.drop_first() } else { s@ }),
            all_digits(s@.subrange(start as int, i as int)),
            acc as nat == digits_value(s@.subrange(start as int, i as int)),
            acc <= max,
        decreases s@.len() - i,
    {
        let c = s[i];
        let ghost prev = s@.subrange(start as int, i as int);
        let ghost next = s@.subrange(start as int, i + 1);
        assert(next.drop_last() =~= prev);
        if !('0' <= c && c <= '9') {
            assert(body[i - start] == c);
            assert(!is_digit(body[i - start]));
            assert(!all_digits(body));
            assert(unsigned_literal(s@) is None);
            return None;
        }
        let d: u64 = (c as u32 - '0' as u32) as u64;
        assert(d as nat == digit_value(c));
        if acc > max / 10 || (acc == max / 10 && d > max % 10) {
            proof {
                assert(acc * 10 + d > max) by (nonlinear_arith)
                    requires
                        acc > max / 10 || (acc == max / 10 && d > max % 10),
                        d <= 9,
                ;
                assert(next.last() == c);
                assert(digits_value(next) == digits_value(prev) * 10 + digit_value(c));
                assert(digits_value(next) > max);
                if all_digits(body) {
                    lemma_digits_value_prefix_le(body, (i + 1 - start) as int);
                    assert(body.take((i + 1 - start) as int) =~= next);
                    assert(digits_value(body) > max);
                }
                assert(parse_unsigned(s@, max as nat) is None);
            }
            return None;
        }
        proof {
            assert(acc * 10 + d <= max) by (nonlinear_arith)
                requires
                    !(acc > max / 10 || (acc == max / 10 && d > max % 10)),
                    d <= 9,
            ;
            assert forall|k: int| 0 <= k < next.len() implies #[trigger] is_digit(next[k]) by {
                if k < prev.len() {
                    assert(next[k] == prev[k]);
                }
            }
        }
        assert(next.last() == c);
        assert(digits_value(next) == digits_value(prev) * 10 + digit_value(c));
        acc = acc * 10 + d;
        i = i + 1;
    }
    assert(s@.subrange(start as int, s@.len() as int) =~= body);
    Some(acc)
}

/// Parses a string slice as `str::parse::<u64>` does.
pub fn parse_u64(s: &str) -> (r: Option<u64>)
    ensures
        r == (match parse_unsigned(s@, u64::MAX as nat) {
            Some(n) => Some(n as u64),
            None => None::<u64>,
        }),
{
    let v = chars_of(s);
    parse_unsigned_chars(v.as_slice(), u64::MAX)
}

/// Parses a string slice as `str::parse::<u32>` does.
pub fn parse_u32(s: &str) -> (r: Option<u32>)
    ensures
        r == (match parse_unsigned(s@, u32::MAX as nat) {
            Some(n) => Some(n as u32),
            None => None::<u32>,
        }),
{
    let v = chars_of(s);
    match parse_unsigned_chars(v.as_slice(), u32::MAX as u64) {
        Some(n) => Some(n as u32),
        None => None,
    }
}

/// Parses the characters `s` as `str::parse::<i64>` does.
pub fn parse_i64_chars(s: &[char]) -> (r: Option<i64>)
    ensures
        r == (match parse_signed(s@) {
            Some(n) => Some(n as i64),
            None => None::<i64>,
        }),
{
    if s.len() > 0 && s[0] == '-' {
        let body = &s[1..s.len()];
        assert(body@ =~= s@.drop_first());
        if body.len() == 0 {
            return None;
        }
        if body[0] == '+' {
            // `-+5` is rejected by `str::parse`.
            assert(!is_digit(body@[0]));
            return None;
        }
        assert(unsigned_literal(body@) == (if body@.len() > 0 && all_digits(body@) {
            Some(digits_value(body@))
        } else {
            None
        }));
        match parse_unsigned_chars(body, 0x8000_0000_0000_0000) {
            Some(n) => {
                if n == 0x8000_0000_0000_0000 {
                    Some(i64::MIN)
                } else {
                    Some(-(n as i64))
                }
            },
            None => None,
        }
    } else {
        match parse_unsigned_chars(s, 0x7fff_ffff_ffff_ffff) {
            Some(n) => Some(n as i64),
            None => None,
        }
    }
}

/// Parses a string slice as `str::parse::<i64>` does.
pub fn parse_i64(s: &str) -> (r: Option<i64>)
    ensures
        r == (match parse_signed(s@) {
            Some(n) => Some(n as i64),
            None => None::<i64>,
        }),
{
    let v = chars_of(s);
    parse_i64_chars(v.as_slice())
}

/// The decimal digits of `n`.
pub fn decimal_chars(n: u64) -> (v: Vec<char>)
    ensures
        v@ == decimal(n as nat),
    decreases n,
{
    if n < 10 {
        let c = char_of_digit(n);
        let mut v: Vec<char> = Vec::new();
        v.push(c);
        assert(v@ =~= seq![digit_char(n as nat)]);
        v
    } else {
        let mut v = decimal_chars(n / 10);
        let c = char_of_digit(n % 10);
        v.push(c);
        v
    }
}

fn char_of_digit(d: u64) -> (c: char)
    requires
        d < 10,
    ensures
        c == digit_char(d as nat),
{
    let code: u32 = (d as u32) + ('0' as u32);
    let c: char = match code {
        48 => '0',
        49 => '1',
        50 => '2',
        51 => '3',
        52 => '4',
        53 => '5',
        54 => '6',
        55 => '7',
        56 => '8',
        _ => '9',
    };
    c
}

/// The decimal representation of `n` (as `n.to_string()`).
pub fn u64_to_string(n: u64) -> (s: String)
    ensures
        s@ == decimal(n as nat),
{
    let v = decimal_chars(n);
    string_of(v.as_slice())
}

/// The decimal representation of `n` (as `n.to_string()`).
pub fn i64_to_string(n: i64) -> (s: String)
    ensures
        s@ == decimal_int(n as int),
{
    if n < 0 {
        let m: u64 = if n == i64::MIN { 0x8000_0000_0000_0000u64 } else { (-n) as u64 };
        let mut s = String::new();
        push_char(&mut s, '-');
        let v = decimal_chars(m);
        append_chars(&mut s, v.as_slice());
        assert(s@ =~= seq!['-'] + decimal((-(n as int)) as nat));
        s
    } else {
        u64_to_string(n as u64)
    }
}

} // verus!
