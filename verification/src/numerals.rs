//! Decimal numerals: formatting integers as strings and parsing them back.
//!
//! PID files hold a process id as a decimal numeral, possibly surrounded by
//! whitespace; log lines embed process ids and exit codes the same way.

use vstd::prelude::*;

verus! {

/// Numeric value of a decimal digit character; 10 marks a non-digit.
pub open spec fn digit_value(c: char) -> nat {
    if c == '0' {
        0
    } else if c == '1' {
        1
    } else if c == '2' {
        2
    } else if c == '3' {
        3
    } else if c == '4' {
        4
    } else if c == '5' {
        5
    } else if c == '6' {
        6
    } else if c == '7' {
        7
    } else if c == '8' {
        8
    } else if c == '9' {
        9
    } else {
        10
    }
}

pub open spec fn is_digit(c: char) -> bool {
    digit_value(c) < 10
}

/// The digit character of a value below ten.
pub open spec fn digit_char(d: nat) -> char {
    if d == 0 {
        '0'
    } else if d == 1 {
        '1'
    } else if d == 2 {
        '2'
    } else if d == 3 {
        '3'
    } else if d == 4 {
        '4'
    } else if d == 5 {
        '5'
    } else if d == 6 {
        '6'
    } else if d == 7 {
        '7'
    } else if d == 8 {
        '8'
    } else {
        '9'
    }
}

/// The decimal numeral of `n`, most significant digit first, no sign and no
/// leading zero (a lone zero for `n == 0`).
pub open spec fn decimal_chars(n: nat) -> Seq<char>
    decreases n,
{
    if n < 10 {
        seq![digit_char(n)]
    } else {
        decimal_chars(n / 10).push(digit_char(n % 10))
    }
}

/// The decimal numeral of a signed value: a minus sign before the numeral of
/// the magnitude when the value is negative.
pub open spec fn signed_decimal_chars(v: int) -> Seq<char> {
    if v >= 0 {
        decimal_chars(v as nat)
    } else {
        seq!['-'] + decimal_chars((-v) as nat)
    }
}

/// The value of a digit sequence read most significant digit first.
pub open spec fn numeral_value(s: Seq<char>) -> nat
    decreases s.len(),
{
    if s.len() == 0 {
        0
    } else {
        numeral_value(s.drop_last()) * 10 + digit_value(s.last())
    }
}

pub open spec fn all_digits(s: Seq<char>) -> bool {
    forall|i: int| 0 <= i < s.len() ==> is_digit(#[trigger] s[i])
}

/// A sequence that a parse accepts: non-empty, digits only, and a value that
/// fits in a `u32`.
pub open spec fn valid_u32_numeral(s: Seq<char>) -> bool {
    s.len() > 0 && all_digits(s) && numeral_value(s) <= u32::MAX
}

pub proof fn lemma_digit_char_value(d: nat)
    requires
        d < 10,
    ensures
        is_digit(digit_char(d)),
        digit_value(digit_char(d)) == d,
{
}

pub proof fn lemma_decimal_chars_digits(n: nat)
    ensures
        decimal_chars(n).len() >= 1,
        all_digits(decimal_chars(n)),
    decreases n,
{
    if n < 10 {
        lemma_digit_char_value(n);
    } else {
        lemma_decimal_chars_digits(n / 10);
        lemma_digit_char_value(n % 10);
        assert forall|i: int| 0 <= i < decimal_chars(n).len() implies is_digit(
            #[trigger] decimal_chars(n)[i],
        ) by {
            if i < decimal_chars(n / 10).len() {
                assert(decimal_chars(n)[i] == decimal_chars(n / 10)[i]);
            }
        }
    }
}

/// Formatting and parsing invert one another: the numeral of `n` reads back
/// as `n`.
pub proof fn lemma_numeral_round_trip(n: nat)
    ensures
        numeral_value(decimal_chars(n)) == n,
    decreases n,
{
    if n < 10 {
        lemma_digit_char_value(n);
        let s = seq![digit_char(n)];
        assert(decimal_chars(n) == s);
        assert(s.drop_last() =~= Seq::<char>::empty());
        assert(numeral_value(Seq::<char>::empty()) == 0);
        assert(numeral_value(s) == numeral_value(s.drop_last()) * 10 + digit_value(s.last()));
    } else {
        lemma_numeral_round_trip(n / 10);
        lemma_digit_char_value(n % 10);
        assert(decimal_chars(n).drop_last() =~= decimal_chars(n / 10));
        assert(numeral_value(decimal_chars(n)) == (n / 10) * 10 + n % 10);
        assert((n / 10) * 10 + n % 10 == n) by {
            vstd::arithmetic::div_mod::lemma_fundamental_div_mod(n as int, 10);
        }
    }
}

/// ASCII whitespace, as it may surround the numeral in a PID file.
pub open spec fn is_space(c: char) -> bool {
    c == ' ' || c == '\t' || c == '\n' || c == '\r' || c == '\u{b}' || c == '\u{c}'
}

pub open spec fn ltrim(s: Seq<char>) -> Seq<char>
    decreases s.len(),
{
    if s.len() > 0 && is_space(s[0]) {
        ltrim(s.subrange(1, s.len() as int))
    } else {
        s
    }
}

pub open spec fn rtrim(s: Seq<char>) -> Seq<char>
    decreases s.len(),
{
    if s.len() > 0 && is_space(s.last()) {
        rtrim(s.drop_last())
    } else {
        s
    }
}

/// `s` with leading and trailing ASCII whitespace removed.
pub open spec fn trimmed(s: Seq<char>) -> Seq<char> {
    rtrim(ltrim(s))
}

proof fn lemma_ltrim_subrange(s: Seq<char>, i: int)
    requires
        0 <= i <= s.len(),
        forall|k: int| 0 <= k < i ==> is_space(#[trigger] s[k]),
        i == s.len() || !is_space(s[i]),
    ensures
        ltrim(s) == s.subrange(i, s.len() as int),
    decreases i,
{
    if i == 0 {
        assert(s.subrange(0, s.len() as int) =~= s);
    } else {
        let t = s.subrange(1, s.len() as int);
        lemma_ltrim_subrange(t, i - 1);
        assert(t.subrange(i - 1, t.len() as int) =~= s.subrange(i, s.len() as int));
    }
}

proof fn lemma_rtrim_subrange(s: Seq<char>, j: int)
    requires
        0 <= j <= s.len(),
        forall|k: int| j <= k < s.len() ==> is_space(#[trigger] s[k]),
        j == 0 || !is_space(s[j - 1]),
    ensures
        rtrim(s) == s.subrange(0, j),
    decreases s.len(),
{
    if j == s.len() {
        assert(s.subrange(0, s.len() as int) =~= s);
    } else {
        let t = s.drop_last();
        lemma_rtrim_subrange(t, j);
        assert(t.subrange(0, j) =~= s.subrange(0, j));
    }
}

/// The trimmed text is exactly the region between the first and last
/// non-whitespace characters.
proof fn lemma_trimmed_region(s: Seq<char>, i: int, j: int)
    requires
        0 <= i <= j <= s.len(),
        forall|k: int| 0 <= k < i ==> is_space(#[trigger] s[k]),
        forall|k: int| j <= k < s.len() ==> is_space(#[trigger] s[k]),
        i == s.len() || !is_space(s[i]),
        j == i || !is_space(s[j - 1]),
    ensures
        trimmed(s) == s.subrange(i, j),
{
    lemma_ltrim_subrange(s, i);
    let t = s.subrange(i, s.len() as int);
    assert forall|k: int| j - i <= k < t.len() implies is_space(#[trigger] t[k]) by {
        assert(t[k] == s[k + i]);
    }
    lemma_rtrim_subrange(t, j - i);
    assert(t.subrange(0, j - i) =~= s.subrange(i, j));
}

/// A longer digit prefix never reads as a smaller value.
proof fn lemma_numeral_prefix_monotone(s: Seq<char>, a: int, b: int)
    requires
        0 <= a <= b <= s.len(),
    ensures
        numeral_value(s.subrange(0, a)) <= numeral_value(s.subrange(0, b)),
    decreases b - a,
{
    if a < b {
        lemma_numeral_prefix_monotone(s, a, b - 1);
        let p = s.subrange(0, b);
        assert(p.drop_last() =~= s.subrange(0, b - 1));
    }
}

fn is_space_char(c: char) -> (r: bool)
    ensures
        r == is_space(c),
{
    c == ' ' || c == '\t' || c == '\n' || c == '\r' || c == '\u{b}' || c == '\u{c}'
}

fn digit_of(c: char) -> (d: u32)
    ensures
        d == digit_value(c),
{
    match c {
        '0' => 0,
        '1' => 1,
        '2' => 2,
        '3' => 3,
        '4' => 4,
        '5' => 5,
        '6' => 6,
        '7' => 7,
        '8' => 8,
        '9' => 9,
        _ => 10,
    }
}

/// The index of the first non-whitespace character, or the length if there is
/// none.
fn scan_start(s: &str) -> (i: usize)
    ensures
        0 <= i <= s@.len(),
        forall|k: int| 0 <= k < i ==> is_space(#[trigger] s@[k]),
        i == s@.len() || !is_space(s@[i as int]),
{
    let len = s.unicode_len();
    let mut i: usize = 0;
    while i < len
        invariant
            0 <= i <= len,
            len == s@.len(),
            forall|k: int| 0 <= k < i ==> is_space(#[trigger] s@[k]),
        decreases len - i,
    {
        if !is_space_char(s.get_char(i)) {
            return i;
        }
        i += 1;
    }
    i
}

/// One past the index of the last non-whitespace character at or after `i`,
/// or `i` if there is none.
fn scan_end(s: &str, i: usize) -> (j: usize)
    requires
        i <= s@.len(),
    ensures
        i <= j <= s@.len(),
        forall|k: int| j <= k < s@.len() ==> is_space(#[trigger] s@[k]),
        j == i || !is_space(s@[j - 1]),
{
    let len = s.unicode_len();
    let mut j: usize = len;
    while j > i
        invariant
            i <= j <= len,
            len == s@.len(),
            forall|k: int| j <= k < len ==> is_space(#[trigger] s@[k]),
        decreases j,
    {
        if !is_space_char(s.get_char(j - 1)) {
            return j;
        }
        j -= 1;
    }
    j
}

/// Parses the decimal numeral in `s`, ignoring surrounding whitespace.
///
/// Returns the value exactly when the trimmed text is a non-empty digit
/// sequence whose value fits in a `u32`; returns `None` on any other text.
pub fn parse_u32(s: &str) -> (r: Option<u32>)
    ensures
        match r {
            Some(p) => valid_u32_numeral(trimmed(s@)) && p == numeral_value(trimmed(s@)),
            None => !valid_u32_numeral(trimmed(s@)),
        },
{
    let len = s.unicode_len();
    let i = scan_start(s);
    let j = scan_end(s, i);
    proof {
        lemma_trimmed_region(s@, i as int, j as int);
    }
    if i == j {
        return None;
    }
    let mut v: u32 = 0;
    let mut k: usize = i;
    while k < j
        invariant
            i <= k <= j <= len,
            i < j,
            len == s@.len(),
            trimmed(s@) == s@.subrange(i as int, j as int),
            all_digits(s@.subrange(i as int, k as int)),
            v == numeral_value(s@.subrange(i as int, k as int)),
        decreases j - k,
    {
        let c = s.get_char(k);
        let d = digit_of(c);
        if d >= 10 {
            proof {
                assert(trimmed(s@)[k - i] == s@[k as int]);
                assert(!all_digits(trimmed(s@)));
            }
            return None;
        }
        proof {
            vstd::arithmetic::div_mod::lemma_fundamental_div_mod((u32::MAX - d) as int, 10);
            assert(s@.subrange(i as int, k + 1 as int).drop_last() =~= s@.subrange(
                i as int,
                k as int,
            ));
            assert(numeral_value(s@.subrange(i as int, k + 1 as int)) == v * 10 + d);
        }
        if v > (u32::MAX - d) / 10 {
            proof {
                assert(v * 10 + d > u32::MAX);
                if all_digits(trimmed(s@)) {
                    lemma_numeral_prefix_monotone(trimmed(s@), k + 1 - i as int, trimmed(
                        s@,
                    ).len() as int);
                    assert(trimmed(s@).subrange(0, k + 1 - i as int) =~= s@.subrange(
                        i as int,
                        k + 1 as int,
                    ));
                    assert(trimmed(s@).subrange(0, trimmed(s@).len() as int) =~= trimmed(s@));
                    assert(numeral_value(trimmed(s@)) > u32::MAX);
                }
            }
            return None;
        }
        proof {
            assert(v * 10 + d <= u32::MAX);
            assert forall|m: int| 0 <= m < k + 1 - i implies is_digit(
                #[trigger] s@.subrange(i as int, k + 1 as int)[m],
            ) by {
                if m < k - i {
                    assert(s@.subrange(i as int, k + 1 as int)[m] == s@.subrange(
                        i as int,
                        k as int,
                    )[m]);
                }
            }
        }
        v = v * 10 + d;
        k += 1;
    }
    proof {
        assert(s@.subrange(i as int, j as int).len() > 0);
    }
    Some(v)
}

/// A numeral the supervisor writes is one a `leave` reads back unchanged:
/// it needs no trimming, is accepted by the parse, and yields the written
/// value.  A supervisor's own PID file is therefore never corrupt.
pub proof fn lemma_written_numeral_parses(p: u32)
    ensures
        trimmed(decimal_chars(p as nat)) == decimal_chars(p as nat),
        valid_u32_numeral(trimmed(decimal_chars(p as nat))),
        numeral_value(trimmed(decimal_chars(p as nat))) == p,
{
    let s = decimal_chars(p as nat);
    lemma_decimal_chars_digits(p as nat);
    lemma_numeral_round_trip(p as nat);
    assert(is_digit(s[0]) && !is_space(s[0]));
    assert(is_digit(s[s.len() - 1]) && !is_space(s[s.len() - 1]));
    lemma_trimmed_region(s, 0, s.len() as int);
    assert(s.subrange(0, s.len() as int) =~= s);
}

/// The single-character string of one digit.
fn digit_str(d: u32) -> (r: &'static str)
    requires
        d < 10,
    ensures
        r@ =~= seq![digit_char(d as nat)],
{
    proof {
        reveal_strlit("0");
        reveal_strlit("1");
        reveal_strlit("2");
        reveal_strlit("3");
        reveal_strlit("4");
        reveal_strlit("5");
        reveal_strlit("6");
        reveal_strlit("7");
        reveal_strlit("8");
        reveal_strlit("9");
    }
    match d {
        0 => "0",
        1 => "1",
        2 => "2",
        3 => "3",
        4 => "4",
        5 => "5",
        6 => "6",
        7 => "7",
        8 => "8",
        _ => "9",
    }
}

/// Formats `n` as its decimal numeral.
pub fn format_u32(n: u32) -> (r: String)
    ensures
        r@ == decimal_chars(n as nat),
    decreases n,
{
    if n < 10 {
        let r = String::from_str(digit_str(n));
        proof {
            assert(r@ =~= decimal_chars(n as nat));
        }
        r
    } else {
        let prefix = format_u32(n / 10);
        let r = prefix.concat(digit_str(n % 10));
        proof {
            assert(r@ =~= decimal_chars(n as nat));
        }
        r
    }
}

/// Formats a signed value as its decimal numeral.
pub fn format_i32(v: i32) -> (r: String)
    ensures
        r@ == signed_decimal_chars(v as int),
{
    if v >= 0 {
        format_u32(v as u32)
    } else {
        let magnitude: u32 = #[verifier::truncate] ((-(v as i64)) as u32);
        let r = String::from_str("-").concat(format_u32(magnitude).as_str());
        proof {
            reveal_strlit("-");
            assert(r@ =~= signed_decimal_chars(v as int));
        }
        r
    }
}

} // verus!
