//! Character-level text utilities: decimal rendering of integers, integer
//! parsing with the grammar of `str::parse`, whitespace trimming and a few
//! prefix/substring searches. Everything works on `Vec<char>` internally and
//! is specified over `Seq<char>`.
use vstd::prelude::*;

verus! {

// ---------------------------------------------------------------------------
// Specifications
// ---------------------------------------------------------------------------

/// The ASCII character of a decimal digit.
pub open spec fn digit_char(d: int) -> char {
    if d == 0 { '0' }
    else if d == 1 { '1' }
    else if d == 2 { '2' }
    else if d == 3 { '3' }
    else if d == 4 { '4' }
    else if d == 5 { '5' }
    else if d == 6 { '6' }
    else if d == 7 { '7' }
    else if d == 8 { '8' }
    else { '9' }
}

/// Whether `c` is an ASCII decimal digit.
pub open spec fn is_digit(c: char) -> bool {
    '0' <= c && c <= '9'
}

/// The value of an ASCII decimal digit.
pub open spec fn digit_value(c: char) -> int {
    c as int - '0' as int
}

/// The shortest decimal representation of a natural number.
pub open spec fn dec_digits(n: nat) -> Seq<char>
    decreases n,
{
    if n < 10 {
        seq![digit_char(n as int)]
    } else {
        dec_digits(n / 10).push(digit_char((n % 10) as int))
    }
}

/// Absolute value.
pub open spec fn abs(v: int) -> nat {
    if v < 0 { (-v) as nat } else { v as nat }
}

/// Decimal representation of an integer, with a leading `-` for negatives
/// (Rust's `{}`).
pub open spec fn dec_int(v: int) -> Seq<char> {
    if v < 0 { seq!['-'] + dec_digits(abs(v)) } else { dec_digits(abs(v)) }
}

/// `s` preceded by as many `'0'` as needed to reach `width` characters.
pub open spec fn zero_pad(s: Seq<char>, width: nat) -> Seq<char> {
    if s.len() >= width {
        s
    } else {
        Seq::new((width - s.len()) as nat, |i: int| '0') + s
    }
}

/// Rust's `{:+0W}`: an explicit sign, then the magnitude zero-padded so that
/// the whole rendering is at least `width` characters long.
pub open spec fn signed_padded(v: int, width: nat) -> Seq<char> {
    let sign = if v < 0 { '-' } else { '+' };
    let rest_width: nat = if width >= 1 { (width - 1) as nat } else { 0 };
    seq![sign] + zero_pad(dec_digits(abs(v)), rest_width)
}

/// Whether every character is a digit, and there is at least one.
pub open spec fn all_digits(s: Seq<char>) -> bool {
    s.len() > 0 && forall|i: int| 0 <= i < s.len() ==> is_digit(#[trigger] s[i])
}

/// The value of a string of decimal digits.
pub open spec fn digits_value(s: Seq<char>) -> int
    decreases s.len(),
{
    if s.len() == 0 {
        0
    } else {
        digits_value(s.drop_last()) * 10 + digit_value(s.last())
    }
}

/// The integer a string denotes under `str::parse` for a signed integer
/// type, before the range check: an optional `+` or `-`, then one or more
/// ASCII digits, nothing else.
pub open spec fn signed_value(s: Seq<char>) -> Option<int> {
    if s.len() > 0 && (s[0] == '+' || s[0] == '-') {
        let body = s.drop_first();
        if all_digits(body) {
            Some(if s[0] == '-' { -digits_value(body) } else { digits_value(body) })
        } else {
            None
        }
    } else if all_digits(s) {
        Some(digits_value(s))
    } else {
        None
    }
}

/// The integer a string denotes under `str::parse` for an unsigned integer
/// type, before the range check: an optional `+`, then digits.
pub open spec fn unsigned_value(s: Seq<char>) -> Option<int> {
    if s.len() > 0 && s[0] == '+' {
        let body = s.drop_first();
        if all_digits(body) { Some(digits_value(body)) } else { None }
    } else if all_digits(s) {
        Some(digits_value(s))
    } else {
        None
    }
}

/// `str::parse::<i32>`.
pub open spec fn parse_i32_spec(s: Seq<char>) -> Option<i32> {
    match signed_value(s) {
        Some(v) => if i32::MIN <= v <= i32::MAX { Some(v as i32) } else { None },
        None => None,
    }
}

/// `str::parse::<u32>`.
pub open spec fn parse_u32_spec(s: Seq<char>) -> Option<u32> {
    match unsigned_value(s) {
        Some(v) => if v <= u32::MAX { Some(v as u32) } else { None },
        None => None,
    }
}

/// Unicode `White_Space`, the set that `char::is_whitespace` and
/// `str::trim` use.
pub open spec fn is_whitespace(c: char) -> bool {
    ||| ('\u{9}' <= c && c <= '\u{d}')
    ||| c == ' '
    ||| c == '\u{85}'
    ||| c == '\u{a0}'
    ||| c == '\u{1680}'
    ||| ('\u{2000}' <= c && c <= '\u{200a}')
    ||| c == '\u{2028}'
    ||| c == '\u{2029}'
    ||| c == '\u{202f}'
    ||| c == '\u{205f}'
    ||| c == '\u{3000}'
}

/// Number of leading whitespace characters.
pub open spec fn leading_ws(s: Seq<char>) -> nat
    decreases s.len(),
{
    if s.len() > 0 && is_whitespace(s[0]) { 1 + leading_ws(s.drop_first()) } else { 0 }
}

/// Number of trailing whitespace characters.
pub open spec fn trailing_ws(s: Seq<char>) -> nat
    decreases s.len(),
{
    if s.len() > 0 && is_whitespace(s.last()) { 1 + trailing_ws(s.drop_last()) } else { 0 }
}

/// `str::trim`: `s` without leading and trailing whitespace.
pub open spec fn trim_spec(s: Seq<char>) -> Seq<char> {
    let t = s.skip(leading_ws(s) as int);
    t.take(t.len() - trailing_ws(t))
}

/// Code point of the ASCII lowercase of one character
/// (`char::to_ascii_lowercase`).
pub open spec fn ascii_lower_code(c: char) -> int {
    if 'A' <= c && c <= 'Z' { (c as int) + 32 } else { c as int }
}

/// Whether `p` occurs in `s` starting at index `i`.
pub open spec fn occurs_at(s: Seq<char>, p: Seq<char>, i: int) -> bool {
    0 <= i && i + p.len() <= s.len() && s.subrange(i, i + p.len()) == p
}

/// Whether `p` occurs anywhere in `s` (`str::contains`).
pub open spec fn contains_seq(s: Seq<char>, p: Seq<char>) -> bool {
    exists|i: int| occurs_at(s, p, i)
}

/// Whether `c` occurs in `s`.
pub open spec fn has_char(s: Seq<char>, c: char) -> bool {
    exists|i: int| 0 <= i < s.len() && s[i] == c
}

/// Index of the first occurrence of `c` in `s`, or -1.
pub open spec fn index_of_char(s: Seq<char>, c: char) -> int
    decreases s.len(),
{
    if s.len() == 0 {
        -1
    } else if s[0] == c {
        0
    } else {
        let r = index_of_char(s.drop_first(), c);
        if r < 0 { -1 } else { r + 1 }
    }
}

/// The first index at or after `from` at which `p` occurs in `s`, or -1
/// (`str::find` when `from` is 0).
pub open spec fn find_from(s: Seq<char>, p: Seq<char>, from: int) -> int
    decreases s.len() + 1 - from,
{
    if from < 0 || from > s.len() {
        -1
    } else if occurs_at(s, p, from) {
        from
    } else if from == s.len() {
        -1
    } else {
        find_from(s, p, from + 1)
    }
}

/// Index of the last occurrence of `c` in `s`, or -1 (`str::rfind`).
pub open spec fn last_index_of_char(s: Seq<char>, c: char) -> int
    decreases s.len(),
{
    if s.len() == 0 {
        -1
    } else if s.last() == c {
        s.len() - 1
    } else {
        last_index_of_char(s.drop_last(), c)
    }
}

// ---------------------------------------------------------------------------
// Lemmas
// ---------------------------------------------------------------------------

proof fn lemma_dec_digits_len(n: nat)
    ensures
        dec_digits(n).len() >= 1,
        n < 10 ==> dec_digits(n).len() == 1,
        n >= 10 ==> dec_digits(n).len() == dec_digits(n / 10).len() + 1,
    decreases n,
{
    if n >= 10 {
        lemma_dec_digits_len(n / 10);
    }
}

/// Digits of distinct values differ, and each is an ASCII digit.
proof fn lemma_digit_char(d1: int, d2: int)
    requires
        0 <= d1 < 10,
        0 <= d2 < 10,
    ensures
        is_digit(digit_char(d1)),
        digit_char(d1) == digit_char(d2) ==> d1 == d2,
{
}

/// Every character of a decimal representation is a digit.
pub proof fn lemma_dec_digits_are_digits(n: nat)
    ensures
        forall|i: int| 0 <= i < dec_digits(n).len() ==> is_digit(#[trigger] dec_digits(n)[i]),
    decreases n,
{
    if n >= 10 {
        lemma_dec_digits_are_digits(n / 10);
        lemma_digit_char((n % 10) as int, 0);
        let d = dec_digits(n);
        assert forall|i: int| 0 <= i < d.len() implies is_digit(#[trigger] d[i]) by {
            if i < d.len() - 1 {
                assert(d[i] == dec_digits(n / 10)[i]);
            }
        }
    } else {
        lemma_digit_char(n as int, 0);
    }
}

/// Distinct numbers have distinct decimal representations.
pub proof fn lemma_dec_digits_injective(a: nat, b: nat)
    requires
        dec_digits(a) == dec_digits(b),
    ensures
        a == b,
    decreases a,
{
    lemma_dec_digits_len(a);
    lemma_dec_digits_len(b);
    if a >= 10 && b >= 10 {
        assert(dec_digits(a).last() == dec_digits(b).last());
        assert(dec_digits(a).last() == digit_char((a % 10) as int));
        assert(dec_digits(b).last() == digit_char((b % 10) as int));
        assert(dec_digits(a).drop_last() =~= dec_digits(a / 10));
        assert(dec_digits(b).drop_last() =~= dec_digits(b / 10));
        lemma_dec_digits_injective(a / 10, b / 10);
        lemma_digit_char((a % 10) as int, (b % 10) as int);
        assert(a % 10 == b % 10);
        assert(a / 10 == b / 10);
        assert(a == (a / 10) * 10 + a % 10);
        assert(b == (b / 10) * 10 + b % 10);
        assert(a == b);
    } else if a < 10 && b < 10 {
        assert(dec_digits(a)[0] == dec_digits(b)[0]);
        assert(dec_digits(a) == seq![digit_char(a as int)]);
        assert(dec_digits(b) == seq![digit_char(b as int)]);
        assert(seq![digit_char(a as int)][0] == digit_char(a as int));
        assert(seq![digit_char(b as int)][0] == digit_char(b as int));
        assert(digit_char(a as int) == digit_char(b as int));
        lemma_digit_char(a as int, b as int);
        assert(a == b);
    } else {
        assert(dec_digits(a).len() != dec_digits(b).len());
    }
}

/// The value of a digit character is the digit.
proof fn lemma_digit_value_char(d: int)
    requires
        0 <= d < 10,
    ensures
        digit_value(digit_char(d)) == d,
{
}

/// Reading back the decimal rendering of a number gives the number.
pub proof fn lemma_digits_value_dec(n: nat)
    ensures
        digits_value(dec_digits(n)) == n,
        all_digits(dec_digits(n)),
    decreases n,
{
    lemma_dec_digits_are_digits(n);
    lemma_dec_digits_len(n);
    let s = dec_digits(n);
    if n < 10 {
        lemma_digit_value_char(n as int);
        assert(s.drop_last() =~= Seq::<char>::empty());
        assert(s.last() == digit_char(n as int));
        assert(digits_value(s.drop_last()) == 0);
        assert(digits_value(s) == digits_value(s.drop_last()) * 10 + digit_value(s.last()));
    } else {
        lemma_digits_value_dec(n / 10);
        assert(s.drop_last() =~= dec_digits(n / 10));
        assert(s.last() == digit_char((n % 10) as int));
        lemma_digit_value_char((n % 10) as int);
        assert(digits_value(s) == digits_value(s.drop_last()) * 10 + digit_value(s.last()));
        assert(digits_value(s) == (n / 10) * 10 + n % 10);
        assert(n == (n / 10) * 10 + n % 10);
    }
}

/// A run of `'0'` characters.
pub open spec fn zeros(k: nat) -> Seq<char> {
    Seq::new(k, |i: int| '0')
}

proof fn lemma_digits_value_zeros(k: nat)
    ensures
        digits_value(zeros(k)) == 0,
    decreases k,
{
    if k > 0 {
        assert(zeros(k).drop_last() =~= zeros((k - 1) as nat));
        lemma_digits_value_zeros((k - 1) as nat);
    }
}

/// Leading zeros do not change the value of a digit string.
pub proof fn lemma_digits_value_leading_zeros(k: nat, s: Seq<char>)
    ensures
        digits_value(zeros(k) + s) == digits_value(s),
    decreases s.len(),
{
    if s.len() == 0 {
        assert(zeros(k) + s =~= zeros(k));
        lemma_digits_value_zeros(k);
    } else {
        assert((zeros(k) + s).drop_last() =~= zeros(k) + s.drop_last());
        assert((zeros(k) + s).last() == s.last());
        lemma_digits_value_leading_zeros(k, s.drop_last());
    }
}

/// A signed, zero-padded rendering (`{:+0W}`) is a sign followed by
/// digits, and parses back to the number.
pub proof fn lemma_parse_signed_padded(v: int, width: nat)
    requires
        i32::MIN <= v <= i32::MAX,
    ensures
        signed_padded(v, width)[0] == '+' || signed_padded(v, width)[0] == '-',
        forall|i: int| 1 <= i < signed_padded(v, width).len() ==> is_digit(#[trigger] signed_padded(v, width)[i]),
        parse_i32_spec(signed_padded(v, width)) == Some(v as i32),
{
    let d = dec_digits(abs(v));
    let rw: nat = if width >= 1 { (width - 1) as nat } else { 0 };
    let body = zero_pad(d, rw);
    let s = signed_padded(v, width);
    lemma_digits_value_dec(abs(v));
    lemma_dec_digits_len(abs(v));
    if d.len() >= rw {
        assert(body == d);
    } else {
        let k = (rw - d.len()) as nat;
        assert(body == zeros(k) + d);
        lemma_digits_value_leading_zeros(k, d);
        assert forall|i: int| 0 <= i < body.len() implies is_digit(#[trigger] body[i]) by {
            if i >= k {
                assert(body[i] == d[i - k]);
            }
        }
    }
    assert(s.drop_first() =~= body);
    assert forall|i: int| 1 <= i < s.len() implies is_digit(#[trigger] s[i]) by {
        assert(s[i] == body[i - 1]);
    }
    assert(all_digits(body));
    assert(digits_value(body) == abs(v));
}

/// Parsing the decimal rendering of a `u32` gives it back.
pub proof fn lemma_parse_u32_dec(n: u32)
    ensures
        parse_u32_spec(dec_digits(n as nat)) == Some(n),
{
    lemma_digits_value_dec(n as nat);
    lemma_dec_digits_len(n as nat);
    assert(is_digit(dec_digits(n as nat)[0]));
}

pub proof fn lemma_index_of_char(s: Seq<char>, c: char, i: int)
    requires
        0 <= i <= s.len(),
        forall|j: int| 0 <= j < i ==> s[j] != c,
        i < s.len() ==> s[i] == c,
    ensures
        index_of_char(s, c) == (if i < s.len() { i } else { -1 }),
    decreases i,
{
    if i > 0 {
        lemma_index_of_char(s.drop_first(), c, i - 1);
    }
}

proof fn lemma_find_from_found(s: Seq<char>, p: Seq<char>, from: int, i: int)
    requires
        0 <= from <= i,
        forall|j: int| from <= j < i ==> !occurs_at(s, p, j),
        occurs_at(s, p, i),
    ensures
        find_from(s, p, from) == i,
    decreases i - from,
{
    if from < i {
        lemma_find_from_found(s, p, from + 1, i);
    }
}

/// A found index leaves room for the pattern.
pub proof fn lemma_find_from_bounds(s: Seq<char>, p: Seq<char>, from: int)
    ensures
        find_from(s, p, from) == -1 || (from <= find_from(s, p, from) && occurs_at(s, p, find_from(s, p, from))),
    decreases s.len() + 1 - from,
{
    if 0 <= from < s.len() && !occurs_at(s, p, from) {
        lemma_find_from_bounds(s, p, from + 1);
    }
}

proof fn lemma_find_from_absent(s: Seq<char>, p: Seq<char>, from: int)
    requires
        0 <= from <= s.len(),
        forall|j: int| !occurs_at(s, p, j),
    ensures
        find_from(s, p, from) == -1,
    decreases s.len() - from,
{
    if from < s.len() {
        lemma_find_from_absent(s, p, from + 1);
    }
}

// ---------------------------------------------------------------------------
// Executable helpers
// ---------------------------------------------------------------------------

/// Appends one character to a string: `String::push`. Claimed: the string's
/// characters grow by `c` at the end.
#[verifier::external_body]
pub(crate) fn push_char(s: &mut String, c: char)
    ensures
        final(s)@ == old(s)@.push(c),
{
    s.push(c);
}

/// The characters of a string slice.
pub fn chars_of(s: &str) -> (v: Vec<char>)
    ensures
        v@ == s@,
{
    let mut v: Vec<char> = Vec::new();
    for c in it: s.chars()
        invariant
            v@ == it.seq().take(it.index() as int),
    {
        v.push(c);
    }
    v
}

/// A string holding exactly the given characters.
pub fn string_of(v: &Vec<char>) -> (s: String)
    ensures
        s@ == v@,
{
    let mut s = String::new();
    let mut i: usize = 0;
    while i < v.len()
        invariant
            i <= v.len(),
            s@ == v@.take(i as int),
        decreases v.len() - i,
    {
        push_char(&mut s, v[i]);
        proof {
            assert(v@.take(i as int).push(v@[i as int]) =~= v@.take(i + 1));
        }
        i = i + 1;
    }
    proof {
        assert(v@.take(v.len() as int) =~= v@);
    }
    s
}

/// Appends all characters of `src` to `dst`.
pub fn extend_chars(dst: &mut Vec<char>, src: &Vec<char>)
    ensures
        final(dst)@ == old(dst)@ + src@,
{
    let mut i: usize = 0;
    while i < src.len()
        invariant
            i <= src.len(),
            dst@ == old(dst)@ + src@.take(i as int),
        decreases src.len() - i,
    {
        dst.push(src[i]);
        proof {
            assert(src@.take(i as int).push(src@[i as int]) =~= src@.take(i + 1));
        }
        i = i + 1;
    }
    proof {
        assert(src@.take(src.len() as int) =~= src@);
    }
}

/// Appends all characters of a string slice.
pub fn extend_str(dst: &mut Vec<char>, src: &str)
    ensures
        final(dst)@ == old(dst)@ + src@,
{
    let v = chars_of(src);
    extend_chars(dst, &v);
}

/// The character of a decimal digit.
pub fn digit_to_char(d: u64) -> (c: char)
    requires
        d < 10,
    ensures
        c == digit_char(d as int),
{
    if d == 0 { '0' }
    else if d == 1 { '1' }
    else if d == 2 { '2' }
    else if d == 3 { '3' }
    else if d == 4 { '4' }
    else if d == 5 { '5' }
    else if d == 6 { '6' }
    else if d == 7 { '7' }
    else if d == 8 { '8' }
    else { '9' }
}

/// Decimal digits of `n` (Rust's `{}` on an unsigned integer).
pub fn decimal_digits(n: u64) -> (v: Vec<char>)
    ensures
        v@ == dec_digits(n as nat),
    decreases n,
{
    if n < 10 {
        let mut v = Vec::new();
        v.push(digit_to_char(n));
        v
    } else {
        let mut v = decimal_digits(n / 10);
        v.push(digit_to_char(n % 10));
        v
    }
}

/// Decimal rendering of a signed integer (Rust's `{}` on `i64`).
pub fn decimal_int(v: i64) -> (r: Vec<char>)
    ensures
        r@ == dec_int(v as int),
{
    if v < 0 {
        let mag: u64 = if v == i64::MIN { 9223372036854775808u64 } else { (-v) as u64 };
        let digits = decimal_digits(mag);
        let mut r = Vec::new();
        r.push('-');
        extend_chars(&mut r, &digits);
        proof {
            assert(r@ =~= seq!['-'] + dec_digits(abs(v as int)));
        }
        r
    } else {
        decimal_digits(v as u64)
    }
}

/// Rust's `{:+0W}` on an `i32`: explicit sign, magnitude zero-padded to a
/// total of at least `width` characters.
pub fn signed_padded_chars(v: i32, width: usize) -> (r: Vec<char>)
    requires
        width <= 64,
    ensures
        r@ == signed_padded(v as int, width as nat),
{
    let mag: u64 = if v < 0 { (-(v as i64)) as u64 } else { v as u64 };
    let digits = decimal_digits(mag);
    let mut r: Vec<char> = Vec::new();
    r.push(if v < 0 { '-' } else { '+' });
    let rest_width: usize = if width >= 1 { width - 1 } else { 0 };
    let ghost prefix = r@;
    if digits.len() < rest_width {
        let pad = rest_width - digits.len();
        let mut k: usize = 0;
        while k < pad
            invariant
                k <= pad,
                pad == rest_width - digits.len(),
                r@ == prefix + Seq::new(k as nat, |i: int| '0'),
            decreases pad - k,
        {
            r.push('0');
            proof {
                assert(prefix + Seq::new((k + 1) as nat, |i: int| '0') =~= (prefix + Seq::new(k as nat, |i: int| '0')).push('0'));
            }
            k = k + 1;
        }
    }
    extend_chars(&mut r, &digits);
    proof {
        assert(abs(v as int) == mag as nat);
        assert(r@ =~= signed_padded(v as int, width as nat));
    }
    r
}

/// `str::trim` on a character sequence.
pub fn trim_chars(s: &Vec<char>) -> (r: Vec<char>)
    ensures
        r@ == trim_spec(s@),
{
    let n = s.len();
    let mut start: usize = 0;
    proof {
        assert(s@.skip(0) =~= s@);
    }
    while start < n && is_whitespace_char(s[start])
        invariant
            start <= n,
            n == s@.len(),
            leading_ws(s@) == start + leading_ws(s@.skip(start as int)),
        decreases n - start,
    {
        proof {
            assert(s@.skip(start as int).drop_first() =~= s@.skip(start + 1));
        }
        start = start + 1;
    }
    proof {
        assert(leading_ws(s@.skip(start as int)) == 0);
    }
    let ghost t = s@.skip(start as int);
    let mut end: usize = n;
    proof {
        assert(t.take(n - start) =~= t);
    }
    while end > start && is_whitespace_char(s[end - 1])
        invariant
            start <= end <= n,
            n == s@.len(),
            t == s@.skip(start as int),
            trailing_ws(t) == (n - end) + trailing_ws(t.take(end - start)),
        decreases end - start,
    {
        proof {
            assert(t.take(end - start).drop_last() =~= t.take(end - 1 - start));
            assert(t.take(end - start).last() == s@[end - 1]);
        }
        end = end - 1;
    }
    proof {
        assert(trailing_ws(t.take(end - start)) == 0) by {
            if end > start {
                assert(t.take(end - start).last() == s@[end - 1]);
            }
        }
        assert(t.take(end - start) =~= t.take(t.len() - trailing_ws(t)));
    }
    let mut r: Vec<char> = Vec::new();
    let mut i: usize = start;
    while i < end
        invariant
            start <= i <= end,
            end <= n,
            n == s@.len(),
            r@ == s@.subrange(start as int, i as int),
        decreases end - i,
    {
        r.push(s[i]);
        proof {
            assert(s@.subrange(start as int, i as int).push(s@[i as int]) =~= s@.subrange(start as int, i + 1));
        }
        i = i + 1;
    }
    proof {
        assert(r@ =~= t.take(end - start));
    }
    r
}

/// `char::is_whitespace`.
pub fn is_whitespace_char(c: char) -> (b: bool)
    ensures
        b == is_whitespace(c),
{
    ('\u{9}' <= c && c <= '\u{d}') || c == ' ' || c == '\u{85}' || c == '\u{a0}' || c == '\u{1680}'
        || ('\u{2000}' <= c && c <= '\u{200a}') || c == '\u{2028}' || c == '\u{2029}'
        || c == '\u{202f}' || c == '\u{205f}' || c == '\u{3000}'
}

/// `str::trim` on a string slice, as characters.
pub fn trim_str(s: &str) -> (r: Vec<char>)
    ensures
        r@ == trim_spec(s@),
{
    let v = chars_of(s);
    trim_chars(&v)
}

/// Whether `s` starts with `p` at index `at`.
pub fn occurs_at_exec(s: &Vec<char>, p: &Vec<char>, at: usize) -> (b: bool)
    ensures
        b == occurs_at(s@, p@, at as int),
{
    if at > s.len() || p.len() > s.len() - at {
        return false;
    }
    let mut i: usize = 0;
    while i < p.len()
        invariant
            i <= p.len(),
            at + p.len() <= s.len(),
            forall|j: int| 0 <= j < i ==> s@[at + j] == p@[j],
        decreases p.len() - i,
    {
        if s[at + i] != p[i] {
            proof {
                assert(s@.subrange(at as int, at + p.len())[i as int] != p@[i as int]);
            }
            return false;
        }
        i = i + 1;
    }
    proof {
        assert(s@.subrange(at as int, at + p.len()) =~= p@);
    }
    true
}

/// The first index at which `p` occurs in `s` (`str::find`).
pub fn find_seq(s: &Vec<char>, p: &Vec<char>) -> (r: Option<usize>)
    ensures
        match r {
            Some(i) => occurs_at(s@, p@, i as int)
                && forall|j: int| 0 <= j < i ==> !occurs_at(s@, p@, j),
            None => !contains_seq(s@, p@),
        },
{
    let mut i: usize = 0;
    while i < s.len()
        invariant
            i <= s.len(),
            forall|j: int| 0 <= j < i ==> !occurs_at(s@, p@, j),
        decreases s.len() - i,
    {
        if occurs_at_exec(s, p, i) {
            return Some(i);
        }
        i = i + 1;
    }
    if occurs_at_exec(s, p, i) {
        return Some(i);
    }
    proof {
        assert forall|j: int| !occurs_at(s@, p@, j) by {
            if 0 <= j && j < i {
            } else {
            }
        }
    }
    None
}

/// The first index at which `p` occurs in `s`.
pub fn find_first(s: &Vec<char>, p: &Vec<char>) -> (r: Option<usize>)
    ensures
        match r {
            Some(i) => find_from(s@, p@, 0) == i,
            None => find_from(s@, p@, 0) == -1,
        },
{
    let r = find_seq(s, p);
    proof {
        match r {
            Some(i) => lemma_find_from_found(s@, p@, 0, i as int),
            None => {
                assert forall|j: int| !occurs_at(s@, p@, j) by {
                    if occurs_at(s@, p@, j) {
                        assert(contains_seq(s@, p@));
                    }
                }
                lemma_find_from_absent(s@, p@, 0);
            },
        }
    }
    r
}

/// The index of the last `c` in `s`.
pub fn last_index_of_char_exec(s: &Vec<char>, c: char) -> (r: Option<usize>)
    ensures
        match r {
            Some(i) => last_index_of_char(s@, c) == i && i < s@.len(),
            None => last_index_of_char(s@, c) == -1,
        },
{
    let mut i: usize = s.len();
    proof {
        assert(s@.subrange(0, s@.len() as int) =~= s@);
    }
    while i > 0
        invariant
            i <= s@.len(),
            last_index_of_char(s@, c) == last_index_of_char(s@.subrange(0, i as int), c),
        decreases i,
    {
        if s[i - 1] == c {
            return Some(i - 1);
        }
        proof {
            assert(s@.subrange(0, i as int).drop_last() =~= s@.subrange(0, i - 1));
        }
        i = i - 1;
    }
    None
}

/// Whether `s` contains the character `c`.
pub fn has_char_exec(s: &Vec<char>, c: char) -> (b: bool)
    ensures
        b == has_char(s@, c),
{
    let mut i: usize = 0;
    while i < s.len()
        invariant
            i <= s.len(),
            forall|j: int| 0 <= j < i ==> s@[j] != c,
        decreases s.len() - i,
    {
        if s[i] == c {
            return true;
        }
        i = i + 1;
    }
    false
}

/// Index of the first `c` in `s` at or after `from`, relative to the
/// start of `s`.
pub fn index_of_char_from(s: &Vec<char>, c: char, from: usize) -> (r: Option<usize>)
    requires
        from <= s.len(),
    ensures
        match r {
            Some(i) => from <= i < s.len() && index_of_char(s@.subrange(from as int, s@.len() as int), c) == i - from,
            None => index_of_char(s@.subrange(from as int, s@.len() as int), c) == -1,
        },
{
    let ghost t = s@.subrange(from as int, s@.len() as int);
    let mut i: usize = from;
    while i < s.len()
        invariant
            from <= i <= s.len(),
            t == s@.subrange(from as int, s@.len() as int),
            forall|j: int| from <= j < i ==> s@[j] != c,
        decreases s.len() - i,
    {
        if s[i] == c {
            proof {
                lemma_index_of_char(t, c, i - from);
            }
            return Some(i);
        }
        i = i + 1;
    }
    proof {
        lemma_index_of_char(t, c, t.len() as int);
    }
    None
}

/// Whether two character sequences are equal.
pub fn chars_eq(a: &Vec<char>, b: &Vec<char>) -> (r: bool)
    ensures
        r == (a@ == b@),
{
    if a.len() != b.len() {
        return false;
    }
    let mut i: usize = 0;
    while i < a.len()
        invariant
            i <= a.len(),
            a.len() == b.len(),
            forall|j: int| 0 <= j < i ==> a@[j] == b@[j],
        decreases a.len() - i,
    {
        if a[i] != b[i] {
            return false;
        }
        i = i + 1;
    }
    proof {
        assert(a@ =~= b@);
    }
    true
}

/// Whether a character sequence equals a string slice.
pub fn chars_eq_str(a: &Vec<char>, b: &str) -> (r: bool)
    ensures
        r == (a@ == b@),
{
    let bv = chars_of(b);
    chars_eq(a, &bv)
}

/// `chars[from..to]` as a new vector.
pub fn slice_chars(s: &Vec<char>, from: usize, to: usize) -> (r: Vec<char>)
    requires
        from <= to <= s.len(),
    ensures
        r@ == s@.subrange(from as int, to as int),
{
    let mut r: Vec<char> = Vec::new();
    let mut i: usize = from;
    while i < to
        invariant
            from <= i <= to,
            to <= s.len(),
            r@ == s@.subrange(from as int, i as int),
        decreases to - i,
    {
        r.push(s[i]);
        proof {
            assert(s@.subrange(from as int, i as int).push(s@[i as int]) =~= s@.subrange(from as int, i + 1));
        }
        i = i + 1;
    }
    r
}

proof fn lemma_digits_value_bound(s: Seq<char>)
    requires
        forall|i: int| 0 <= i < s.len() ==> is_digit(#[trigger] s[i]),
    ensures
        0 <= digits_value(s),
    decreases s.len(),
{
    if s.len() > 0 {
        lemma_digits_value_bound(s.drop_last());
    }
}

/// The value of the digit run `s[from..to]`, or `None` when it is empty,
/// holds a non-digit, or exceeds `limit`.
fn digits_value_upto(s: &Vec<char>, from: usize, to: usize, limit: u64) -> (r: Option<u64>)
    requires
        from <= to <= s.len(),
        10 <= limit <= u32::MAX + 1,
    ensures
        match r {
            Some(v) => all_digits(s@.subrange(from as int, to as int))
                && v as int == digits_value(s@.subrange(from as int, to as int))
                && v <= limit,
            None => !all_digits(s@.subrange(from as int, to as int))
                || digits_value(s@.subrange(from as int, to as int)) > limit,
        },
{
    if from == to {
        return None;
    }
    let mut acc: u64 = 0;
    let mut i: usize = from;
    let mut over = false;
    while i < to
        invariant
            from <= i <= to,
            to <= s.len(),
            10 <= limit <= u32::MAX + 1,
            forall|j: int| from <= j < i ==> is_digit(#[trigger] s@[j]),
            !over ==> acc as int == digits_value(s@.subrange(from as int, i as int)) && acc <= limit,
            over ==> digits_value(s@.subrange(from as int, i as int)) > limit,
        decreases to - i,
    {
        let c = s[i];
        if !('0' <= c && c <= '9') {
            proof {
                assert(s@.subrange(from as int, to as int)[i - from] == c);
            }
            return None;
        }
        let d: u64 = if c == '0' { 0 } else if c == '1' { 1 } else if c == '2' { 2 }
            else if c == '3' { 3 } else if c == '4' { 4 } else if c == '5' { 5 }
            else if c == '6' { 6 } else if c == '7' { 7 } else if c == '8' { 8 } else { 9 };
        proof {
            assert(d as int == digit_value(c));
            let prev = s@.subrange(from as int, i as int);
            let next = s@.subrange(from as int, i + 1);
            assert(next.drop_last() =~= prev);
            assert(next.last() == c);
            assert(digits_value(next) == digits_value(prev) * 10 + d);
            lemma_digits_value_bound(prev);
        }
        if !over {
            if acc > (limit - d) / 10 {
                over = true;
                proof {
                    assert(acc * 10 + d > limit) by (nonlinear_arith)
                        requires acc > (limit - d) / 10, d <= limit || d > limit, d < 10;
                }
            } else {
                proof {
                    assert(acc * 10 + d <= limit) by (nonlinear_arith)
                        requires acc <= (limit - d) / 10, d < 10, limit <= u32::MAX + 1;
                }
                acc = acc * 10 + d;
            }
        } else {
            proof {
                let prev = s@.subrange(from as int, i as int);
                assert(digits_value(prev) * 10 + d > limit) by (nonlinear_arith)
                    requires digits_value(prev) > limit, d >= 0;
            }
        }
        i = i + 1;
    }
    proof {
        assert forall|j: int| 0 <= j < s@.subrange(from as int, to as int).len()
            implies is_digit(#[trigger] s@.subrange(from as int, to as int)[j]) by {
            assert(s@.subrange(from as int, to as int)[j] == s@[from + j]);
        }
    }
    if over { None } else { Some(acc) }
}

/// `str::parse::<i32>` on a character sequence.
pub fn parse_i32_chars(s: &Vec<char>) -> (r: Option<i32>)
    ensures
        r == parse_i32_spec(s@),
{
    let n = s.len();
    if n > 0 && (s[0] == '+' || s[0] == '-') {
        let neg = s[0] == '-';
        proof {
            assert(s@.drop_first() =~= s@.subrange(1, n as int));
        }
        let limit: u64 = if neg { 2147483648 } else { 2147483647 };
        match digits_value_upto(s, 1, n, limit) {
            Some(v) => {
                if neg {
                    Some((0i64 - v as i64) as i32)
                } else {
                    Some(v as i32)
                }
            },
            None => None,
        }
    } else {
        proof {
            assert(s@ =~= s@.subrange(0, n as int));
        }
        match digits_value_upto(s, 0, n, 2147483647) {
            Some(v) => Some(v as i32),
            None => None,
        }
    }
}

/// `str::parse::<u32>` on a character sequence.
pub fn parse_u32_chars(s: &Vec<char>) -> (r: Option<u32>)
    ensures
        r == parse_u32_spec(s@),
{
    let n = s.len();
    if n > 0 && s[0] == '+' {
        proof {
            assert(s@.drop_first() =~= s@.subrange(1, n as int));
        }
        match digits_value_upto(s, 1, n, 4294967295) {
            Some(v) => Some(v as u32),
            None => None,
        }
    } else {
        proof {
            assert(s@ =~= s@.subrange(0, n as int));
        }
        match digits_value_upto(s, 0, n, 4294967295) {
            Some(v) => Some(v as u32),
            None => None,
        }
    }
}

} // verus!
