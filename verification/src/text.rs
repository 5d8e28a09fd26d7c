//! Text of field values: comparison, decimal digits, and the integer and
//! boolean notations that field values are written in.

use vstd::prelude::*;
use vstd::string::*;
use vstd::utf8::*;

verus! {

/// `String::push` appends one character.
pub assume_specification[ String::push ](s: &mut String, c: char)
    ensures
        final(s)@ == old(s)@.push(c),
;

/// Whether two strings hold the same characters.
pub fn str_eq(a: &str, b: &str) -> (r: bool)
    ensures
        r == (a@ == b@),
{
    let x = a.as_bytes();
    let y = b.as_bytes();
    proof {
        encode_utf8_decode_utf8(a@);
        encode_utf8_decode_utf8(b@);
    }
    if x.len() != y.len() {
        return false;
    }
    let mut i: usize = 0;
    while i < x.len()
        invariant
            i <= x.len(),
            x.len() == y.len(),
            x@ == encode_utf8(a@),
            y@ == encode_utf8(b@),
            forall|j: int| 0 <= j < i ==> x@[j] == y@[j],
        decreases x.len() - i,
    {
        if x[i] != y[i] {
            return false;
        }
        i += 1;
    }
    assert(x@ =~= y@);
    true
}

/// The characters of a string, in order.
pub fn chars_of(s: &str) -> (v: Vec<char>)
    ensures
        v@ == s@,
{
    let mut v: Vec<char> = Vec::new();
    for c in it: s.chars()
        invariant
            v@ == it.seq().take(it.index() as int),
            it.seq() == s@,
    {
        v.push(c);
    }
    v
}

/// The string made of the characters `v[from..to]`.
pub(crate) fn string_of(v: &Vec<char>, from: usize, to: usize) -> (s: String)
    requires
        from <= to <= v.len(),
    ensures
        s@ == v@.subrange(from as int, to as int),
{
    let mut s = String::new();
    let mut i: usize = from;
    while i < to
        invariant
            from <= i <= to <= v.len(),
            s@ == v@.subrange(from as int, i as int),
        decreases to - i,
    {
        s.push(v[i]);
        assert(v@.subrange(from as int, i + 1) =~= v@.subrange(from as int, i as int).push(
            v@[i as int],
        ));
        i += 1;
    }
    s
}

/// Whether a character is one of the ten digits.
pub open spec fn is_digit(c: char) -> bool {
    '0' <= c && c <= '9'
}

/// The number that a digit denotes.
pub open spec fn digit_value(c: char) -> nat {
    (c as u32 - '0' as u32) as nat
}

/// The digit that denotes a number below ten.
pub open spec fn digit_char(d: nat) -> char {
    (d + '0' as u32) as u8 as char
}

/// Whether a text is made of digits only.
pub open spec fn all_digits(s: Seq<char>) -> bool {
    forall|i: int| 0 <= i < s.len() ==> is_digit(#[trigger] s[i])
}

/// The number that `start` becomes when the digits of `s` are written after it.
pub open spec fn continued_value(start: nat, s: Seq<char>) -> nat
    decreases s.len(),
{
    if s.len() == 0 {
        start
    } else {
        continued_value(start, s.drop_last()) * 10 + digit_value(s.last())
    }
}

/// The number that a run of decimal digits denotes; leading zeros count for nothing.
pub open spec fn digits_value(s: Seq<char>) -> nat {
    continued_value(0, s)
}

pub(crate) fn is_digit_char(c: char) -> (r: bool)
    ensures
        r == is_digit(c),
{
    c >= '0' && c <= '9'
}

pub(crate) fn value_of_digit(c: char) -> (d: u8)
    requires
        is_digit(c),
    ensures
        d == digit_value(c),
        d <= 9,
{
    (c as u32 - '0' as u32) as u8
}

pub(crate) fn char_of_digit(d: u8) -> (c: char)
    requires
        d <= 9,
    ensures
        c == digit_char(d as nat),
        is_digit(c),
        digit_value(c) == d,
{
    (d + 48u8) as char
}

/// Ten to the power `e`.
pub open spec fn pow10(e: nat) -> nat
    decreases e,
{
    if e == 0 {
        1
    } else {
        10 * pow10((e - 1) as nat)
    }
}

/// One more digit makes ten times the number and the digit more.
pub proof fn lemma_digits_value_push(s: Seq<char>, c: char)
    ensures
        digits_value(s.push(c)) == digits_value(s) * 10 + digit_value(c),
{
    assert(s.push(c).drop_last() =~= s);
}

/// The digits `b` after the digits `a` denote the number of `a`, moved up by
/// the length of `b`, and the number of `b` more.
pub proof fn lemma_digits_value_concat(a: Seq<char>, b: Seq<char>)
    ensures
        digits_value(a + b) == digits_value(a) * pow10(b.len()) + digits_value(b),
    decreases b.len(),
{
    if b.len() == 0 {
        assert(a + b =~= a);
        assert(pow10(0) == 1);
    } else {
        lemma_digits_value_concat(a, b.drop_last());
        assert((a + b).drop_last() =~= a + b.drop_last());
        assert((a + b).last() == b.last());
        let x = digits_value(a) as int;
        let p = pow10(b.drop_last().len()) as int;
        assert(pow10(b.len()) == 10 * p);
        assert((x * p) * 10 == x * (10 * p)) by (nonlinear_arith);
    }
}

/// A number continued by some of the digits is no more than the number
/// continued by all of them.
pub proof fn lemma_continued_prefix(start: nat, s: Seq<char>, k: int)
    requires
        0 <= k <= s.len(),
    ensures
        continued_value(start, s.take(k)) <= continued_value(start, s),
    decreases s.len() - k,
{
    if k == s.len() {
        assert(s.take(k) =~= s);
    } else {
        lemma_continued_prefix(start, s.drop_last(), k);
        assert(s.drop_last().take(k) =~= s.take(k));
    }
}

/// Writing `b` after the digits `a` continues the number that `a` denotes.
pub proof fn lemma_continued_concat(a: Seq<char>, b: Seq<char>)
    ensures
        continued_value(digits_value(a), b) == digits_value(a + b),
    decreases b.len(),
{
    if b.len() == 0 {
        assert(a + b =~= a);
    } else {
        lemma_continued_concat(a, b.drop_last());
        assert((a + b).drop_last() =~= a + b.drop_last());
        assert((a + b).last() == b.last());
    }
}

/// What `start` followed by a digit run denotes, when the run is made of
/// digits only and the number is at most `limit`.
pub open spec fn bounded_continued(start: nat, s: Seq<char>, limit: u64) -> Option<u64> {
    if all_digits(s) && continued_value(start, s) <= limit {
        Some(continued_value(start, s) as u64)
    } else {
        None
    }
}

/// What a digit run denotes, when it is made of digits only and denotes at most `limit`.
pub open spec fn bounded_digits(s: Seq<char>, limit: u64) -> Option<u64> {
    if all_digits(s) && digits_value(s) <= limit {
        Some(digits_value(s) as u64)
    } else {
        None
    }
}

/// Reads `v[from..to]` as decimal digits written after the number `start`.
pub(crate) fn scan_from(v: &Vec<char>, from: usize, to: usize, start: u64, limit: u64) -> (r: Option<
    u64,
>)
    requires
        from <= to <= v.len(),
        start <= limit,
    ensures
        r == bounded_continued(start as nat, v@.subrange(from as int, to as int), limit),
{
    let ghost run = v@.subrange(from as int, to as int);
    let mut acc: u64 = start;
    let mut i: usize = from;
    while i < to
        invariant
            from <= i <= to <= v.len(),
            run == v@.subrange(from as int, to as int),
            all_digits(run.take(i - from)),
            acc == continued_value(start as nat, run.take(i - from)),
            acc <= limit,
        decreases to - i,
    {
        let c = v[i];
        if !is_digit_char(c) {
            assert(run[i - from] == c);
            return None;
        }
        let d = value_of_digit(c);
        let next: u128 = acc as u128 * 10 + d as u128;
        proof {
            assert(run.take(i - from + 1).drop_last() =~= run.take(i - from));
            assert(run.take(i - from + 1).last() == c);
        }
        if next > limit as u128 {
            proof {
                lemma_continued_prefix(start as nat, run, i - from + 1);
            }
            return None;
        }
        acc = next as u64;
        i += 1;
    }
    assert(run.take(to - from) =~= run);
    Some(acc)
}

/// Reads `v[from..to]` as a run of decimal digits that denotes at most `limit`.
pub(crate) fn scan_number(v: &Vec<char>, from: usize, to: usize, limit: u64) -> (r: Option<u64>)
    requires
        from <= to <= v.len(),
    ensures
        r == bounded_digits(v@.subrange(from as int, to as int), limit),
{
    scan_from(v, from, to, 0, limit)
}

/// The digits of a positive number, most significant first; none for zero.
pub open spec fn digits_of(n: nat) -> Seq<char>
    decreases n,
{
    if n == 0 {
        Seq::empty()
    } else {
        digits_of(n / 10).push(digit_char(n % 10))
    }
}

/// A natural number in decimal notation, without leading zeros.
pub open spec fn nat_text(n: nat) -> Seq<char> {
    if n == 0 {
        seq!['0']
    } else {
        digits_of(n)
    }
}

/// The last `width` digits of `n`, zero-padded on the left.
pub open spec fn fixed_digits(n: nat, width: nat) -> Seq<char>
    decreases width,
{
    if width == 0 {
        Seq::empty()
    } else {
        fixed_digits(n / 10, (width - 1) as nat).push(digit_char(n % 10))
    }
}

/// A digit denotes the number that it is the digit of.
pub proof fn lemma_digit_char(d: nat)
    requires
        d <= 9,
    ensures
        is_digit(digit_char(d)),
        digit_value(digit_char(d)) == d,
        (digit_char(d) == '0') == (d == 0),
{
}

/// The digits of a number are digits, and denote the number.
pub proof fn lemma_digits_of(n: nat)
    ensures
        all_digits(digits_of(n)),
        digits_value(digits_of(n)) == n,
        n > 0 ==> digits_of(n).len() > 0,
    decreases n,
{
    if n > 0 {
        lemma_digits_of(n / 10);
        lemma_digit_char(n % 10);
        lemma_digits_value_push(digits_of(n / 10), digit_char(n % 10));
    }
}

/// The notation of a number is made of digits, at least one, and denotes the
/// number.
pub proof fn lemma_nat_text(n: nat)
    ensures
        all_digits(nat_text(n)),
        digits_value(nat_text(n)) == n,
        nat_text(n).len() > 0,
{
    lemma_digits_of(n);
    if n == 0 {
        lemma_digit_char(0);
        assert(seq!['0'].drop_last() =~= Seq::<char>::empty());
    }
}

/// Digits of a fixed width are as many digits as the width, and denote the
/// number up to that width.
pub proof fn lemma_fixed_digits(n: nat, width: nat)
    ensures
        fixed_digits(n, width).len() == width,
        all_digits(fixed_digits(n, width)),
        digits_value(fixed_digits(n, width)) == n % pow10(width),
    decreases width,
{
    if width > 0 {
        let w = (width - 1) as nat;
        lemma_fixed_digits(n / 10, w);
        lemma_digit_char(n % 10);
        lemma_digits_value_push(fixed_digits(n / 10, w), digit_char(n % 10));
        lemma_pow10_positive(w);
        vstd::arithmetic::div_mod::lemma_breakdown(n as int, 10, pow10(w) as int);
    } else {
        assert(n % 1 == 0);
    }
}

/// A power of ten is positive.
pub proof fn lemma_pow10_positive(e: nat)
    ensures
        pow10(e) > 0,
    decreases e,
{
    if e > 0 {
        lemma_pow10_positive((e - 1) as nat);
    }
}

/// Appends the digits of `n`; nothing for zero.
pub(crate) fn push_digits(out: &mut String, n: u64)
    ensures
        final(out)@ == old(out)@ + digits_of(n as nat),
    decreases n,
{
    if n > 0 {
        push_digits(out, n / 10);
        out.push(char_of_digit((n % 10) as u8));
        assert(old(out)@ + digits_of(n as nat) =~= (old(out)@ + digits_of((n / 10) as nat)).push(
            digit_char((n % 10) as nat),
        ));
    } else {
        assert(old(out)@ + digits_of(0) =~= old(out)@);
    }
}

/// Appends `n` in decimal notation.
pub(crate) fn push_nat(out: &mut String, n: u64)
    ensures
        final(out)@ == old(out)@ + nat_text(n as nat),
{
    if n == 0 {
        out.push('0');
        assert(old(out)@ + nat_text(0) =~= old(out)@.push('0'));
    } else {
        push_digits(out, n);
    }
}

/// Appends the last `width` digits of `n`, zero-padded.
pub(crate) fn push_fixed(out: &mut String, n: u64, width: u8)
    ensures
        final(out)@ == old(out)@ + fixed_digits(n as nat, width as nat),
    decreases width,
{
    if width > 0 {
        push_fixed(out, n / 10, width - 1);
        out.push(char_of_digit((n % 10) as u8));
        assert(old(out)@ + fixed_digits(n as nat, width as nat) =~= (old(out)@ + fixed_digits(
            (n / 10) as nat,
            (width - 1) as nat,
        )).push(digit_char((n % 10) as nat)));
    } else {
        assert(old(out)@ + fixed_digits(n as nat, 0) =~= old(out)@);
    }
}

/// White space, as Unicode defines it.
pub open spec fn is_space(c: char) -> bool {
    ||| c == ' '
    ||| ('\t' <= c && c <= '\r')
    ||| c == '\u{85}'
    ||| c == '\u{a0}'
    ||| c == '\u{1680}'
    ||| ('\u{2000}' <= c && c <= '\u{200a}')
    ||| c == '\u{2028}'
    ||| c == '\u{2029}'
    ||| c == '\u{202f}'
    ||| c == '\u{205f}'
    ||| c == '\u{3000}'
}

/// What may stand around a value without being part of it: square brackets
/// and white space.
pub open spec fn is_decoration(c: char) -> bool {
    c == '[' || c == ']' || is_space(c)
}

/// The first place at or after `i` that holds no decoration.
pub open spec fn skip_decoration(s: Seq<char>, i: int) -> int
    decreases s.len() - i,
{
    if 0 <= i < s.len() && is_decoration(s[i]) {
        skip_decoration(s, i + 1)
    } else {
        i
    }
}

/// The end of `s[..j]` once the decoration at its end is left out.
pub open spec fn bare_end(s: Seq<char>, j: int) -> int
    decreases j,
{
    if 0 < j <= s.len() && is_decoration(s[j - 1]) {
        bare_end(s, j - 1)
    } else {
        j
    }
}

/// The first place in `s[i..end]` that holds white space, or `end`.
pub open spec fn token_end(s: Seq<char>, i: int, end: int) -> int
    decreases end - i,
{
    if 0 <= i < end <= s.len() && !is_space(s[i]) {
        token_end(s, i + 1, end)
    } else {
        i
    }
}

/// A value without its decoration: what is left of `s` once the brackets and
/// white space at both ends are gone, up to the first white space in it.
pub open spec fn bare_token(s: Seq<char>) -> Seq<char> {
    let start = skip_decoration(s, 0);
    let end = bare_end(s, s.len() as int);
    if start < end {
        s.subrange(start, token_end(s, start, end))
    } else {
        Seq::empty()
    }
}

pub(crate) fn is_space_char(c: char) -> (r: bool)
    ensures
        r == is_space(c),
{
    c == ' ' || (c >= '\t' && c <= '\r') || c == '\u{85}' || c == '\u{a0}' || c == '\u{1680}' || (c
        >= '\u{2000}' && c <= '\u{200a}') || c == '\u{2028}' || c == '\u{2029}' || c == '\u{202f}'
        || c == '\u{205f}' || c == '\u{3000}'
}

pub(crate) fn is_decoration_char(c: char) -> (r: bool)
    ensures
        r == is_decoration(c),
{
    c == '[' || c == ']' || is_space_char(c)
}

/// Takes the decoration off a value.
pub fn strip_decoration(s: &str) -> (t: String)
    ensures
        t@ == bare_token(s@),
{
    let v = chars_of(s);
    let n = v.len();
    let mut start: usize = 0;
    while start < n && is_decoration_char(v[start])
        invariant
            start <= n == v.len(),
            skip_decoration(v@, 0) == skip_decoration(v@, start as int),
        decreases n - start,
    {
        start += 1;
    }
    let mut end: usize = n;
    while end > 0 && is_decoration_char(v[end - 1])
        invariant
            end <= n == v.len(),
            bare_end(v@, n as int) == bare_end(v@, end as int),
        decreases end,
    {
        end -= 1;
    }
    if start >= end {
        return String::new();
    }
    let mut stop: usize = start;
    while stop < end && !is_space_char(v[stop])
        invariant
            start <= stop <= end <= n == v.len(),
            token_end(v@, start as int, end as int) == token_end(v@, stop as int, end as int),
        decreases end - stop,
    {
        stop += 1;
    }
    string_of(&v, start, stop)
}

/// A text that holds no decoration is its own bare value.
pub proof fn lemma_bare_token_plain(s: Seq<char>)
    requires
        forall|i: int| 0 <= i < s.len() ==> !is_decoration(#[trigger] s[i]),
    ensures
        bare_token(s) == s,
{
    if s.len() > 0 {
        lemma_token_end_plain(s, 0);
        assert(s.subrange(0, s.len() as int) =~= s);
    }
}

proof fn lemma_token_end_plain(s: Seq<char>, i: int)
    requires
        0 <= i <= s.len(),
        forall|i: int| 0 <= i < s.len() ==> !is_decoration(#[trigger] s[i]),
    ensures
        token_end(s, i, s.len() as int) == s.len(),
    decreases s.len() - i,
{
    if i < s.len() {
        assert(!is_decoration(s[i]));
        lemma_token_end_plain(s, i + 1);
    }
}

} // verus!
