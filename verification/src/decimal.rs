//! Decimal field values: distances, margins, speeds.
//!
//! A value is kept exactly, as a whole number of units of a power of ten, so
//! that what is read from a document and what is written back agree to the
//! last digit.

use vstd::prelude::*;
use vstd::arithmetic::div_mod::{lemma_div_denominator, lemma_fundamental_div_mod};
use crate::text::{
    all_digits, bare_token, chars_of, digit_char, digits_value, fixed_digits, is_decoration,
    is_digit, is_digit_char, lemma_bare_token_plain, lemma_continued_concat,
    lemma_continued_prefix, lemma_digit_char, lemma_digits_value_concat, lemma_fixed_digits,
    lemma_nat_text, lemma_pow10_positive, nat_text, pow10, push_fixed, push_nat, scan_from,
    scan_number, strip_decoration,
};

verus! {

/// The most fractional digits that a value keeps.
pub const MAX_SCALE: u8 = 18;

/// The number `digits / 10^scale`, negated if `negative`.
#[derive(Clone, Copy, Debug, PartialEq, Eq, Structural)]
pub struct Decimal {
    pub negative: bool,
    pub digits: u64,
    pub scale: u8,
}

/// A run of digits without the zeros at its end.
pub open spec fn trim_zeros(s: Seq<char>) -> Seq<char>
    decreases s.len(),
{
    if s.len() > 0 && s.last() == '0' {
        trim_zeros(s.drop_last())
    } else {
        s
    }
}

/// The digits before the decimal point of an unsigned decimal notation.
pub open spec fn whole_part(body: Seq<char>) -> Seq<char> {
    match body.index_of_first('.') {
        Some(k) => body.take(k),
        None => body,
    }
}

/// The digits after the decimal point of an unsigned decimal notation.
pub open spec fn fraction_part(body: Seq<char>) -> Seq<char> {
    match body.index_of_first('.') {
        Some(k) => body.skip(k + 1),
        None => Seq::empty(),
    }
}

/// The digits and the scale that a whole part and a fraction denote together.
/// Zeros at the end of the fraction count for nothing.
pub open spec fn magnitude_of(whole: Seq<char>, fraction: Seq<char>) -> Option<(u64, u8)> {
    let kept = trim_zeros(fraction);
    if whole.len() + fraction.len() > 0 && all_digits(whole) && all_digits(fraction) && kept.len()
        <= MAX_SCALE && digits_value(whole + kept) <= u64::MAX {
        Some((digits_value(whole + kept) as u64, kept.len() as u8))
    } else {
        None
    }
}

/// The value that a text denotes: an optional sign, digits, and at most one
/// decimal point among them; at least one digit. A text whose value does not
/// fit is no value.
pub open spec fn decimal_of_text(s: Seq<char>) -> Option<Decimal> {
    let signed = s.len() > 0 && (s[0] == '-' || s[0] == '+');
    let body = if signed {
        s.subrange(1, s.len() as int)
    } else {
        s
    };
    match magnitude_of(whole_part(body), fraction_part(body)) {
        Some((digits, scale)) => Some(
            Decimal { negative: s[0] == '-' && digits > 0, digits, scale },
        ),
        None => None,
    }
}

/// The value that a decorated text denotes: the text without its decoration is
/// read as a value, and where nothing is left of it, zero is read.
pub open spec fn bare_decimal_of_text(s: Seq<char>) -> Option<Decimal> {
    let token = bare_token(s);
    if token.len() == 0 {
        Some(Decimal { negative: false, digits: 0, scale: 0 })
    } else {
        decimal_of_text(token)
    }
}

/// A value in decimal notation: a minus sign if it is negative, the whole
/// part, and, if there is a fraction, a point and `scale` digits.
pub open spec fn decimal_text(d: Decimal) -> Seq<char> {
    let sign = if d.negative {
        seq!['-']
    } else {
        Seq::empty()
    };
    let whole = nat_text(d.digits as nat / pow10(d.scale as nat));
    if d.scale == 0 {
        sign + whole
    } else {
        sign + whole + seq!['.'] + fixed_digits(d.digits as nat, d.scale as nat)
    }
}

impl Decimal {
    /// Each number has one representation: no zero at the end of the fraction,
    /// no negative zero, and a fraction of at most `MAX_SCALE` digits.
    pub open spec fn wf(&self) -> bool {
        &&& self.scale <= MAX_SCALE
        &&& self.scale > 0 ==> self.digits % 10 != 0
        &&& self.negative ==> self.digits != 0
    }

    /// The number zero.
    pub fn zero() -> (d: Decimal)
        ensures
            d == (Decimal { negative: false, digits: 0, scale: 0 }),
            d.wf(),
    {
        Decimal { negative: false, digits: 0, scale: 0 }
    }

    /// Reads a value from a text that may hold decoration around it. A value
    /// written by `to_text` reads as itself.
    pub fn parse_bare(s: &str) -> (r: Option<Decimal>)
        ensures
            r == bare_decimal_of_text(s@),
            r matches Some(d) ==> d.wf(),
            forall|d: Decimal| d.wf() && s@ == #[trigger] decimal_text(d) ==> r == Some(d),
    {
        proof {
            assert forall|d: Decimal| d.wf() && s@ == #[trigger] decimal_text(d) implies bare_token(
                s@,
            ) == s@ && s@.len() > 0 by {
                lemma_decimal_text_plain(d);
                lemma_bare_token_plain(s@);
            }
        }
        let token = strip_decoration(s);
        if token.as_str().is_empty() {
            Some(Decimal::zero())
        } else {
            Decimal::parse(token.as_str())
        }
    }

    /// Reads a value from its decimal notation. A value written by `to_text`
    /// reads as itself.
    pub fn parse(s: &str) -> (r: Option<Decimal>)
        ensures
            r == decimal_of_text(s@),
            r matches Some(d) ==> d.wf(),
            forall|d: Decimal| d.wf() && s@ == #[trigger] decimal_text(d) ==> r == Some(d),
    {
        proof {
            assert forall|d: Decimal| d.wf() && s@ == #[trigger] decimal_text(d) implies
                decimal_of_text(s@) == Some(d) by {
                lemma_decimal_round_trip(d);
            }
        }
        let v = chars_of(s);
        let n = v.len();
        let from: usize = if n > 0 && (v[0] == '-' || v[0] == '+') {
            1
        } else {
            0
        };
        let ghost body = v@.subrange(from as int, n as int);
        assert(from == 0 ==> body =~= v@);
        let dot = find_dot(&v, from);
        let frac_from: usize = if dot < n {
            dot + 1
        } else {
            n
        };
        proof {
            let whole = v@.subrange(from as int, dot as int);
            let fraction = v@.subrange(frac_from as int, n as int);
            if dot < n {
                lemma_first_dot(body, dot - from);
                assert(body.take(dot - from) =~= whole);
                assert(body.skip(dot - from + 1) =~= fraction);
            } else {
                lemma_no_dot(body);
                assert(body =~= whole);
                assert(fraction =~= Seq::<char>::empty());
            }
        }
        match scan_magnitude(&v, from, dot, frac_from) {
            Some((digits, scale)) => Some(
                Decimal { negative: v[0] == '-' && digits > 0, digits, scale },
            ),
            None => None,
        }
    }

    /// Writes the value in decimal notation.
    pub fn to_text(&self) -> (s: String)
        ensures
            s@ == decimal_text(*self),
    {
        let mut s = String::new();
        if self.negative {
            s.push('-');
        }
        let mut whole: u64 = self.digits;
        let mut i: u8 = 0;
        assert(pow10(0) == 1);
        while i < self.scale
            invariant
                i <= self.scale,
                whole == self.digits as nat / pow10(i as nat),
            decreases self.scale - i,
        {
            proof {
                lemma_pow10_positive(i as nat);
                lemma_div_denominator(self.digits as int, pow10(i as nat) as int, 10);
                assert(pow10((i + 1) as nat) == 10 * pow10(i as nat));
                assert(pow10(i as nat) * 10 == 10 * pow10(i as nat)) by (nonlinear_arith);
            }
            whole = whole / 10;
            i += 1;
        }
        let ghost sign = s@;
        push_nat(&mut s, whole);
        if self.scale > 0 {
            s.push('.');
            push_fixed(&mut s, self.digits, self.scale);
            assert(s@ =~= sign + nat_text(whole as nat) + seq!['.'] + fixed_digits(
                self.digits as nat,
                self.scale as nat,
            ));
        }
        assert(sign =~= if self.negative {
            seq!['-']
        } else {
            Seq::<char>::empty()
        });
        s
    }
}

/// The place of the first decimal point in `v[from..]`, or the length of `v`.
fn find_dot(v: &Vec<char>, from: usize) -> (dot: usize)
    requires
        from <= v.len(),
    ensures
        from <= dot <= v.len(),
        dot < v.len() ==> v@[dot as int] == '.',
        forall|j: int| from <= j < dot ==> v@[j] != '.',
{
    let mut dot: usize = from;
    while dot < v.len() && v[dot] != '.'
        invariant
            from <= dot <= v.len(),
            forall|j: int| from <= j < dot ==> v@[j] != '.',
        decreases v.len() - dot,
    {
        dot += 1;
    }
    dot
}

/// Where `v[from..]` ends once its final zeros are left out, if it is made of
/// digits only.
fn find_kept_end(v: &Vec<char>, from: usize) -> (r: Option<usize>)
    requires
        from <= v.len(),
    ensures
        r is Some <==> all_digits(v@.subrange(from as int, v.len() as int)),
        r matches Some(end) ==> from <= end <= v.len() && trim_zeros(
            v@.subrange(from as int, v.len() as int),
        ) == v@.subrange(from as int, end as int),
{
    let n = v.len();
    let mut end: usize = from;
    let mut kept_end: usize = from;
    while end < n
        invariant
            from <= kept_end <= end <= n == v.len(),
            all_digits(v@.subrange(from as int, end as int)),
            trim_zeros(v@.subrange(from as int, end as int)) == v@.subrange(
                from as int,
                kept_end as int,
            ),
        decreases n - end,
    {
        let c = v[end];
        if !is_digit_char(c) {
            assert(v@.subrange(from as int, n as int)[end - from] == c);
            return None;
        }
        proof {
            let before = v@.subrange(from as int, end as int);
            let after = v@.subrange(from as int, end + 1);
            assert(after.drop_last() =~= before);
            assert(after.last() == c);
        }
        if c != '0' {
            kept_end = end + 1;
        }
        end += 1;
    }
    Some(kept_end)
}

/// Reads the whole part `v[from..dot]` and the fraction `v[frac_from..]`.
fn scan_magnitude(v: &Vec<char>, from: usize, dot: usize, frac_from: usize) -> (r: Option<
    (u64, u8),
>)
    requires
        from <= dot <= frac_from <= v.len(),
    ensures
        r == magnitude_of(
            v@.subrange(from as int, dot as int),
            v@.subrange(frac_from as int, v.len() as int),
        ),
        r matches Some((digits, scale)) ==> scale <= MAX_SCALE && (scale > 0 ==> digits % 10 != 0),
{
    let n = v.len();
    let ghost whole = v@.subrange(from as int, dot as int);
    let ghost fraction = v@.subrange(frac_from as int, n as int);
    if dot - from + (n - frac_from) == 0 {
        return None;
    }
    let kept_end = match find_kept_end(v, frac_from) {
        Some(end) => end,
        None => {
            return None;
        },
    };
    let ghost kept = v@.subrange(frac_from as int, kept_end as int);
    proof {
        lemma_kept_digits(fraction);
        lemma_continued_concat(whole, kept);
        lemma_value_ends_in_zero(whole, kept);
    }
    let first = match scan_number(v, from, dot, u64::MAX) {
        Some(w) => w,
        None => {
            proof {
                assert((whole + kept).take(whole.len() as int) =~= whole);
                lemma_continued_prefix(0, whole + kept, whole.len() as int);
            }
            return None;
        },
    };
    if kept_end - frac_from > MAX_SCALE as usize {
        return None;
    }
    match scan_from(v, frac_from, kept_end, first, u64::MAX) {
        Some(digits) => Some((digits, (kept_end - frac_from) as u8)),
        None => None,
    }
}

/// A point before which no point stands is the first.
pub proof fn lemma_first_dot(s: Seq<char>, k: int)
    requires
        0 <= k < s.len(),
        s[k] == '.',
        forall|j: int| 0 <= j < k ==> s[j] != '.',
    ensures
        s.index_of_first('.') == Some(k),
{
    s.index_of_first_ensures('.');
    assert(s.contains('.'));
}

/// A text without a point has no first point.
pub proof fn lemma_no_dot(s: Seq<char>)
    requires
        forall|j: int| 0 <= j < s.len() ==> s[j] != '.',
    ensures
        s.index_of_first('.') == None::<int>,
{
    s.index_of_first_ensures('.');
}

/// What is left of a run of digits without its final zeros is a run of digits
/// that does not end in zero.
pub proof fn lemma_kept_digits(s: Seq<char>)
    requires
        all_digits(s),
    ensures
        all_digits(trim_zeros(s)),
        trim_zeros(s).len() <= s.len(),
        trim_zeros(s).len() > 0 ==> trim_zeros(s).last() != '0',
    decreases s.len(),
{
    if s.len() > 0 && s.last() == '0' {
        lemma_kept_digits(s.drop_last());
    }
}

/// The number that a run denotes ends in the digit that the run ends in.
pub proof fn lemma_value_ends_in_zero(whole: Seq<char>, kept: Seq<char>)
    requires
        all_digits(kept),
        kept.len() > 0 ==> kept.last() != '0',
    ensures
        kept.len() > 0 ==> digits_value(whole + kept) % 10 != 0,
{
    if kept.len() > 0 {
        let run = whole + kept;
        assert(run.last() == kept.last());
        assert(is_digit(kept[kept.len() - 1]));
    }
}

/// A value in decimal notation holds a sign, digits and a point, at least one
/// of them, and no decoration.
pub proof fn lemma_decimal_text_plain(d: Decimal)
    ensures
        decimal_text(d).len() > 0,
        forall|i: int|
            0 <= i < decimal_text(d).len() ==> !is_decoration(#[trigger] decimal_text(d)[i]),
{
    let whole = nat_text(d.digits as nat / pow10(d.scale as nat));
    let fraction = fixed_digits(d.digits as nat, d.scale as nat);
    lemma_nat_text(d.digits as nat / pow10(d.scale as nat));
    lemma_fixed_digits(d.digits as nat, d.scale as nat);
    assert forall|i: int| 0 <= i < whole.len() implies !is_decoration(#[trigger] whole[i]) by {
        assert(is_digit(whole[i]));
    }
    assert forall|i: int| 0 <= i < fraction.len() implies !is_decoration(
        #[trigger] fraction[i],
    ) by {
        assert(is_digit(fraction[i]));
    }
}

/// Reading back what was written gives the same value.
pub proof fn lemma_decimal_round_trip(d: Decimal)
    requires
        d.wf(),
    ensures
        decimal_of_text(decimal_text(d)) == Some(d),
{
    let scale = d.scale as nat;
    let p = pow10(scale);
    let q = d.digits as nat / p;
    let text = decimal_text(d);
    let whole = nat_text(q);
    let fraction = fixed_digits(d.digits as nat, scale);
    lemma_pow10_positive(scale);
    lemma_nat_text(q);
    lemma_fixed_digits(d.digits as nat, scale);
    let body = if d.scale == 0 {
        whole
    } else {
        whole + seq!['.'] + fraction
    };
    if d.negative {
        assert(text[0] == '-');
        assert(text.subrange(1, text.len() as int) =~= body);
    } else {
        assert(text =~= body);
        assert(text[0] == whole[0]);
        assert(is_digit(whole[0]));
    }
    if d.scale == 0 {
        assert forall|j: int| 0 <= j < body.len() implies body[j] != '.' by {
            assert(is_digit(whole[j]));
        }
        lemma_no_dot(body);
        assert(pow10(0) == 1);
        assert(whole + trim_zeros(Seq::<char>::empty()) =~= whole);
        assert(p == 1);
        assert(q == d.digits as nat / 1);
        assert(magnitude_of(whole, Seq::<char>::empty()) == Some((d.digits, 0u8)));
    } else {
        let k = whole.len() as int;
        assert(body[k] == '.');
        assert forall|j: int| 0 <= j < k implies body[j] != '.' by {
            assert(body[j] == whole[j]);
            assert(is_digit(whole[j]));
        }
        lemma_first_dot(body, k);
        assert(body.take(k) =~= whole);
        assert(body.skip(k + 1) =~= fraction);
        lemma_digit_char(d.digits as nat % 10);
        assert(fraction.last() == digit_char(d.digits as nat % 10));
        assert(trim_zeros(fraction) == fraction);
        lemma_digits_value_concat(whole, fraction);
        lemma_fundamental_div_mod(d.digits as int, p as int);
        assert(q * p == p * q) by (nonlinear_arith);
        assert(digits_value(whole + fraction) == d.digits);
        assert(magnitude_of(whole, fraction) == Some((d.digits, d.scale)));
    }
}

} // verus!
