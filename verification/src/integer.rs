//! Integer and boolean field values: how they are read from text and written
//! back.

use vstd::prelude::*;
use crate::text::{
    all_digits, chars_of, digits_value, is_digit, lemma_nat_text, nat_text, push_nat, scan_number,
    str_eq,
};

verus! {

/// The integer that a text denotes: an optional sign, then digits and nothing
/// else. A minus sign is part of the notation only where `signed` holds.
pub open spec fn integer_value(s: Seq<char>, signed: bool) -> Option<int> {
    let minus = signed && s.len() > 0 && s[0] == '-';
    let plus = s.len() > 0 && s[0] == '+';
    let body = if minus || plus {
        s.subrange(1, s.len() as int)
    } else {
        s
    };
    if body.len() > 0 && all_digits(body) {
        Some(
            if minus {
                -(digits_value(body) as int)
            } else {
                digits_value(body) as int
            },
        )
    } else {
        None
    }
}

/// The 32-bit signed integer that a text denotes, if it denotes one.
pub open spec fn i32_of_text(s: Seq<char>) -> Option<i32> {
    match integer_value(s, true) {
        Some(v) => if i32::MIN <= v <= i32::MAX {
            Some(v as i32)
        } else {
            None
        },
        None => None,
    }
}

/// The 8-bit unsigned integer that a text denotes, if it denotes one.
pub open spec fn u8_of_text(s: Seq<char>) -> Option<u8> {
    match integer_value(s, false) {
        Some(v) => if 0 <= v <= u8::MAX {
            Some(v as u8)
        } else {
            None
        },
        None => None,
    }
}

/// An integer in decimal notation, with a minus sign if it is negative.
pub open spec fn int_text(v: int) -> Seq<char> {
    if v < 0 {
        seq!['-'] + nat_text((-v) as nat)
    } else {
        nat_text(v as nat)
    }
}

/// The boolean that a text denotes: `true` or `false`, written so.
pub open spec fn bool_of_text(s: Seq<char>) -> Option<bool> {
    if s == "true"@ {
        Some(true)
    } else if s == "false"@ {
        Some(false)
    } else {
        None
    }
}

/// A boolean as text.
pub open spec fn bool_text(b: bool) -> Seq<char> {
    if b {
        "true"@
    } else {
        "false"@
    }
}

/// Reads a 32-bit signed integer. An integer written by `i32_text` reads as
/// itself.
pub fn parse_i32(s: &str) -> (r: Option<i32>)
    ensures
        r == i32_of_text(s@),
        forall|x: i32| s@ == #[trigger] int_text(x as int) ==> r == Some(x),
{
    proof {
        assert forall|x: i32| s@ == #[trigger] int_text(x as int) implies i32_of_text(s@) == Some(
            x,
        ) by {
            lemma_i32_round_trip(x);
        }
    }
    let v = chars_of(s);
    let n = v.len();
    if n == 0 {
        return None;
    }
    let minus = v[0] == '-';
    let from: usize = if minus || v[0] == '+' {
        1
    } else {
        0
    };
    if from == n {
        return None;
    }
    assert(v@.subrange(0, n as int) =~= v@);
    match scan_number(&v, from, n, 2147483648) {
        Some(m) => {
            if minus {
                Some((0 - m as i64) as i32)
            } else if m <= 2147483647 {
                Some(m as i32)
            } else {
                None
            }
        },
        None => None,
    }
}

/// Reads an 8-bit unsigned integer. An integer written by `u8_text` reads as
/// itself.
pub fn parse_u8(s: &str) -> (r: Option<u8>)
    ensures
        r == u8_of_text(s@),
        forall|x: u8| s@ == #[trigger] int_text(x as int) ==> r == Some(x),
{
    proof {
        assert forall|x: u8| s@ == #[trigger] int_text(x as int) implies u8_of_text(s@) == Some(
            x,
        ) by {
            lemma_u8_round_trip(x);
        }
    }
    let v = chars_of(s);
    let n = v.len();
    if n == 0 {
        return None;
    }
    let from: usize = if v[0] == '+' {
        1
    } else {
        0
    };
    if from == n {
        return None;
    }
    assert(v@.subrange(0, n as int) =~= v@);
    match scan_number(&v, from, n, 255) {
        Some(m) => Some(m as u8),
        None => None,
    }
}

/// Reads `true` or `false`. A boolean written by `bool_string` reads as itself.
pub fn parse_bool(s: &str) -> (r: Option<bool>)
    ensures
        r == bool_of_text(s@),
        forall|b: bool| s@ == #[trigger] bool_text(b) ==> r == Some(b),
{
    proof {
        assert forall|b: bool| s@ == #[trigger] bool_text(b) implies bool_of_text(s@) == Some(
            b,
        ) by {
            lemma_bool_round_trip(b);
        }
    }
    if str_eq(s, "true") {
        Some(true)
    } else if str_eq(s, "false") {
        Some(false)
    } else {
        None
    }
}

/// Writes a 32-bit signed integer in decimal notation.
pub fn i32_text(x: i32) -> (s: String)
    ensures
        s@ == int_text(x as int),
{
    let mut s = String::new();
    if x < 0 {
        s.push('-');
        push_nat(&mut s, (0 - x as i64) as u64);
    } else {
        push_nat(&mut s, x as u64);
    }
    assert(Seq::<char>::empty().push('-') =~= seq!['-']);
    assert(Seq::<char>::empty() + nat_text(x as nat) =~= nat_text(x as nat));
    s
}

/// Writes an 8-bit unsigned integer in decimal notation.
pub fn u8_text(x: u8) -> (s: String)
    ensures
        s@ == int_text(x as int),
{
    let mut s = String::new();
    push_nat(&mut s, x as u64);
    assert(Seq::<char>::empty() + nat_text(x as nat) =~= nat_text(x as nat));
    s
}

/// Writes `true` or `false`.
pub fn bool_string(b: bool) -> (s: String)
    ensures
        s@ == bool_text(b),
{
    if b {
        "true".to_owned()
    } else {
        "false".to_owned()
    }
}

/// Reading back what was written gives the same integer.
pub proof fn lemma_integer_round_trip(v: int, signed: bool)
    requires
        signed || v >= 0,
    ensures
        integer_value(int_text(v), signed) == Some(v),
{
    let t = int_text(v);
    if v < 0 {
        let m = (-v) as nat;
        lemma_nat_text(m);
        assert(t[0] == '-');
        assert(t.subrange(1, t.len() as int) =~= nat_text(m));
    } else {
        lemma_nat_text(v as nat);
        assert(is_digit(t[0]));
    }
}

/// Reading back what was written gives the same 32-bit signed integer.
pub proof fn lemma_i32_round_trip(x: i32)
    ensures
        i32_of_text(int_text(x as int)) == Some(x),
{
    lemma_integer_round_trip(x as int, true);
}

/// Reading back what was written gives the same 8-bit unsigned integer.
pub proof fn lemma_u8_round_trip(x: u8)
    ensures
        u8_of_text(int_text(x as int)) == Some(x),
{
    lemma_integer_round_trip(x as int, false);
}

/// Reading back what was written gives the same boolean.
pub proof fn lemma_bool_round_trip(b: bool)
    ensures
        bool_of_text(bool_text(b)) == Some(b),
{
    reveal_strlit("true");
    reveal_strlit("false");
    assert("true"@.len() != "false"@.len());
}

} // verus!
