//! Decimal text of integers, and the value of a digit string.
//!
//! `dec_digits` / `dec_int` give the exact decimal spelling of a number, used
//! both for value display and for interpolating numbers into error messages.
//! `digits_val` gives the numeric value of a string of ASCII digits, used by
//! the lexer to define what a number literal denotes.

use vstd::prelude::*;
use vstd::string::StringExecFns;

verus! {

broadcast use vstd::seq::group_seq_axioms;

/// The digit character for `d` (defined for `d < 10`).
pub open spec fn digit_char(d: int) -> char {
    if d == 0 {
        '0'
    } else if d == 1 {
        '1'
    } else if d == 2 {
        '2'
    } else if d == 3 {
        '3'
    } else if d == 4 {
        '4'
    } else if d == 5 {
        '5'
    } else if d == 6 {
        '6'
    } else if d == 7 {
        '7'
    } else if d == 8 {
        '8'
    } else {
        '9'
    }
}

/// The decimal digits of a nonnegative number, most significant first.
pub open spec fn dec_digits(n: nat) -> Seq<char>
    decreases n,
{
    if n < 10 {
        seq![digit_char(n as int)]
    } else {
        dec_digits(n / 10).push(digit_char((n % 10) as int))
    }
}

/// The decimal spelling of an integer, with a leading `-` when negative.
pub open spec fn dec_int(n: int) -> Seq<char> {
    if n < 0 {
        "-"@ + dec_digits((-n) as nat)
    } else {
        dec_digits(n as nat)
    }
}

/// Whether `c` is an ASCII digit.
pub open spec fn is_digit(c: char) -> bool {
    48 <= c as u32 <= 57
}

/// The numeric value of one digit character.
pub open spec fn digit_val(c: char) -> int {
    c as u32 - 48
}

/// The numeric value of a digit string, most significant first.
pub open spec fn digits_val(s: Seq<char>) -> int
    decreases s.len(),
{
    if s.len() == 0 {
        0
    } else {
        digits_val(s.drop_last()) * 10 + digit_val(s.last())
    }
}

/// A digit string has a nonnegative value.
pub proof fn lemma_digits_val_nonneg(s: Seq<char>)
    requires
        forall|i: int| 0 <= i < s.len() ==> is_digit(#[trigger] s[i]),
    ensures
        digits_val(s) >= 0,
    decreases s.len(),
{
    if s.len() > 0 {
        lemma_digits_val_nonneg(s.drop_last());
    }
}

/// Extending a digit string to the right does not decrease its value.
pub proof fn lemma_digits_val_prefix(s: Seq<char>, k: int)
    requires
        forall|i: int| 0 <= i < s.len() ==> is_digit(#[trigger] s[i]),
        0 <= k <= s.len(),
    ensures
        digits_val(s.take(k)) <= digits_val(s),
    decreases s.len() - k,
{
    if k < s.len() {
        lemma_digits_val_prefix(s, k + 1);
        let t = s.take(k + 1);
        assert(t.drop_last() =~= s.take(k));
        lemma_digits_val_nonneg(s.take(k));
        assert(digits_val(t) == digits_val(s.take(k)) * 10 + digit_val(t.last()));
        assert(digits_val(s.take(k)) <= digits_val(s.take(k)) * 10) by {
            lemma_digits_val_nonneg(s.take(k));
        }
    } else {
        assert(s.take(k) =~= s);
    }
}

/// The digit character of `d`, executably.
fn digit_char_exec(d: u64) -> (r: char)
    requires
        d < 10,
    ensures
        r == digit_char(d as int),
{
    if d == 0 {
        '0'
    } else if d == 1 {
        '1'
    } else if d == 2 {
        '2'
    } else if d == 3 {
        '3'
    } else if d == 4 {
        '4'
    } else if d == 5 {
        '5'
    } else if d == 6 {
        '6'
    } else if d == 7 {
        '7'
    } else if d == 8 {
        '8'
    } else {
        '9'
    }
}

/// Appends one character to a string.
/// Relies on `String::push`: appends exactly the given character.
#[verifier::external_body]
pub fn push_char(s: &mut String, c: char)
    ensures
        final(s)@ == old(s)@.push(c),
{
    s.push(c);
}

/// The decimal text of a nonnegative number.
pub fn dec_u64(n: u64) -> (r: String)
    ensures
        r@ == dec_digits(n as nat),
{
    let mut digits: Vec<char> = Vec::new();
    let mut m: u64 = n;
    loop
        invariant_except_break
            m > 0 || digits@.len() == 0,
            dec_digits(n as nat) =~= dec_digits(m as nat) + digits@.reverse(),
        ensures
            dec_digits(n as nat) =~= digits@.reverse(),
        decreases m,
    {
        let d = m % 10;
        let c = digit_char_exec(d);
        let ghost pre = digits@;
        digits.push(c);
        proof {
            assert(digits@.reverse() =~= seq![c] + pre.reverse());
            if m >= 10 {
                assert(dec_digits(m as nat) == dec_digits((m / 10) as nat).push(
                    digit_char((m % 10) as int),
                ));
                assert(dec_digits((m / 10) as nat) + digits@.reverse() =~= dec_digits(m as nat)
                    + pre.reverse());
            } else {
                assert(dec_digits(m as nat) =~= seq![c]);
                assert(digits@.reverse() =~= dec_digits(m as nat) + pre.reverse());
            }
        }
        m = m / 10;
        if m == 0 {
            proof {
                assert(dec_digits(n as nat) =~= digits@.reverse());
            }
            break;
        }
    }
    let mut out = String::new();
    let mut j: usize = digits.len();
    while j > 0
        invariant
            j <= digits@.len(),
            out@ =~= digits@.subrange(j as int, digits@.len() as int).reverse(),
            dec_digits(n as nat) =~= digits@.reverse(),
        decreases j,
    {
        j = j - 1;
        push_char(&mut out, digits[j]);
        proof {
            assert(out@ =~= digits@.subrange(j as int, digits@.len() as int).reverse());
        }
    }
    proof {
        assert(digits@.subrange(0, digits@.len() as int) =~= digits@);
    }
    out
}

/// The decimal text of a signed number, with a leading `-` when negative.
pub fn dec_i64(n: i64) -> (r: String)
    ensures
        r@ == dec_int(n as int),
{
    if n >= 0 {
        dec_u64(n as u64)
    } else {
        let wide: i128 = n as i128;
        let mag: u64 = (-wide) as u64;
        let mut out = String::from_str("-");
        let rest = dec_u64(mag);
        out.append(rest.as_str());
        out
    }
}

/// The decimal text of a machine size.
pub fn dec_usize(n: usize) -> (r: String)
    ensures
        r@ == dec_digits(n as nat),
{
    dec_u64(n as u64)
}

/// Reads the value of a run of digit characters; `None` when the value
/// exceeds `i64::MAX`.
pub fn parse_digits(chars: &Vec<char>, start: usize, end: usize) -> (r: Option<i64>)
    requires
        start <= end <= chars@.len(),
        forall|i: int| start <= i < end ==> is_digit(#[trigger] chars@[i]),
    ensures
        ({
            let s = chars@.subrange(start as int, end as int);
            match r {
                Some(v) => v as int == digits_val(s),
                None => digits_val(s) > i64::MAX,
            }
        }),
{
    let ghost s = chars@.subrange(start as int, end as int);
    proof {
        lemma_digits_val_nonneg(s);
    }
    let mut value: i64 = 0;
    let mut j: usize = start;
    while j < end
        invariant
            start <= j <= end <= chars@.len(),
            forall|i: int| start <= i < end ==> is_digit(#[trigger] chars@[i]),
            s == chars@.subrange(start as int, end as int),
            value as int == digits_val(s.take(j - start)),
            value >= 0,
        decreases end - j,
    {
        let c = chars[j];
        let d: i64 = (c as u32) as i64 - 48;
        proof {
            assert(s[j - start] == chars@[j as int]);
            assert(is_digit(c));
        }
        let step = match value.checked_mul(10) {
            Some(v10) => v10.checked_add(d),
            None => None,
        };
        match step {
            Some(v) => {
                proof {
                    let t = s.take(j + 1 - start);
                    assert(t.drop_last() =~= s.take(j - start));
                    assert(t.last() == chars@[j as int]);
                    assert(v as int == digits_val(t));
                }
                value = v;
                j = j + 1;
            }
            None => {
                proof {
                    let t = s.take(j + 1 - start);
                    assert(t.drop_last() =~= s.take(j - start));
                    assert(t.last() == chars@[j as int]);
                    assert(digits_val(t) > i64::MAX);
                    assert(forall|i: int| 0 <= i < s.len() ==> is_digit(#[trigger] s[i]));
                    lemma_digits_val_prefix(s, j + 1 - start);
                }
                return None;
            }
        }
    }
    proof {
        assert(s.take(end - start) =~= s);
    }
    Some(value)
}

} // verus!
