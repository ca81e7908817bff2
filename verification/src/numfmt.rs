//! Decimal formatting of the run timestamp.
//!
//! A run's epoch-second timestamp names one directory level, so integers are
//! turned into their decimal digit strings here, against an exact
//! specification of the digit sequence.

use vstd::prelude::*;

verus! {

/// The decimal digit character for `d`, which must lie below ten.
pub open spec fn dec_digit(d: int) -> char {
    if d == 0 {
        '0'
    } else if d == 1 {
        '1'
    } else if d == 2 {
        '2'
    } else if d == 3 {
        '3'
    } else if d == 4 {
        '4'
    } else if d == 5 {
        '5'
    } else if d == 6 {
        '6'
    } else if d == 7 {
        '7'
    } else if d == 8 {
        '8'
    } else {
        '9'
    }
}

/// The decimal digit string of `n`, without leading zeros (a single `'0'`
/// for zero itself).
pub open spec fn dec_str(n: nat) -> Seq<char>
    decreases n,
{
    if n < 10 {
        seq![dec_digit(n as int)]
    } else {
        dec_str(n / 10).push(dec_digit((n % 10) as int))
    }
}

/// The decimal string of a possibly negative integer: a minus sign followed
/// by the digit string of its magnitude.
pub open spec fn int_str(t: int) -> Seq<char> {
    if t < 0 {
        seq!['-'] + dec_str((-t) as nat)
    } else {
        dec_str(t as nat)
    }
}

/// The digit character for `m % 10`.
fn digit_char(m: u64) -> (c: char)
    ensures
        c == dec_digit((m % 10) as int),
{
    match m % 10 {
        0 => '0',
        1 => '1',
        2 => '2',
        3 => '3',
        4 => '4',
        5 => '5',
        6 => '6',
        7 => '7',
        8 => '8',
        _ => '9',
    }
}

/// The decimal digit string of `n`.
pub fn u64_to_string(n: u64) -> (r: String)
    ensures
        r@ == dec_str(n as nat),
{
    let mut digits: Vec<char> = Vec::new();
    let mut m: u64 = n;
    while m >= 10
        invariant
            dec_str(n as nat) =~= dec_str(m as nat) + digits@.reverse(),
        decreases m,
    {
        let d = digit_char(m);
        digits.push(d);
        proof {
            assert(digits@.reverse() =~= seq![d] + digits@.drop_last().reverse());
            assert(dec_str((m / 10) as nat) + digits@.reverse() =~= (dec_str(
                (m / 10) as nat,
            ).push(dec_digit((m % 10) as int))) + digits@.drop_last().reverse());
        }
        m = m / 10;
    }
    let mut r = String::new();
    let first = digit_char(m);
    crate::strutil::push_char(&mut r, first);
    proof {
        assert(r@ =~= dec_str(m as nat));
    }
    let mut k: usize = 0;
    while k < digits.len()
        invariant
            k <= digits@.len(),
            r@ =~= dec_str(m as nat) + digits@.reverse().take(k as int),
            dec_str(n as nat) =~= dec_str(m as nat) + digits@.reverse(),
        decreases digits@.len() - k,
    {
        let c = digits[digits.len() - 1 - k];
        crate::strutil::push_char(&mut r, c);
        proof {
            assert(digits@.reverse()[k as int] == digits@[digits@.len() - 1 - k as int]);
            assert(r@ =~= dec_str(m as nat) + digits@.reverse().take(k + 1));
        }
        k = k + 1;
    }
    proof {
        assert(digits@.reverse().take(digits@.len() as int) =~= digits@.reverse());
    }
    r
}

/// The decimal string of `t`, with a leading minus sign when `t` is
/// negative.
pub fn i64_to_string(t: i64) -> (r: String)
    ensures
        r@ == int_str(t as int),
{
    if t >= 0 {
        u64_to_string(t as u64)
    } else {
        let mag: u64 = if t == i64::MIN {
            9223372036854775808u64
        } else {
            (-t) as u64
        };
        let mut r = String::new();
        crate::strutil::push_char(&mut r, '-');
        let digits = u64_to_string(mag);
        let out = r.concat(digits.as_str());
        proof {
            assert(out@ =~= seq!['-'] + dec_str((-(t as int)) as nat));
        }
        out
    }
}

} // verus!
