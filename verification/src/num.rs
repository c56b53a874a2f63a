//! Verified conversions between integers and their decimal text forms:
//! rendering for the query encoder, and the string-to-integer coercion
//! that the upstream API needs where it encodes numbers as JSON strings.

use vstd::prelude::*;

use crate::text::{digit_val, is_digit};
use crate::error::DecodeError;

verus! {

/// The character of one decimal digit value.
pub open spec fn digit_char(d: int) -> char
    recommends
        0 <= d < 10,
{
    seq!['0', '1', '2', '3', '4', '5', '6', '7', '8', '9'][d]
}

/// Decimal digits of a non-negative number, most significant first.
pub open spec fn dec_str(n: nat) -> Seq<char>
    decreases n,
{
    if n < 10 {
        seq![digit_char(n as int)]
    } else {
        dec_str(n / 10) + seq![digit_char((n % 10) as int)]
    }
}

/// Decimal text of a possibly negative number.
pub open spec fn int_str(i: int) -> Seq<char> {
    if i < 0 {
        seq!['-'] + dec_str((-i) as nat)
    } else {
        dec_str(i as nat)
    }
}

/// Whether every character of `s` is a decimal digit.
pub open spec fn all_digits(s: Seq<char>) -> bool {
    forall|i: int| 0 <= i < s.len() ==> is_digit(#[trigger] s[i])
}

/// The number denoted by a sequence of decimal digits.
pub open spec fn digits_val(s: Seq<char>) -> int
    decreases s.len(),
{
    if s.len() == 0 {
        0
    } else {
        digits_val(s.drop_last()) * 10 + digit_val(s[s.len() - 1])
    }
}

/// The digit portion of a signed-integer literal: what follows one
/// optional leading `+` or `-` sign.
pub open spec fn digits_part(s: Seq<char>) -> Seq<char> {
    if s.len() > 0 && (s[0] == '-' || s[0] == '+') {
        s.drop_first()
    } else {
        s
    }
}

/// Whether a signed-integer literal carries a `-` sign.
pub open spec fn has_minus(s: Seq<char>) -> bool {
    s.len() > 0 && s[0] == '-'
}

/// The integer denoted by `s` under the standard library's signed-integer
/// grammar: an optional `+` or `-` sign followed by one or more decimal
/// digits, nothing else. `None` where `s` does not match the grammar.
pub open spec fn int_of_str(s: Seq<char>) -> Option<int> {
    if s.len() > 0 && digits_part(s).len() > 0 && all_digits(digits_part(s)) {
        if has_minus(s) {
            Some(-digits_val(digits_part(s)))
        } else {
            Some(digits_val(digits_part(s)))
        }
    } else {
        None
    }
}

/// The value of `s` as a 32-bit signed integer, `None` where the grammar
/// does not match or the value does not fit.
pub open spec fn i32_of_str(s: Seq<char>) -> Option<i32> {
    match int_of_str(s) {
        Some(v) => if i32::MIN <= v <= i32::MAX {
            Some(v as i32)
        } else {
            None
        },
        None => None,
    }
}

/// Powers of ten.
pub open spec fn pow10(n: nat) -> int
    decreases n,
{
    if n == 0 {
        1
    } else {
        10 * pow10((n - 1) as nat)
    }
}

pub proof fn lemma_pow10_pos(n: nat)
    ensures
        pow10(n) >= 1,
    decreases n,
{
    if n > 0 {
        lemma_pow10_pos((n - 1) as nat);
    }
}

pub proof fn lemma_pow10_mono(a: nat, b: nat)
    requires
        a <= b,
    ensures
        pow10(a) <= pow10(b),
    decreases b,
{
    if a < b {
        lemma_pow10_mono(a, (b - 1) as nat);
        lemma_pow10_pos((b - 1) as nat);
    }
}

/// Twenty digits overrun a 64-bit value.
pub proof fn lemma_pow10_twenty()
    ensures
        pow10(20) > u64::MAX,
{
    reveal_with_fuel(pow10, 21);
    assert(pow10(20) == 0x56bc75e2d63100000);
}

pub proof fn lemma_digits_val_nonneg(s: Seq<char>)
    requires
        all_digits(s),
    ensures
        digits_val(s) >= 0,
    decreases s.len(),
{
    if s.len() > 0 {
        assert(all_digits(s.drop_last()));
        lemma_digits_val_nonneg(s.drop_last());
        assert(is_digit(s[s.len() - 1]));
    }
}

pub proof fn lemma_digits_val_step(s: Seq<char>, j: int)
    requires
        0 <= j < s.len(),
    ensures
        digits_val(s.take(j + 1)) == digits_val(s.take(j)) * 10 + digit_val(s[j]),
{
    assert(s.take(j + 1).drop_last() =~= s.take(j));
    assert(s.take(j + 1)[j] == s[j]);
}

pub proof fn lemma_digits_val_grows(s: Seq<char>, i: int, j: int)
    requires
        all_digits(s),
        0 <= i <= j <= s.len(),
    ensures
        digits_val(s.take(i)) <= digits_val(s.take(j)),
    decreases j - i,
{
    if i < j {
        lemma_digits_val_grows(s, i, j - 1);
        lemma_digits_val_step(s, j - 1);
        assert(all_digits(s.take(j - 1)));
        lemma_digits_val_nonneg(s.take(j - 1));
        assert(is_digit(s[j - 1]));
    }
}

pub proof fn lemma_dec_str_digits(n: nat)
    ensures
        forall|j: int| 0 <= j < dec_str(n).len() ==> is_digit(#[trigger] dec_str(n)[j]),
    decreases n,
{
    assert(forall|d: int| 0 <= d < 10 ==> is_digit(#[trigger] digit_char(d)));
    if n >= 10 {
        lemma_dec_str_digits(n / 10);
        let whole = dec_str(n);
        let head = dec_str(n / 10);
        assert forall|j: int| 0 <= j < whole.len() implies is_digit(#[trigger] whole[j]) by {
            if j < head.len() {
                assert(whole[j] == head[j]);
            } else {
                assert(whole[j] == digit_char((n % 10) as int));
            }
        }
    }
}

/// Every character of a signed decimal text is a digit or the minus sign.
pub proof fn lemma_int_str_chars(i: int)
    ensures
        forall|j: int|
            0 <= j < int_str(i).len() ==> is_digit(#[trigger] int_str(i)[j]) || int_str(i)[j]
                == '-',
{
    if i < 0 {
        lemma_dec_str_digits((-i) as nat);
        let whole = int_str(i);
        let ds = dec_str((-i) as nat);
        assert forall|j: int|
            0 <= j < whole.len() implies is_digit(#[trigger] whole[j]) || whole[j] == '-' by {
            if j > 0 {
                assert(whole[j] == ds[j - 1]);
            }
        }
    } else {
        lemma_dec_str_digits(i as nat);
    }
}

/// One-character string of a decimal digit value.
fn digit_string(d: u64) -> (r: String)
    requires
        d < 10,
    ensures
        r@ =~= seq![digit_char(d as int)],
{
    let r = match d {
        0 => "0",
        1 => "1",
        2 => "2",
        3 => "3",
        4 => "4",
        5 => "5",
        6 => "6",
        7 => "7",
        8 => "8",
        _ => "9",
    };
    proof {
        reveal_strlit("0");
        reveal_strlit("1");
        reveal_strlit("2");
        reveal_strlit("3");
        reveal_strlit("4");
        reveal_strlit("5");
        reveal_strlit("6");
        reveal_strlit("7");
        reveal_strlit("8");
        reveal_strlit("9");
    }
    r.to_owned()
}

/// Decimal rendering of an unsigned number.
pub fn u64_to_string(n: u64) -> (r: String)
    ensures
        r@ == dec_str(n as nat),
    decreases n,
{
    if n < 10 {
        digit_string(n)
    } else {
        let mut s = u64_to_string(n / 10);
        let d = digit_string(n % 10);
        s.append(d.as_str());
        proof {
            assert(s@ =~= dec_str(n as nat));
        }
        s
    }
}

/// Decimal rendering of a signed number, with a leading `-` where negative.
pub fn i64_to_string(v: i64) -> (r: String)
    ensures
        r@ == int_str(v as int),
{
    if v < 0 {
        let m: u64 = if v == i64::MIN {
            9223372036854775808u64
        } else {
            (-v) as u64
        };
        let mut s = "-".to_owned();
        proof {
            reveal_strlit("-");
        }
        let d = u64_to_string(m);
        s.append(d.as_str());
        proof {
            assert(s@ =~= int_str(v as int));
        }
        s
    } else {
        u64_to_string(v as u64)
    }
}

/// Numeric value of one digit character.
fn digit_val_exec(c: char) -> (r: u64)
    requires
        is_digit(c),
    ensures
        r == digit_val(c),
        r < 10,
{
    (c as u32 - '0' as u32) as u64
}

/// Run-time test for a decimal digit.
pub fn is_digit_exec(c: char) -> (r: bool)
    ensures
        r == is_digit(c),
{
    '0' <= c && c <= '9'
}

/// String-as-integer coercion: the upstream API occasionally encodes
/// integers as JSON strings; parse such a string as a signed 32-bit
/// integer. The error keeps the offending raw input.
#[verifier::rlimit(50)]
pub fn signed_int_from_string(s: &str) -> (r: Result<i32, DecodeError>)
    ensures
        match r {
            Ok(v) => i32_of_str(s@) == Some(v),
            Err(e) => i32_of_str(s@) is None && e.input@ == s@,
        },
{
    let n = s.unicode_len();
    if n == 0 {
        return Err(DecodeError::new("signed integer", s));
    }
    let first = s.get_char(0);
    let neg = first == '-';
    let start: usize = if first == '-' || first == '+' {
        1
    } else {
        0
    };
    let ghost ds = digits_part(s@);
    proof {
        assert(start == 1 ==> ds == s@.drop_first());
        assert(start == 0 ==> ds == s@);
        assert(neg == has_minus(s@));
    }
    if n - start == 0 {
        return Err(DecodeError::new("signed integer", s));
    }
    let mut acc: u64 = 0;
    let mut i: usize = start;
    proof {
        assert(ds.take(0) =~= Seq::<char>::empty());
    }
    while i < n
        invariant
            start <= i <= n,
            start == 0 || start == 1,
            n == s@.len(),
            n - start >= 1,
            ds == digits_part(s@),
            ds.len() == n - start,
            forall|j: int| start <= j < i ==> is_digit(#[trigger] s@[j]),
            forall|j: int| 0 <= j < i - start ==> ds[j] == s@[j + start],
            acc == digits_val(ds.take(i - start)),
            acc <= 0x8000_0000,
        decreases n - i,
    {
        let c = s.get_char(i);
        if !is_digit_exec(c) {
            proof {
                assert(ds[i - start] == s@[i as int]);
                assert(!all_digits(ds));
                assert(int_of_str(s@) is None);
            }
            return Err(DecodeError::new("signed integer", s));
        }
        let d = digit_val_exec(c);
        let next: u64 = acc * 10 + d;
        proof {
            lemma_digits_val_step(ds, i - start);
            assert(ds[i - start] == s@[i as int]);
            assert(digits_val(ds.take(i - start + 1)) == next);
        }
        if next > 0x8000_0000 {
            // the digits already exceed the 32-bit range; any further
            // digits only grow the value
            proof {
                if all_digits(ds) {
                    lemma_digits_val_grows(ds, i - start + 1, ds.len() as int);
                    assert(ds.take(ds.len() as int) =~= ds);
                    assert(digits_val(ds) >= next);
                    assert(int_of_str(s@) matches Some(v) && (v > 0x8000_0000 || v
                        < -0x8000_0000i64));
                } else {
                    assert(int_of_str(s@) is None);
                }
                assert(i32_of_str(s@) is None);
            }
            return Err(DecodeError::new("signed integer", s));
        }
        acc = next;
        i = i + 1;
    }
    proof {
        assert(ds.take(ds.len() as int) =~= ds);
        assert(all_digits(ds));
        assert(acc == digits_val(ds));
    }
    if neg {
        let v: i64 = -(acc as i64);
        proof {
            assert(s@[0] == '-');
        }
        Ok(v as i32)
    } else {
        if acc > 0x7fff_ffff {
            proof {
                assert(s@[0] != '-');
            }
            return Err(DecodeError::new("signed integer", s));
        }
        proof {
            assert(s@[0] != '-');
        }
        Ok(acc as i32)
    }
}

} // verus!
