//! The composite coordinate-path decoder. The upstream service encodes a
//! route's geopath as a sequence of strings, each string a space-separated
//! run of `"lat, lon"` pairs; the latitude token carries a trailing comma.
//! Coordinates are decimal numbers; the library carries them exactly, as a
//! sign, an integer mantissa and a decimal scale, rather than in a binary
//! floating-point type.

use vstd::prelude::*;

use crate::error::DecodeError;
use crate::num::{all_digits, digits_part, digits_val, int_of_str, lemma_digits_val_grows,
    lemma_digits_val_step, lemma_pow10_mono, lemma_pow10_pos, lemma_pow10_twenty, pow10};
use crate::num::is_digit_exec;
use crate::text::{digit_val, find_char, is_digit, lemma_find_char, split_char, split_char_owned, find_char_exec};

verus! {

/// An exact decimal number: `(-1 if negative) * mantissa / 10^scale`.
/// The decoder folds any exponent into mantissa and scale but never
/// strips trailing fraction zeros, so `1.50` and `1.5` stay distinct
/// values.
#[derive(Debug, Clone, Copy, PartialEq, Eq, Structural)]
pub struct Decimal {
    pub negative: bool,
    pub mantissa: u64,
    pub scale: u32,
}

impl View for Decimal {
    type V = Decimal;

    open spec fn view(&self) -> Decimal {
        *self
    }
}

impl DeepView for Decimal {
    type V = Decimal;

    open spec fn deep_view(&self) -> Decimal {
        *self
    }
}

/// The portion of a decimal literal after one optional sign character.
pub open spec fn dec_body(s: Seq<char>) -> Seq<char> {
    if s.len() > 0 && (s[0] == '-' || s[0] == '+') {
        s.drop_first()
    } else {
        s
    }
}

/// Index of the first exponent marker (`e` or `E`) of a literal's body,
/// or -1 where it has none.
pub open spec fn find_exp(b: Seq<char>) -> int {
    let e1 = find_char(b, 'e');
    let e2 = find_char(b, 'E');
    if e1 < 0 {
        e2
    } else if e2 < 0 {
        e1
    } else if e1 <= e2 {
        e1
    } else {
        e2
    }
}

/// The significand of a digit run holding at most one decimal point: its
/// digits read as one number, and the count of digits after the point.
pub open spec fn frac_of(m: Seq<char>) -> Option<(int, int)> {
    let dot = find_char(m, '.');
    if dot < 0 {
        if m.len() > 0 && all_digits(m) {
            Some((digits_val(m), 0))
        } else {
            None
        }
    } else {
        let ip = m.take(dot);
        let fp = m.skip(dot + 1);
        if ip.len() + fp.len() > 0 && all_digits(ip) && all_digits(fp) {
            Some((digits_val(ip + fp), fp.len() as int))
        } else {
            None
        }
    }
}

/// The significand portion of a literal: its body up to the exponent
/// marker, or the whole body where it has none.
pub open spec fn mant_part(s: Seq<char>) -> Seq<char> {
    let b = dec_body(s);
    let e = find_exp(b);
    if e < 0 {
        b
    } else {
        b.take(e)
    }
}

/// The exponent a literal carries: zero where it has no exponent part,
/// else the signed integer after the marker.
pub open spec fn exp_part_val(s: Seq<char>) -> Option<int> {
    let b = dec_body(s);
    let e = find_exp(b);
    if e < 0 {
        Some(0)
    } else {
        int_of_str(b.skip(e + 1))
    }
}

/// The decimal number denoted by `s`: the finite forms of the standard
/// floating-point grammar — an optional sign, digits with at most one
/// decimal point and at least one digit, and an optional exponent part —
/// folded into a mantissa and a scale. A mantissa beyond 64 bits, a
/// fraction or scale beyond 32 bits of digits, or an exponent beyond the
/// 32-bit range is rejected rather than rounded; infinities and
/// not-a-number forms are no coordinates.
pub open spec fn dec_of_str(s: Seq<char>) -> Option<Decimal> {
    let neg = s.len() > 0 && s[0] == '-';
    match (frac_of(mant_part(s)), exp_part_val(s)) {
        (Some(fr), Some(kv)) => {
            if -(u32::MAX as int) <= kv <= u32::MAX as int && fr.1 <= u32::MAX {
                let sc = fr.1 - kv;
                if sc >= 0 {
                    if fr.0 <= u64::MAX && sc <= u32::MAX {
                        Some(Decimal { negative: neg, mantissa: fr.0 as u64, scale: sc as u32 })
                    } else {
                        None
                    }
                } else {
                    if fr.0 * pow10((-sc) as nat) <= u64::MAX {
                        Some(
                            Decimal {
                                negative: neg,
                                mantissa: (fr.0 * pow10((-sc) as nat)) as u64,
                                scale: 0,
                            },
                        )
                    } else {
                        None
                    }
                }
            } else {
                None
            }
        },
        _ => None,
    }
}

/// The token up to but not including its first comma; the whole token
/// where it has none.
pub open spec fn before_comma(t: Seq<char>) -> Seq<char> {
    let i = find_char(t, ',');
    if i < 0 {
        t
    } else {
        t.take(i)
    }
}

/// The coordinate pair read from tokens `2i` and `2i + 1`: each token's
/// part before its first comma, as a decimal number.
pub open spec fn pair_at(toks: Seq<Seq<char>>, i: int) -> Option<(Decimal, Decimal)>
    recommends
        0 <= i && 2 * i + 1 < toks.len(),
{
    let lat = dec_of_str(before_comma(toks[2 * i]));
    let lon = dec_of_str(before_comma(toks[2 * i + 1]));
    if lat is Some && lon is Some {
        Some((lat->0, lon->0))
    } else {
        None
    }
}

/// The coordinate pairs denoted by one path string: split on spaces,
/// tokens grouped two at a time; a dangling unpaired token or an
/// unparsable coordinate is a failure.
pub open spec fn coord_pairs_of(s: Seq<char>) -> Option<Seq<(Decimal, Decimal)>> {
    let toks = split_char(s, ' ');
    if toks.len() % 2 != 0 {
        None
    } else if forall|i: int| 0 <= i < toks.len() / 2 ==> #[trigger] pair_at(toks, i) is Some {
        Some(Seq::new((toks.len() / 2) as nat, |i: int| pair_at(toks, i)->0))
    } else {
        None
    }
}

/// The segments denoted by a sequence of path strings, in input order;
/// any failing string fails the whole decode.
pub open spec fn multi_path_of(ss: Seq<Seq<char>>) -> Option<Seq<Seq<(Decimal, Decimal)>>> {
    if forall|k: int| 0 <= k < ss.len() ==> #[trigger] coord_pairs_of(ss[k]) is Some {
        Some(Seq::new(ss.len(), |k: int| coord_pairs_of(ss[k])->0))
    } else {
        None
    }
}

/// Decode one decimal literal, exponent notation included. The error
/// keeps the offending raw input.
#[verifier::rlimit(100)]
pub fn parse_decimal(s: &str) -> (r: Result<Decimal, DecodeError>)
    ensures
        match r {
            Ok(d) => dec_of_str(s@) == Some(d),
            Err(e) => dec_of_str(s@) is None && e.input@ == s@,
        },
{
    let n = s.unicode_len();
    let mut i: usize = 0;
    let mut neg = false;
    if n > 0 {
        let c0 = s.get_char(0);
        if c0 == '-' || c0 == '+' {
            neg = c0 == '-';
            i = 1;
        }
    }
    let ghost b = dec_body(s@);
    let start = i;
    proof {
        assert(neg == (s@.len() > 0 && s@[0] == '-'));
        assert(start == 1 ==> b =~= s@.drop_first());
        assert(start == 0 ==> b == s@);
        assert(b.len() == n - start);
        assert(forall|j: int| 0 <= j < b.len() ==> b[j] == s@[j + start]);
    }
    // locate the first exponent marker
    let e1 = crate::text::find_char_exec(s, 'e');
    let e2 = crate::text::find_char_exec(s, 'E');
    proof {
        lemma_find_char(s@, 'e');
        lemma_find_char(s@, 'E');
        lemma_find_char(b, 'e');
        lemma_find_char(b, 'E');
        if start == 1 {
            assert(s@[0] != 'e' && s@[0] != 'E');
            assert(s@.drop_first() =~= b);
            assert(find_char(s@, 'e') == if find_char(b, 'e') < 0 {
                -1int
            } else {
                find_char(b, 'e') + 1
            });
            assert(find_char(s@, 'E') == if find_char(b, 'E') < 0 {
                -1int
            } else {
                find_char(b, 'E') + 1
            });
        }
    }
    let epos: Option<usize> = match (e1, e2) {
        (Option::None, Option::None) => Option::None,
        (Option::Some(a), Option::None) => Option::Some(a),
        (Option::None, Option::Some(c)) => Option::Some(c),
        (Option::Some(a), Option::Some(c)) => Option::Some(
            if a <= c {
                a
            } else {
                c
            },
        ),
    };
    let ghost eb = find_exp(b);
    let lim: usize = match epos {
        Option::None => n,
        Option::Some(p) => p,
    };
    let ghost m = mant_part(s@);
    proof {
        assert(epos is None ==> eb < 0);
        assert(epos matches Some(p) ==> eb == p - start && start <= p < n);
        assert(m == if eb < 0 {
            b
        } else {
            b.take(eb)
        });
        assert(m.len() == lim - start);
        assert(forall|j: int| 0 <= j < m.len() ==> m[j] == s@[j + start]);
        lemma_find_char(m, '.');
    }
    let ghost dot = find_char(m, '.');
    let ghost combined: Seq<char> = if dot < 0 {
        m
    } else {
        m.take(dot) + m.skip(dot + 1)
    };
    proof {
        assert(dot >= 0 ==> forall|j: int|
            0 <= j < combined.len() ==> combined[j] == (if j < dot {
                m[j]
            } else {
                m[j + 1]
            }));
    }
    let mut acc: u64 = 0;
    let mut digits: usize = 0;
    let mut dot_at: Option<usize> = None;
    proof {
        assert(combined.take(0) =~= Seq::<char>::empty());
    }
    while i < lim
        invariant
            start <= i <= lim <= n,
            start == 0 || start == 1,
            n == s@.len(),
            b == dec_body(s@),
            b.len() == n - start,
            eb == find_exp(b),
            lim == if eb < 0 {
                n as int
            } else {
                eb + start
            },
            m == mant_part(s@),
            m.len() == lim - start,
            forall|j: int| 0 <= j < m.len() ==> m[j] == s@[j + start],
            dot == find_char(m, '.'),
            combined == if dot < 0 {
                m
            } else {
                m.take(dot) + m.skip(dot + 1)
            },
            dot >= 0 ==> dot < m.len() && m[dot] == '.',
            combined.len() == if dot < 0 {
                m.len() as int
            } else {
                m.len() - 1
            },
            dot >= 0 ==> forall|j: int|
                0 <= j < combined.len() ==> combined[j] == (if j < dot {
                    m[j]
                } else {
                    m[j + 1]
                }),
            forall|j: int| 0 <= j < find_char(m, '.') ==> m[j] != '.',
            match dot_at {
                Some(k) => dot >= 0 && k == dot + start && i > dot + start && digits == i - start
                    - 1,
                None => (dot < 0 || dot >= i - start) && digits == i - start,
            },
            digits <= combined.len(),
            forall|j: int| 0 <= j < digits ==> is_digit(#[trigger] combined[j]),
            acc == digits_val(combined.take(digits as int)),
        decreases lim - i,
    {
        let c = s.get_char(i);
        if c == '.' {
            if dot_at.is_some() {
                proof {
                    // a second point: the fractional part is not all digits
                    let k = dot_at->0;
                    assert(m[i - start] == '.');
                    assert(dot == k - start);
                    let fp = m.skip(dot + 1);
                    assert(fp[i - start - dot - 1] == '.');
                    assert(!is_digit('.'));
                    assert(!all_digits(fp));
                    assert(frac_of(m) is None);
                    assert(dec_of_str(s@) is None);
                }
                return Err(DecodeError::new("a decimal coordinate", s));
            }
            proof {
                assert(m[i - start] == '.');
                lemma_find_char(m, '.');
                assert(find_char(m, '.') >= 0);
                assert(dot <= i - start);
                assert(dot >= digits);
                assert(dot == i - start);
            }
            dot_at = Some(i);
        } else if is_digit_exec(c) {
            proof {
                assert(m[i - start] == c);
                match dot_at {
                    Some(k) => {
                        assert(combined[digits as int] == m[i - start]);
                    },
                    None => {
                        assert(i - start < dot || dot < 0);
                        assert(combined[digits as int] == m[i - start]);
                    },
                }
            }
            let d = (c as u32 - 48) as u64;
            proof {
                lemma_digits_val_step(combined, digits as int);
            }
            let next = match acc.checked_mul(10) {
                Some(x) => x.checked_add(d),
                None => None,
            };
            if next.is_none() {
                // the mantissa no longer fits 64 bits; more digits only
                // grow it, and no exponent shrinks the significand
                proof {
                    assert(acc * 10 + d > u64::MAX);
                    if all_digits(combined) {
                        lemma_digits_val_grows(combined, digits + 1, combined.len() as int);
                        assert(combined.take(combined.len() as int) =~= combined);
                        assert(digits_val(combined) > u64::MAX);
                        if dot >= 0 {
                            assert(combined == m.take(dot) + m.skip(dot + 1));
                        }
                        assert(frac_of(m) matches Some(fr) ==> fr.0 == digits_val(combined));
                        assert forall|q: nat| digits_val(combined) * #[trigger] pow10(q)
                            > u64::MAX by {
                            lemma_pow10_pos(q);
                            assert(digits_val(combined) > u64::MAX && pow10(q) >= 1
                                ==> digits_val(combined) * pow10(q) >= digits_val(combined))
                                by (nonlinear_arith);
                        }
                    } else {
                        let j = choose|j: int|
                            0 <= j < combined.len() && !is_digit(#[trigger] combined[j]);
                        if dot >= 0 {
                            assert(!all_digits(m.take(dot)) || !all_digits(m.skip(dot + 1))) by {
                                if j < dot {
                                    assert(combined[j] == m.take(dot)[j]);
                                } else {
                                    assert(combined[j] == m.skip(dot + 1)[j - dot]);
                                }
                            }
                        }
                        assert(frac_of(m) is None);
                    }
                    assert(dec_of_str(s@) is None);
                }
                return Err(DecodeError::new("a decimal coordinate", s));
            }
            acc = next.unwrap();
            digits = digits + 1;
        } else {
            proof {
                assert(m[i - start] == c);
                assert(!is_digit(c) && c != '.');
                if dot < 0 {
                    assert(!all_digits(m));
                } else {
                    if i - start < dot {
                        assert(m.take(dot)[i - start] == c);
                        assert(!all_digits(m.take(dot)));
                    } else {
                        assert(i - start > dot);
                        assert(m.skip(dot + 1)[i - start - dot - 1] == c);
                        assert(!all_digits(m.skip(dot + 1)));
                    }
                }
                assert(frac_of(m) is None);
                assert(dec_of_str(s@) is None);
            }
            return Err(DecodeError::new("a decimal coordinate", s));
        }
        i = i + 1;
    }
    if digits == 0 {
        proof {
            if dot < 0 {
                if m.len() > 0 {
                    assert(combined.len() == m.len());
                    assert(false);
                }
            } else {
                assert(combined.len() == 0);
                assert(m.take(dot).len() + m.skip(dot + 1).len() == 0);
            }
            assert(frac_of(m) is None);
            assert(dec_of_str(s@) is None);
        }
        return Err(DecodeError::new("a decimal coordinate", s));
    }
    let scale0: u32 = match dot_at {
        Some(k) => {
            let ghost fp = m.skip(dot + 1);
            proof {
                assert(digits == combined.len());
                assert(combined.take(digits as int) =~= combined);
                assert(all_digits(combined));
                assert forall|j: int| 0 <= j < fp.len() implies is_digit(#[trigger] fp[j]) by {
                    assert(fp[j] == combined[j + dot]);
                    assert(is_digit(combined[j + dot]));
                }
                assert forall|j: int|
                    0 <= j < m.take(dot).len() implies is_digit(#[trigger] m.take(dot)[j]) by {
                    assert(m.take(dot)[j] == combined[j]);
                    assert(is_digit(combined[j]));
                }
                assert(all_digits(m.take(dot)) && all_digits(fp));
                assert(fp.len() == lim - start - 1 - dot);
                assert(combined =~= m.take(dot) + fp);
            }
            if lim - k - 1 > 0xffff_ffffusize {
                proof {
                    assert(fp.len() > u32::MAX);
                    assert(frac_of(m) matches Some(fr) && fr.1 > u32::MAX);
                    assert(dec_of_str(s@) is None);
                }
                return Err(DecodeError::new("a decimal coordinate", s));
            }
            (lim - k - 1) as u32
        },
        None => {
            proof {
                assert(dot < 0 || dot >= m.len());
                assert(dot < 0) by {
                    lemma_find_char(m, '.');
                }
                assert(combined.take(digits as int) =~= combined);
                assert(all_digits(m));
            }
            0
        },
    };
    proof {
        assert(frac_of(m) == Some((acc as int, scale0 as int)));
    }
    // the exponent part, where one stands
    match epos {
        Option::None => {
            proof {
                assert(exp_part_val(s@) == Some(0int));
                assert(dec_of_str(s@) == Some(
                    Decimal { negative: neg, mantissa: acc, scale: scale0 },
                ));
            }
            Ok(Decimal { negative: neg, mantissa: acc, scale: scale0 })
        },
        Option::Some(p) => apply_exponent(s, neg, acc, scale0, p, start),
    }
}

/// Multiply a mantissa by the given power of ten, or report that the
/// result overruns 64 bits.
fn shift_mantissa(acc: u64, pw: u64) -> (r: Option<u64>)
    requires
        1 <= pw <= u32::MAX,
        acc >= 1,
    ensures
        match r {
            Some(v) => v as int == acc as int * pow10(pw as nat),
            None => acc as int * pow10(pw as nat) > u64::MAX,
        },
{
    if pw > 19 {
        proof {
            lemma_pow10_twenty();
            lemma_pow10_mono(20, pw as nat);
            assert(acc as int >= 1 && pow10(pw as nat) >= 0 ==> acc as int * pow10(pw as nat)
                >= pow10(pw as nat)) by (nonlinear_arith);
        }
        return Option::None;
    }
    let mut mult: u64 = acc;
    let mut q: u64 = 0;
    while q < pw
        invariant
            0 <= q <= pw,
            1 <= pw <= 19,
            acc >= 1,
            mult as int == acc as int * pow10(q as nat),
        decreases pw - q,
    {
        match mult.checked_mul(10) {
            Some(x) => {
                proof {
                    assert(pow10((q + 1) as nat) == 10 * pow10(q as nat));
                    assert((acc as int * pow10(q as nat)) * 10 == acc as int * (10 * pow10(
                        q as nat,
                    ))) by (nonlinear_arith);
                }
                mult = x;
            },
            None => {
                proof {
                    assert(mult as int * 10 > u64::MAX);
                    assert((acc as int * pow10(q as nat)) * 10 == acc as int * (10 * pow10(
                        q as nat,
                    ))) by (nonlinear_arith);
                    assert(acc as int * pow10((q + 1) as nat) > u64::MAX);
                    lemma_pow10_mono((q + 1) as nat, pw as nat);
                    assert(acc as int >= 0 && pow10(pw as nat) >= pow10((q + 1) as nat) ==> acc
                        as int * pow10(pw as nat) >= acc as int * pow10((q + 1) as nat))
                        by (nonlinear_arith);
                }
                return Option::None;
            },
        }
        q = q + 1;
    }
    Option::Some(mult)
}

/// Read the exponent part standing at marker position `p` and fold it
/// into the significand.
#[verifier::rlimit(100)]
fn apply_exponent(s: &str, neg: bool, acc: u64, scale0: u32, p: usize, start: usize) -> (r: Result<
    Decimal,
    DecodeError,
>)
    requires
        start <= p < s@.len(),
        start == if s@.len() > 0 && (s@[0] == '-' || s@[0] == '+') {
            1int
        } else {
            0int
        },
        neg == (s@.len() > 0 && s@[0] == '-'),
        find_exp(dec_body(s@)) == p - start,
        frac_of(mant_part(s@)) == Some((acc as int, scale0 as int)),
    ensures
        match r {
            Ok(d) => dec_of_str(s@) == Some(d),
            Err(e) => dec_of_str(s@) is None && e.input@ == s@,
        },
{
    let n = s.unicode_len();
    let ghost b = dec_body(s@);
    let ghost eb = find_exp(b);
    let ghost epart = b.skip(eb + 1);
    proof {
        assert(start == 1 ==> b =~= s@.drop_first());
        assert(start == 0 ==> b == s@);
        assert(b.len() == n - start);
        assert(forall|j: int| 0 <= j < b.len() ==> b[j] == s@[j + start]);
        assert(epart.len() == n - p - 1);
        assert(forall|t: int| 0 <= t < epart.len() ==> epart[t] == s@[t + p + 1]);
    }
    if p + 1 >= n {
        proof {
            assert(epart.len() == 0);
            assert(int_of_str(epart) is None);
            assert(dec_of_str(s@) is None);
        }
        return Err(DecodeError::new("a decimal coordinate", s));
    }
    let ec0 = s.get_char(p + 1);
    let eneg = ec0 == '-';
    let jstart: usize = if ec0 == '-' || ec0 == '+' {
        p + 2
    } else {
        p + 1
    };
    let ghost eds = digits_part(epart);
    proof {
        assert(eneg == crate::num::has_minus(epart));
        assert(jstart == p + 2 ==> eds =~= epart.drop_first());
        assert(jstart == p + 1 ==> eds == epart);
        assert(eds.len() == n - jstart);
        assert(forall|t: int| 0 <= t < eds.len() ==> eds[t] == s@[t + jstart]);
    }
    if jstart >= n {
        proof {
            assert(eds.len() == 0);
            assert(int_of_str(epart) is None);
            assert(dec_of_str(s@) is None);
        }
        return Err(DecodeError::new("a decimal coordinate", s));
    }
    let mut kacc: u64 = 0;
    let mut t: usize = jstart;
    proof {
        assert(eds.take(0) =~= Seq::<char>::empty());
    }
    while t < n
        invariant
            jstart <= t <= n,
            n == s@.len(),
            b == dec_body(s@),
            eb == find_exp(b),
            eb >= 0,
            epart == b.skip(eb + 1),
            eds == digits_part(epart),
            eds.len() == n - jstart,
            eds.len() >= 1,
            forall|l: int| 0 <= l < eds.len() ==> eds[l] == s@[l + jstart],
            forall|l: int| 0 <= l < t - jstart ==> is_digit(#[trigger] eds[l]),
            kacc == digits_val(eds.take(t - jstart)),
            kacc <= 0xffff_ffff,
        decreases n - t,
    {
        let c = s.get_char(t);
        if !is_digit_exec(c) {
            proof {
                assert(eds[t - jstart] == c);
                assert(!all_digits(eds));
                assert(int_of_str(epart) is None);
                assert(dec_of_str(s@) is None);
            }
            return Err(DecodeError::new("a decimal coordinate", s));
        }
        let d = (c as u32 - 48) as u64;
        proof {
            lemma_digits_val_step(eds, t - jstart);
            assert(eds[t - jstart] == c);
        }
        let nxt: u64 = kacc * 10 + d;
        if nxt > 0xffff_ffff {
            // the exponent no longer fits 32 bits; more digits only grow it
            proof {
                if all_digits(eds) {
                    lemma_digits_val_grows(eds, t - jstart + 1, eds.len() as int);
                    assert(eds.take(eds.len() as int) =~= eds);
                    assert(digits_val(eds) >= nxt);
                    assert(int_of_str(epart) matches Some(kv) && (kv > u32::MAX || kv < -(
                    u32::MAX as int)));
                } else {
                    assert(int_of_str(epart) is None);
                }
                assert(dec_of_str(s@) is None);
            }
            return Err(DecodeError::new("a decimal coordinate", s));
        }
        kacc = nxt;
        t = t + 1;
    }
    let ghost kv: int = if eneg {
        -(kacc as int)
    } else {
        kacc as int
    };
    proof {
        assert(eds.take(eds.len() as int) =~= eds);
        assert(all_digits(eds));
        assert(kacc == digits_val(eds));
        assert(exp_part_val(s@) == Some(kv));
    }
    if eneg {
        let tot: u64 = scale0 as u64 + kacc;
        if tot > 0xffff_ffff {
            proof {
                assert(scale0 as int - kv > u32::MAX);
                assert(dec_of_str(s@) is None);
            }
            return Err(DecodeError::new("a decimal coordinate", s));
        }
        proof {
            assert(dec_of_str(s@) == Some(
                Decimal { negative: neg, mantissa: acc, scale: tot as u32 },
            ));
        }
        Ok(Decimal { negative: neg, mantissa: acc, scale: tot as u32 })
    } else if kacc <= scale0 as u64 {
        let sc = (scale0 as u64 - kacc) as u32;
        proof {
            assert(scale0 as int - kv == sc as int);
            assert(dec_of_str(s@) == Some(Decimal { negative: neg, mantissa: acc, scale: sc }));
        }
        Ok(Decimal { negative: neg, mantissa: acc, scale: sc })
    } else {
        // the exponent overruns the fraction: shift the mantissa left
        let pw: u64 = kacc - scale0 as u64;
        proof {
            assert(scale0 as int - kv == -(pw as int));
            assert(1 <= pw <= u32::MAX);
        }
        if acc == 0 {
            proof {
                assert(0int * pow10(pw as nat) == 0) by (nonlinear_arith);
                assert(dec_of_str(s@) == Some(Decimal { negative: neg, mantissa: 0, scale: 0 }));
            }
            Ok(Decimal { negative: neg, mantissa: 0, scale: 0 })
        } else {
            match shift_mantissa(acc, pw) {
                Option::Some(mult) => {
                    proof {
                        assert(dec_of_str(s@) == Some(
                            Decimal { negative: neg, mantissa: mult, scale: 0 },
                        ));
                    }
                    Ok(Decimal { negative: neg, mantissa: mult, scale: 0 })
                },
                Option::None => {
                    proof {
                        assert(dec_of_str(s@) is None);
                    }
                    Err(DecodeError::new("a decimal coordinate", s))
                },
            }
        }
    }
}

/// A run of `n` zero characters.
pub open spec fn zeroes(n: int) -> Seq<char> {
    Seq::new(n as nat, |i: int| '0')
}

/// The canonical text of a decimal number: an optional minus sign and the
/// mantissa digits, zero-padded so at least one digit stands before the
/// decimal point, with the point before the last `scale` digits.
pub open spec fn dec_text(d: Decimal) -> Seq<char> {
    let sign: Seq<char> = if d.negative {
        seq!['-']
    } else {
        Seq::empty()
    };
    let ds = crate::num::dec_str(d.mantissa as nat);
    if d.scale == 0 {
        sign + ds
    } else {
        let padded = if ds.len() > d.scale {
            ds
        } else {
            zeroes(d.scale + 1 - ds.len()) + ds
        };
        sign + padded.take(padded.len() - d.scale) + seq!['.'] + padded.skip(
            padded.len() - d.scale,
        )
    }
}

/// Render a decimal number into its canonical text.
pub fn render_decimal(d: &Decimal) -> (r: String)
    requires
        d.scale + 1 <= usize::MAX,
    ensures
        r@ == dec_text(*d),
{
    let ghost dsv = crate::num::dec_str(d.mantissa as nat);
    let ds = crate::num::u64_to_string(d.mantissa);
    let mut out = String::new();
    if d.negative {
        out.append("-");
    }
    proof {
        reveal_strlit("-");
    }
    if d.scale == 0 {
        out.append(ds.as_str());
        proof {
            assert(out@ =~= dec_text(*d));
        }
        return out;
    }
    let dlen = ds.as_str().unicode_len();
    let mut padded = String::new();
    let target = d.scale as usize + 1;
    if dlen < target {
        let mut z: usize = 0;
        let need = target - dlen;
        while z < need
            invariant
                0 <= z <= need,
                padded@ =~= zeroes(z as int),
            decreases need - z,
        {
            padded.append("0");
            proof {
                reveal_strlit("0");
                assert(padded@ =~= zeroes(z + 1));
            }
            z = z + 1;
        }
    }
    padded.append(ds.as_str());
    let plen = padded.as_str().unicode_len();
    let ghost pv = if dsv.len() > d.scale {
        dsv
    } else {
        zeroes(d.scale + 1 - dsv.len()) + dsv
    };
    proof {
        assert(padded@ =~= pv);
        assert(plen >= target);
    }
    let cut = plen - d.scale as usize;
    let ip = padded.as_str().substring_char(0, cut);
    out.append(ip);
    out.append(".");
    let fp = padded.as_str().substring_char(cut, plen);
    out.append(fp);
    proof {
        reveal_strlit(".");
        assert(ip@ =~= pv.take(pv.len() - d.scale));
        assert(fp@ =~= pv.skip(pv.len() - d.scale));
        assert(out@ =~= dec_text(*d));
    }
    out
}

/// The part of `t` before its first comma.
fn before_comma_exec(t: &str) -> (r: String)
    ensures
        r@ == before_comma(t@),
{
    proof {
        lemma_find_char(t@, ',');
    }
    match find_char_exec(t, ',') {
        None => t.to_owned(),
        Some(i) => t.substring_char(0, i).to_owned(),
    }
}

/// Which raw value a failing path string blames: the whole string where
/// its tokens do not pair up, else a token of its first failing pair —
/// the latitude token where that does not parse, its longitude token
/// otherwise.
pub open spec fn path_error_source(s: Seq<char>, t: Seq<char>) -> bool {
    let toks = split_char(s, ' ');
    if toks.len() % 2 != 0 {
        t == s
    } else {
        exists|i: int|
            0 <= i < toks.len() / 2 && #[trigger] pair_at(toks, i) is None && (forall|j: int|
                0 <= j < i ==> #[trigger] pair_at(toks, j) is Some) && t == (if dec_of_str(
                before_comma(toks[2 * i]),
            ) is None {
                toks[2 * i]
            } else {
                toks[2 * i + 1]
            })
    }
}

/// Which raw value a failing path decode blames: a value at fault inside
/// the first failing input string.
pub open spec fn multi_path_error_source(ss: Seq<Seq<char>>, t: Seq<char>) -> bool {
    exists|k: int|
        0 <= k < ss.len() && #[trigger] coord_pairs_of(ss[k]) is None && (forall|j: int|
            0 <= j < k ==> #[trigger] coord_pairs_of(ss[j]) is Some) && path_error_source(ss[k], t)
}

/// Composite path decoder: each input string is a space-separated run of
/// `"lat, lon"` token pairs; tokens are grouped two at a time, the part
/// of each token before its first comma is read as a decimal coordinate,
/// and segment order and pair order are preserved. A dangling unpaired
/// token, or an unparsable coordinate, fails the decode; the error
/// carries the raw value at fault.
pub fn multi_segment_coordinate_path(input: &Vec<String>) -> (r: Result<
    Vec<Vec<(Decimal, Decimal)>>,
    DecodeError,
>)
    ensures
        match r {
            Ok(paths) => multi_path_of(input.deep_view()) == Some(paths.deep_view()),
            Err(e) => multi_path_of(input.deep_view()) is None && multi_path_error_source(
                input.deep_view(),
                e.input@,
            ),
        },
{
    let mut out: Vec<Vec<(Decimal, Decimal)>> = Vec::new();
    let n = input.len();
    let mut k: usize = 0;
    while k < n
        invariant
            0 <= k <= n,
            n == input.len(),
            out.len() == k,
            forall|j: int| 0 <= j < k ==> #[trigger] coord_pairs_of(input.deep_view()[j]) is Some,
            forall|j: int|
                0 <= j < k ==> out.deep_view()[j] == coord_pairs_of(
                    #[trigger] input.deep_view()[j],
                )->0,
        decreases n - k,
    {
        let toks = split_char_owned(input[k].as_str(), ' ');
        let m = toks.len();
        if m % 2 != 0 {
            proof {
                assert(coord_pairs_of(input.deep_view()[k as int]) is None);
                assert(path_error_source(input.deep_view()[k as int], input.deep_view()[k as int]));
                assert(multi_path_error_source(input.deep_view(), input.deep_view()[k as int]));
            }
            return Err(DecodeError::new("paired latitude and longitude tokens", input[k].as_str()));
        }
        let mut pairs: Vec<(Decimal, Decimal)> = Vec::new();
        let mut i: usize = 0;
        let ghost tokviews = toks.deep_view();
        while i < m / 2
            invariant
                0 <= i <= m / 2,
                m == toks.len(),
                m % 2 == 0,
                k < n,
                n == input.len(),
                tokviews == toks.deep_view(),
                tokviews == split_char(input.deep_view()[k as int], ' '),
                forall|j: int|
                    0 <= j < k ==> #[trigger] coord_pairs_of(input.deep_view()[j]) is Some,
                pairs.len() == i,
                forall|j: int| 0 <= j < i ==> #[trigger] pair_at(tokviews, j) is Some,
                forall|j: int| 0 <= j < i ==> pairs@[j] == #[trigger] pair_at(tokviews, j)->0,
            decreases m / 2 - i,
        {
            let latpart = before_comma_exec(toks[2 * i].as_str());
            let lat = match parse_decimal(latpart.as_str()) {
                Ok(d) => d,
                Err(_) => {
                    proof {
                        assert(pair_at(tokviews, i as int) is None);
                        assert(coord_pairs_of(input.deep_view()[k as int]) is None);
                        assert(dec_of_str(before_comma(tokviews[2 * i])) is None);
                        assert(path_error_source(input.deep_view()[k as int], tokviews[2 * i]));
                        assert(multi_path_error_source(input.deep_view(), tokviews[2 * i]));
                    }
                    return Err(DecodeError::new("a decimal latitude", toks[2 * i].as_str()));
                },
            };
            let lonpart = before_comma_exec(toks[2 * i + 1].as_str());
            let lon = match parse_decimal(lonpart.as_str()) {
                Ok(d) => d,
                Err(_) => {
                    proof {
                        assert(pair_at(tokviews, i as int) is None);
                        assert(coord_pairs_of(input.deep_view()[k as int]) is None);
                        assert(dec_of_str(before_comma(tokviews[2 * i])) is Some);
                        assert(path_error_source(
                            input.deep_view()[k as int],
                            tokviews[2 * i + 1],
                        ));
                        assert(multi_path_error_source(input.deep_view(), tokviews[2 * i + 1]));
                    }
                    return Err(DecodeError::new("a decimal longitude", toks[2 * i + 1].as_str()));
                },
            };
            pairs.push((lat, lon));
            proof {
                assert(pair_at(tokviews, i as int) == Some((lat, lon)));
            }
            i = i + 1;
        }
        proof {
            assert(coord_pairs_of(input.deep_view()[k as int]) matches Some(ps) && ps =~= pairs@);
        }
        out.push(pairs);
        proof {
            assert(out.deep_view()[k as int] =~= pairs@);
        }
        k = k + 1;
    }
    proof {
        assert(input.deep_view().len() == n);
        assert(multi_path_of(input.deep_view()) matches Some(ps) && ps =~= out.deep_view());
    }
    Ok(out)
}

} // verus!
