//! Character-level utilities shared by the canonicalizer, the decoders and
//! the query encoder: whitespace and digit classification, locating and
//! splitting on a separator character, and the scalar canonicalizer `clean`.

use vstd::prelude::*;

verus! {

/// The whitespace characters that canonicalization trims: the Unicode
/// White_Space set, as the standard library's trimming recognizes it.
pub open spec fn is_space(c: char) -> bool {
    ||| c == '\u{0009}' || c == '\u{000A}' || c == '\u{000B}' || c == '\u{000C}' || c
        == '\u{000D}'
    ||| c == ' ' || c == '\u{0085}' || c == '\u{00A0}' || c == '\u{1680}'
    ||| '\u{2000}' <= c && c <= '\u{200A}'
    ||| c == '\u{2028}' || c == '\u{2029}' || c == '\u{202F}' || c == '\u{205F}' || c
        == '\u{3000}'
}

/// A decimal digit.
pub open spec fn is_digit(c: char) -> bool {
    '0' <= c && c <= '9'
}

/// Numeric value of a decimal digit.
pub open spec fn digit_val(c: char) -> int
    recommends
        is_digit(c),
{
    c as int - '0' as int
}

/// Index of the first occurrence of `c` in `s`, or -1 if absent.
pub open spec fn find_char(s: Seq<char>, c: char) -> int
    decreases s.len(),
{
    if s.len() == 0 {
        -1
    } else if s[0] == c {
        0
    } else {
        let r = find_char(s.drop_first(), c);
        if r < 0 {
            -1
        } else {
            r + 1
        }
    }
}

/// Whether `s` contains the character `c`.
pub open spec fn contains_char(s: Seq<char>, c: char) -> bool {
    exists|i: int| 0 <= i < s.len() && s[i] == c
}

pub proof fn lemma_find_char(s: Seq<char>, c: char)
    ensures
        contains_char(s, c) <==> find_char(s, c) >= 0,
        find_char(s, c) >= 0 ==> find_char(s, c) < s.len() && s[find_char(s, c)] == c,
        forall|i: int| 0 <= i < find_char(s, c) ==> s[i] != c,
        !contains_char(s, c) ==> find_char(s, c) == -1,
    decreases s.len(),
{
    if s.len() == 0 {
        assert(!contains_char(s, c));
    } else if s[0] == c {
        assert(contains_char(s, c));
    } else {
        let t = s.drop_first();
        lemma_find_char(t, c);
        if contains_char(t, c) {
            let j = choose|j: int| 0 <= j < t.len() && t[j] == c;
            assert(s[j + 1] == c);
            assert(contains_char(s, c));
        }
        if contains_char(s, c) {
            let j = choose|j: int| 0 <= j < s.len() && s[j] == c;
            assert(j != 0);
            assert(t[j - 1] == c);
            assert(contains_char(t, c));
        }
        let r = find_char(t, c);
        if r >= 0 {
            assert(find_char(s, c) == r + 1);
            assert(s[r + 1] == t[r]);
            assert forall|i: int| 0 <= i < r + 1 implies s[i] != c by {
                if i > 0 {
                    assert(s[i] == t[i - 1]);
                }
            }
        }
    }
}

/// Splitting `s` on `c` into the list of separated pieces, keeping empty
/// pieces; splitting the empty sequence yields one empty piece, matching
/// the splitting convention of Rust's standard library.
pub open spec fn split_char(s: Seq<char>, c: char) -> Seq<Seq<char>>
    decreases s.len(),
{
    let i = find_char(s, c);
    if i < 0 || i >= s.len() {
        seq![s]
    } else {
        seq![s.take(i)] + split_char(s.skip(i + 1), c)
    }
}

/// Strip whitespace from both ends of a sequence of characters.
pub open spec fn trimmed(s: Seq<char>) -> Seq<char>
    decreases s.len(),
{
    if s.len() == 0 {
        s
    } else if is_space(s[0]) {
        trimmed(s.drop_first())
    } else if is_space(s[s.len() - 1]) {
        trimmed(s.drop_last())
    } else {
        s
    }
}

/// Strip one leading and one trailing double-quote, if present, from a
/// sequence that has already been trimmed.
pub open spec fn unquoted(s: Seq<char>) -> Seq<char> {
    if s.len() >= 2 && s[0] == '"' && s[s.len() - 1] == '"' {
        s.subrange(1, s.len() - 1)
    } else if s.len() >= 1 && s[0] == '"' {
        s.drop_first()
    } else if s.len() >= 1 && s[s.len() - 1] == '"' {
        s.drop_last()
    } else {
        s
    }
}

/// Canonical form of a serialized scalar: whitespace trimmed from both
/// ends, then one pair of wrapping double-quotes removed.
pub open spec fn cleaned(s: Seq<char>) -> Seq<char> {
    unquoted(trimmed(s))
}

/// Whether `c` occurs in `s`, decided in linear time.
pub fn contains_char_exec(s: &str, c: char) -> (r: bool)
    ensures
        r == contains_char(s@, c),
{
    let n = s.unicode_len();
    let mut i: usize = 0;
    while i < n
        invariant
            0 <= i <= n,
            n == s@.len(),
            forall|j: int| 0 <= j < i ==> s@[j] != c,
        decreases n - i,
    {
        if s.get_char(i) == c {
            return true;
        }
        i = i + 1;
    }
    false
}

/// Index of the first occurrence of `c` in `s`, if any.
pub fn find_char_exec(s: &str, c: char) -> (r: Option<usize>)
    ensures
        match r {
            Some(i) => i == find_char(s@, c),
            None => find_char(s@, c) == -1,
        },
{
    proof {
        lemma_find_char(s@, c);
    }
    let n = s.unicode_len();
    let mut i: usize = 0;
    while i < n
        invariant
            0 <= i <= n,
            n == s@.len(),
            forall|j: int| 0 <= j < i ==> s@[j] != c,
            find_char(s@, c) >= 0 ==> find_char(s@, c) >= i,
            find_char(s@, c) >= 0 ==> s@[find_char(s@, c)] == c,
            forall|j: int| 0 <= j < find_char(s@, c) ==> s@[j] != c,
            find_char(s@, c) < 0 ==> !contains_char(s@, c),
        decreases n - i,
    {
        if s.get_char(i) == c {
            proof {
                assert(contains_char(s@, c));
            }
            return Some(i);
        }
        i = i + 1;
    }
    proof {
        if contains_char(s@, c) {
            let j = choose|j: int| 0 <= j < s@.len() && s@[j] == c;
            assert(s@[j] != c);
        }
    }
    None
}

/// Locate the bounds of the whitespace-trimmed middle of `s`.
fn trim_bounds(s: &str) -> (r: (usize, usize))
    ensures
        0 <= r.0 <= r.1 <= s@.len(),
        trimmed(s@) == s@.subrange(r.0 as int, r.1 as int),
{
    let n = s.unicode_len();
    let mut lo: usize = 0;
    let mut hi: usize = n;
    proof {
        assert(s@.subrange(0, n as int) =~= s@);
    }
    while lo < hi && is_space_exec(s.get_char(lo))
        invariant
            0 <= lo <= hi <= n,
            n == s@.len(),
            trimmed(s@) == trimmed(s@.subrange(lo as int, hi as int)),
        decreases hi - lo,
    {
        proof {
            assert(s@.subrange(lo as int, hi as int).drop_first() =~= s@.subrange(
                lo + 1,
                hi as int,
            ));
        }
        lo = lo + 1;
    }
    while lo < hi && is_space_exec(s.get_char(hi - 1))
        invariant
            0 <= lo <= hi <= n,
            n == s@.len(),
            trimmed(s@) == trimmed(s@.subrange(lo as int, hi as int)),
            lo < hi ==> !is_space(s@[lo as int]),
        decreases hi - lo,
    {
        proof {
            let part = s@.subrange(lo as int, hi as int);
            assert(part.drop_last() =~= s@.subrange(lo as int, hi - 1));
            assert(!is_space(part[0]));
        }
        hi = hi - 1;
    }
    proof {
        let part = s@.subrange(lo as int, hi as int);
        assert(trimmed(part) == part);
    }
    (lo, hi)
}

/// ScalarCanonicalizer: trim leading and trailing whitespace, then strip
/// one leading and one trailing double-quote character if present. This
/// undoes exactly the quote wrapping that scalar serialization adds, and
/// no more; quotes inside the value, or a second wrapping pair, are kept.
pub fn clean(s: String) -> (r: String)
    ensures
        r@ == cleaned(s@),
{
    let (tlo, thi) = trim_bounds(s.as_str());
    let mut lo = tlo;
    let mut hi = thi;
    let ghost t = s@.subrange(tlo as int, thi as int);
    // one wrapping quote pair
    if hi - lo >= 2 && s.as_str().get_char(lo) == '"' && s.as_str().get_char(hi - 1) == '"' {
        lo = lo + 1;
        hi = hi - 1;
        proof {
            assert(t[0] == '"' && t[t.len() - 1] == '"');
            assert(unquoted(t) =~= s@.subrange(lo as int, hi as int));
        }
    } else if hi - lo >= 1 && s.as_str().get_char(lo) == '"' {
        lo = lo + 1;
        proof {
            assert(unquoted(t) =~= s@.subrange(lo as int, hi as int));
        }
    } else if hi - lo >= 1 && s.as_str().get_char(hi - 1) == '"' {
        hi = hi - 1;
        proof {
            assert(unquoted(t) =~= s@.subrange(lo as int, hi as int));
        }
    } else {
        proof {
            assert(unquoted(t) =~= t);
        }
    }
    let r = s.as_str().substring_char(lo, hi).to_owned();
    r
}

/// Split `s` on `c`, keeping empty pieces, as the splitting convention
/// of the standard library does.
pub fn split_char_owned(s: &str, c: char) -> (r: Vec<String>)
    ensures
        r.deep_view() == split_char(s@, c),
    decreases s@.len(),
{
    proof {
        lemma_find_char(s@, c);
    }
    match find_char_exec(s, c) {
        None => {
            let mut v: Vec<String> = Vec::new();
            v.push(s.to_owned());
            proof {
                assert(v.deep_view() =~= split_char(s@, c));
            }
            v
        },
        Some(i) => {
            let n = s.unicode_len();
            let head = s.substring_char(0, i).to_owned();
            let tail = s.substring_char(i + 1, n);
            let rest = split_char_owned(tail, c);
            let mut v: Vec<String> = Vec::new();
            v.push(head);
            let mut k: usize = 0;
            let m = rest.len();
            while k < m
                invariant
                    0 <= k <= m,
                    m == rest.len(),
                    v.len() == k + 1,
                    v.deep_view() =~= seq![s@.take(find_char(s@, c))] + rest.deep_view().take(
                        k as int,
                    ),
                decreases m - k,
            {
                let ghost prevv = v@;
                let ghost prev_dv = v.deep_view();
                let piece = rest[k].clone();
                v.push(piece);
                proof {
                    assert(v@ == prevv.push(piece));
                    assert forall|j: int| 0 <= j < v@.len() implies #[trigger] v.deep_view()[j]
                        == (seq![s@.take(find_char(s@, c))] + rest.deep_view().take(k + 1))[j] by {
                        assert(v.deep_view()[j] == v@[j].deep_view());
                        if j < prevv.len() {
                            assert(v@[j] == prevv[j]);
                            assert(prev_dv[j] == prevv[j].deep_view());
                            assert(prev_dv[j] == (seq![s@.take(find_char(s@, c))]
                                + rest.deep_view().take(k as int))[j]);
                        } else {
                            assert(v@[j] == piece);
                            assert(rest.deep_view()[k as int] == rest@[k as int].deep_view());
                        }
                    }
                    assert(v.deep_view() =~= seq![s@.take(find_char(s@, c))]
                        + rest.deep_view().take(k + 1));
                }
                k = k + 1;
            }
            proof {
                assert(rest.deep_view().take(m as int) =~= rest.deep_view());
                assert(tail@ =~= s@.skip(i + 1));
                assert(v.deep_view() =~= split_char(s@, c));
            }
            v
        },
    }
}

/// Run-time test for the whitespace set that `trimmed` strips.
pub fn is_space_exec(c: char) -> (r: bool)
    ensures
        r == is_space(c),
{
    (c == '\u{0009}' || c == '\u{000A}' || c == '\u{000B}' || c == '\u{000C}' || c
        == '\u{000D}') || (c == ' ' || c == '\u{0085}' || c == '\u{00A0}' || c == '\u{1680}')
        || ('\u{2000}' <= c && c <= '\u{200A}') || (c == '\u{2028}' || c == '\u{2029}' || c
        == '\u{202F}' || c == '\u{205F}' || c == '\u{3000}')
}

} // verus!
