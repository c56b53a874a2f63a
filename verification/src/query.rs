//! QueryEncoder: turns the fixed, declaration-ordered field list of a
//! configuration object into a query string. Absent fields emit nothing;
//! a present scalar emits one `key=value` pair; a present sequence emits
//! one pair per element under the same repeated key, elements
//! percent-encoded for the query part; pairs are joined with `&`.

use vstd::prelude::*;

use crate::num::int_str;
use crate::text::{contains_char, find_char, lemma_find_char, split_char};
use crate::num::i64_to_string;
use vstd::string::StringSliceAdditionalSpecFns;
use vstd::utf8::encode_utf8;
use vstd::utf8::{encode_scalar, has_width_1_encoding, has_width_2_encoding, has_width_3_encoding,
    last_continuation_byte, leading_byte_width_1, leading_byte_width_2, leading_byte_width_3,
    leading_byte_width_4, second_last_continuation_byte, third_last_continuation_byte};

verus! {

broadcast use vstd::utf8::char_is_scalar, vstd::utf8::char_u32_cast;

/// One serialized scalar of a configuration field.
#[derive(Debug, Clone)]
pub enum Scalar {
    Int(i64),
    Bool(bool),
    Str(String),
}

/// The canonical text of `true` and `false`.
pub open spec fn bool_str(b: bool) -> Seq<char> {
    if b {
        seq!['t', 'r', 'u', 'e']
    } else {
        seq!['f', 'a', 'l', 's', 'e']
    }
}

impl View for Scalar {
    type V = Seq<char>;

    /// A scalar is viewed as its canonical query text.
    open spec fn view(&self) -> Seq<char> {
        match self {
            Scalar::Int(i) => int_str(*i as int),
            Scalar::Bool(b) => bool_str(*b),
            Scalar::Str(s) => s@,
        }
    }
}

impl DeepView for Scalar {
    type V = Seq<char>;

    open spec fn deep_view(&self) -> Seq<char> {
        self@
    }
}

/// The value of one configuration field: absent, one scalar, or an
/// ordered sequence of scalars.
#[derive(Debug, Clone)]
pub enum FieldVal {
    Absent,
    One(Scalar),
    Many(Vec<Scalar>),
}

/// The value of one configuration field, seen as canonical text.
pub enum ValSpec {
    Absent,
    One(Seq<char>),
    Many(Seq<Seq<char>>),
}

impl View for FieldVal {
    type V = ValSpec;

    open spec fn view(&self) -> ValSpec {
        match self {
            FieldVal::Absent => ValSpec::Absent,
            FieldVal::One(s) => ValSpec::One(s@),
            FieldVal::Many(v) => ValSpec::Many(v.deep_view()),
        }
    }
}

/// One named configuration field.
#[derive(Debug, Clone)]
pub struct Field {
    pub key: String,
    pub value: FieldVal,
}

/// One named configuration field, seen as canonical text.
pub struct FieldSpec {
    pub key: Seq<char>,
    pub value: ValSpec,
}

impl View for Field {
    type V = FieldSpec;

    open spec fn view(&self) -> FieldSpec {
        FieldSpec { key: self.key@, value: self.value@ }
    }
}

impl DeepView for Field {
    type V = FieldSpec;

    open spec fn deep_view(&self) -> FieldSpec {
        self@
    }
}

/// Bytes that the query part of a URL percent-encodes: the C0 controls,
/// everything above `~`, the space, `"`, `#`, `<` and `>`.
pub open spec fn query_escapes(b: u8) -> bool {
    b < 0x20 || b > 0x7e || b == 0x20 || b == 0x22 || b == 0x23 || b == 0x3c || b == 0x3e
}

/// Bytes that the path part of a URL percent-encodes: those of the query
/// part and `?`, `^`, the backquote, `{` and `}`.
pub open spec fn path_escapes(b: u8) -> bool {
    query_escapes(b) || b == 0x3f || b == 0x5e || b == 0x60 || b == 0x7b || b == 0x7d
}

/// Upper-case hexadecimal digit of a value below 16.
pub open spec fn hex_upper(d: int) -> char
    recommends
        0 <= d < 16,
{
    seq!['0', '1', '2', '3', '4', '5', '6', '7', '8', '9', 'A', 'B', 'C', 'D', 'E', 'F'][d]
}

/// The text one byte contributes under percent-encoding: `%XX` where the
/// byte is escaped, the byte's own character where it is not.
pub open spec fn pct_group(b: u8, path: bool) -> Seq<char> {
    if (path && path_escapes(b)) || (!path && query_escapes(b)) {
        seq!['%', hex_upper(b as int / 16), hex_upper(b as int % 16)]
    } else {
        seq![b as char]
    }
}

/// Percent-encoding of a byte sequence, for the query part or (with
/// `path` set) the path part of a URL.
pub open spec fn pct_text(bs: Seq<u8>, path: bool) -> Seq<char>
    decreases bs.len(),
{
    if bs.len() == 0 {
        Seq::empty()
    } else {
        pct_group(bs[0], path) + pct_text(bs.drop_first(), path)
    }
}

/// The percent-encoded form of a string's UTF-8 bytes for the query part.
pub open spec fn query_escaped(t: Seq<char>) -> Seq<char> {
    pct_text(encode_utf8(t), false)
}

/// The percent-encoded form of a string's UTF-8 bytes for the path part.
pub open spec fn path_escaped(t: Seq<char>) -> Seq<char> {
    pct_text(encode_utf8(t), true)
}

/// Relies on url_escape::encode_query: percent-encodes, with upper-case
/// hexadecimal, exactly the bytes of the UTF-8 form that are C0 controls,
/// above `~`, the space, `"`, `#`, `<` or `>`, and no others.
#[verifier::external_body]
pub fn escape_query(s: &str) -> (r: String)
    ensures
        r@ == pct_text(s.spec_bytes(), false),
{
    url_escape::encode_query(s).into_owned()
}

/// Relies on url_escape::encode_path: percent-encodes, with upper-case
/// hexadecimal, exactly the bytes of the UTF-8 form that the query part
/// escapes and `?`, `^`, the backquote, `{` and `}`.
#[verifier::external_body]
pub fn escape_path(s: &str) -> (r: String)
    ensures
        r@ == pct_text(s.spec_bytes(), true),
{
    url_escape::encode_path(s).into_owned()
}

/// The key/value pairs one field contributes: none where it is absent, one
/// where it holds a scalar, and one per element, under the repeated key
/// and percent-encoded for the query part, where it holds a sequence.
pub open spec fn field_pairs(f: FieldSpec) -> Seq<(Seq<char>, Seq<char>)> {
    match f.value {
        ValSpec::Absent => Seq::empty(),
        ValSpec::One(t) => seq![(f.key, t)],
        ValSpec::Many(ts) => Seq::new(ts.len(), |i: int| (f.key, query_escaped(ts[i]))),
    }
}

/// The pairs of a whole field list, in declaration order.
pub open spec fn fields_pairs(fs: Seq<FieldSpec>) -> Seq<(Seq<char>, Seq<char>)>
    decreases fs.len(),
{
    if fs.len() == 0 {
        Seq::empty()
    } else {
        field_pairs(fs[0]) + fields_pairs(fs.drop_first())
    }
}

/// The `key=value` text of one pair.
pub open spec fn pair_text(p: (Seq<char>, Seq<char>)) -> Seq<char> {
    p.0 + seq!['='] + p.1
}

/// Pairs joined with `&`: the query string.
pub open spec fn encode_pairs(ps: Seq<(Seq<char>, Seq<char>)>) -> Seq<char>
    decreases ps.len(),
{
    if ps.len() == 0 {
        Seq::empty()
    } else if ps.len() == 1 {
        pair_text(ps[0])
    } else {
        pair_text(ps[0]) + seq!['&'] + encode_pairs(ps.drop_first())
    }
}

/// The query string of a field list.
pub open spec fn query_of(fs: Seq<FieldSpec>) -> Seq<char> {
    encode_pairs(fields_pairs(fs))
}

pub proof fn lemma_encode_pairs_nonempty(ps: Seq<(Seq<char>, Seq<char>)>)
    ensures
        ps.len() > 0 ==> encode_pairs(ps).len() > 0,
        ps.len() == 0 ==> encode_pairs(ps).len() == 0,
{
    if ps.len() == 1 {
        assert(encode_pairs(ps) == pair_text(ps[0]));
    }
}

pub proof fn lemma_encode_pairs_snoc(ps: Seq<(Seq<char>, Seq<char>)>, p: (Seq<char>, Seq<char>))
    ensures
        encode_pairs(ps.push(p)) == if ps.len() == 0 {
            pair_text(p)
        } else {
            encode_pairs(ps) + seq!['&'] + pair_text(p)
        },
    decreases ps.len(),
{
    let whole = ps.push(p);
    if ps.len() == 0 {
        assert(whole.len() == 1);
        assert(whole[0] == p);
    } else {
        lemma_encode_pairs_snoc(ps.drop_first(), p);
        assert(whole.drop_first() =~= ps.drop_first().push(p));
        assert(whole[0] == ps[0]);
        if ps.len() == 1 {
            assert(ps.drop_first().len() == 0);
            assert(encode_pairs(whole) == pair_text(ps[0]) + seq!['&'] + pair_text(p));
            assert(encode_pairs(ps) == pair_text(ps[0]));
        } else {
            assert(encode_pairs(whole) == pair_text(ps[0]) + seq!['&'] + encode_pairs(
                whole.drop_first(),
            ));
            assert(encode_pairs(whole.drop_first()) == encode_pairs(ps.drop_first()) + seq!['&']
                + pair_text(p));
            assert(encode_pairs(ps) == pair_text(ps[0]) + seq!['&'] + encode_pairs(
                ps.drop_first(),
            ));
            assert(encode_pairs(whole) =~= encode_pairs(ps) + seq!['&'] + pair_text(p));
        }
    }
}

pub proof fn lemma_fields_pairs_snoc(fs: Seq<FieldSpec>, f: FieldSpec)
    ensures
        fields_pairs(fs.push(f)) == fields_pairs(fs) + field_pairs(f),
    decreases fs.len(),
{
    let whole = fs.push(f);
    if fs.len() == 0 {
        assert(whole.len() == 1);
        assert(whole[0] == f);
        assert(whole.drop_first() =~= Seq::<FieldSpec>::empty());
        assert(fields_pairs(whole.drop_first()) =~= Seq::<(Seq<char>, Seq<char>)>::empty());
        assert(fields_pairs(whole) == field_pairs(whole[0]) + fields_pairs(whole.drop_first()));
        assert(fields_pairs(whole) =~= field_pairs(f));
        assert(fields_pairs(fs) + field_pairs(f) =~= field_pairs(f));
    } else {
        lemma_fields_pairs_snoc(fs.drop_first(), f);
        assert(whole.drop_first() =~= fs.drop_first().push(f));
        assert(whole[0] == fs[0]);
        assert(fields_pairs(whole) =~= fields_pairs(fs) + field_pairs(f));
    }
}

/// Render one scalar into its canonical query text.
pub fn render_scalar(s: &Scalar) -> (r: String)
    ensures
        r@ == s@,
{
    match s {
        Scalar::Int(i) => i64_to_string(*i),
        Scalar::Bool(b) => {
            let r = if *b {
                "true"
            } else {
                "false"
            };
            proof {
                reveal_strlit("true");
                reveal_strlit("false");
                assert(r@ =~= bool_str(*b));
            }
            r.to_owned()
        },
        Scalar::Str(st) => st.clone(),
    }
}

/// Append one `key=value` pair, preceded by `&` where pairs already
/// stand in the string.
fn push_pair(out: &mut String, key: &str, val: &str)
    ensures
        final(out)@ == old(out)@ + (if old(out)@.len() == 0 {
            Seq::<char>::empty()
        } else {
            seq!['&']
        }) + key@ + seq!['='] + val@,
{
    if !out.as_str().is_empty() {
        out.append("&");
    }
    out.append(key);
    out.append("=");
    out.append(val);
    proof {
        reveal_strlit("&");
        reveal_strlit("=");
        assert(final(out)@ =~= old(out)@ + (if old(out)@.len() == 0 {
            Seq::<char>::empty()
        } else {
            seq!['&']
        }) + key@ + seq!['='] + val@);
    }
}

/// Encode a field list into its query string: present fields in
/// declaration order, one pair per scalar or per sequence element,
/// joined with `&`. An all-absent list gives the empty string.
pub fn encode_query_fields(fields: &Vec<Field>) -> (r: String)
    ensures
        r@ == query_of(fields.deep_view()),
{
    let ghost dv = fields.deep_view();
    let mut out = String::new();
    let ghost mut ps: Seq<(Seq<char>, Seq<char>)> = Seq::empty();
    let n = fields.len();
    let mut i: usize = 0;
    proof {
        assert(dv.take(0) =~= Seq::<FieldSpec>::empty());
    }
    while i < n
        invariant
            0 <= i <= n,
            n == fields.len(),
            dv == fields.deep_view(),
            dv.len() == n,
            forall|j: int| 0 <= j < n ==> dv[j] == fields@[j]@,
            ps == fields_pairs(dv.take(i as int)),
            out@ == encode_pairs(ps),
        decreases n - i,
    {
        let ghost fsp = dv[i as int];
        match &fields[i].value {
            FieldVal::Absent => {
                proof {
                    assert(field_pairs(fsp) =~= Seq::<(Seq<char>, Seq<char>)>::empty());
                    assert(dv.take(i + 1) =~= dv.take(i as int).push(fsp));
                    lemma_fields_pairs_snoc(dv.take(i as int), fsp);
                    assert(fields_pairs(dv.take(i + 1)) =~= ps);
                }
            },
            FieldVal::One(s) => {
                let txt = render_scalar(s);
                proof {
                    lemma_encode_pairs_nonempty(ps);
                }
                push_pair(&mut out, fields[i].key.as_str(), txt.as_str());
                proof {
                    let p = (fsp.key, txt@);
                    lemma_encode_pairs_snoc(ps, p);
                    assert(out@ =~= encode_pairs(ps.push(p)));
                    ps = ps.push(p);
                    assert(field_pairs(fsp) =~= seq![p]);
                    assert(dv.take(i + 1) =~= dv.take(i as int).push(fsp));
                    lemma_fields_pairs_snoc(dv.take(i as int), fsp);
                    assert(fields_pairs(dv.take(i + 1)) =~= ps);
                }
            },
            FieldVal::Many(v) => {
                let m = v.len();
                let mut j: usize = 0;
                let ghost ts = v.deep_view();
                proof {
                    assert(fsp.value == ValSpec::Many(ts));
                }
                while j < m
                    invariant
                        0 <= j <= m,
                        m == v.len(),
                        ts == v.deep_view(),
                        ts.len() == m,
                        i < n,
                        n == fields.len(),
                        dv == fields.deep_view(),
                        fsp == dv[i as int],
                        fsp.key == fields@[i as int].key@,
                        fsp.value == ValSpec::Many(ts),
                        forall|l: int| 0 <= l < m ==> ts[l] == v@[l]@,
                        ps == fields_pairs(dv.take(i as int)) + Seq::new(
                            j as nat,
                            |l: int| (fsp.key, query_escaped(ts[l])),
                        ),
                        out@ == encode_pairs(ps),
                    decreases m - j,
                {
                    let txt = render_scalar(&v[j]);
                    let esc = escape_query(txt.as_str());
                    proof {
                        lemma_encode_pairs_nonempty(ps);
                    }
                    push_pair(&mut out, fields[i].key.as_str(), esc.as_str());
                    proof {
                        let p = (fsp.key, query_escaped(ts[j as int]));
                        assert(esc@ == query_escaped(ts[j as int]));
                        lemma_encode_pairs_snoc(ps, p);
                        assert(out@ =~= encode_pairs(ps.push(p)));
                        ps = ps.push(p);
                        assert(Seq::new(j as nat, |l: int| (fsp.key, query_escaped(ts[l]))).push(p)
                            =~= Seq::new((j + 1) as nat, |l: int| (fsp.key, query_escaped(ts[l]))));
                        assert(ps =~= fields_pairs(dv.take(i as int)) + Seq::new(
                            (j + 1) as nat,
                            |l: int| (fsp.key, query_escaped(ts[l])),
                        ));
                    }
                    j = j + 1;
                }
                proof {
                    assert(field_pairs(fsp) =~= Seq::new(
                        m as nat,
                        |l: int| (fsp.key, query_escaped(ts[l])),
                    ));
                    assert(dv.take(i + 1) =~= dv.take(i as int).push(fsp));
                    lemma_fields_pairs_snoc(dv.take(i as int), fsp);
                    assert(fields_pairs(dv.take(i + 1)) =~= ps);
                }
            },
        }
        i = i + 1;
    }
    proof {
        assert(dv.take(n as int) =~= dv);
    }
    out
}

/// A configuration object: a fixed, ordered list of named fields, each
/// absent, one scalar, or a sequence of scalars, ready for the query
/// encoder.
pub trait ToQuery {
    /// When the object's values can be rendered: every date a real
    /// calendar date, every decimal of renderable scale.
    spec fn fields_wf(&self) -> bool;

    /// The field list, in declaration order, as canonical text.
    spec fn query_fields(&self) -> Seq<FieldSpec>;

    /// Build the field list.
    fn fields(&self) -> (r: Vec<Field>)
        requires
            self.fields_wf(),
        ensures
            r.deep_view() == self.query_fields(),
    ;
}

/// Encode a configuration object into its query string.
pub fn to_query<T: ToQuery>(opts: &T) -> (r: String)
    requires
        opts.fields_wf(),
    ensures
        r@ == query_of(opts.query_fields()),
{
    let fields = opts.fields();
    encode_query_fields(&fields)
}


/// Text free of the query string's two structural characters `&` and `=`.
pub open spec fn text_wf(t: Seq<char>) -> bool {
    !contains_char(t, '&') && !contains_char(t, '=')
}

/// A pair whose key and value are free of the structural characters.
pub open spec fn pair_wf(p: (Seq<char>, Seq<char>)) -> bool {
    text_wf(p.0) && text_wf(p.1)
}

/// A field whose key and scalar texts are free of the structural
/// characters; every field built from numbers, booleans or dates is.
pub open spec fn field_wf(f: FieldSpec) -> bool {
    text_wf(f.key) && match f.value {
        ValSpec::Absent => true,
        ValSpec::One(t) => text_wf(t),
        ValSpec::Many(ts) => forall|i: int| 0 <= i < ts.len() ==> text_wf(#[trigger] ts[i]),
    }
}

/// The key of one `key=value` piece: what stands before its first `=`.
pub open spec fn key_part(p: Seq<char>) -> Seq<char> {
    let i = find_char(p, '=');
    if i < 0 {
        p
    } else {
        p.take(i)
    }
}

/// The keys a query string decodes back into: one per `&`-separated
/// piece; the empty query has none.
pub open spec fn keys_of(q: Seq<char>) -> Seq<Seq<char>> {
    if q.len() == 0 {
        Seq::empty()
    } else {
        split_char(q, '&').map_values(|p: Seq<char>| key_part(p))
    }
}

proof fn lemma_find_char_concat(a: Seq<char>, b: Seq<char>, c: char)
    requires
        forall|i: int| 0 <= i < a.len() ==> a[i] != c,
    ensures
        find_char(a + b, c) == if find_char(b, c) < 0 {
            -1
        } else {
            a.len() + find_char(b, c)
        },
    decreases a.len(),
{
    lemma_find_char(b, c);
    if a.len() == 0 {
        assert(a + b =~= b);
    } else {
        let q = a + b;
        assert(q[0] == a[0]);
        assert(q.drop_first() =~= a.drop_first() + b);
        assert forall|i: int| 0 <= i < a.drop_first().len() implies a.drop_first()[i] != c by {
            assert(a.drop_first()[i] == a[i + 1]);
        }
        lemma_find_char_concat(a.drop_first(), b, c);
    }
}

/// All-absent configuration objects produce the empty query string; an
/// empty sequence field emits nothing, the same as an absent one.
pub proof fn lemma_all_absent_query_empty(fs: Seq<FieldSpec>)
    requires
        forall|i: int|
            0 <= i < fs.len() ==> (#[trigger] fs[i].value is Absent || (fs[i].value matches
            ValSpec::Many(ts) && ts.len() == 0)),
    ensures
        query_of(fs) == Seq::<char>::empty(),
    decreases fs.len(),
{
    if fs.len() == 0 {
    } else {
        assert(field_pairs(fs[0]) =~= Seq::<(Seq<char>, Seq<char>)>::empty());
        assert forall|i: int|
            0 <= i < fs.drop_first().len() implies (#[trigger] fs.drop_first()[i].value is Absent
            || (fs.drop_first()[i].value matches ValSpec::Many(ts) && ts.len() == 0)) by {
            assert(fs.drop_first()[i] == fs[i + 1]);
        }
        lemma_all_absent_query_empty(fs.drop_first());
        assert(fields_pairs(fs) =~= fields_pairs(fs.drop_first()));
    }
}

proof fn lemma_or_byte_high(y: u8)
    ensures
        (0x80u8 | y) >= 0x80,
        (0xc0u8 | y) >= 0x80,
        (0xe0u8 | y) >= 0x80,
        (0xf0u8 | y) >= 0x80,
{
    assert((0x80u8 | y) >= 0x80 && (0xc0u8 | y) >= 0x80 && (0xe0u8 | y) >= 0x80 && (0xf0u8 | y)
        >= 0x80) by (bit_vector);
}

proof fn lemma_encode_utf8_keeps_absent(t: Seq<char>, a: char)
    requires
        0 <= (a as int) && (a as int) < 0x80,
        forall|i: int| 0 <= i < t.len() ==> t[i] != a,
    ensures
        forall|j: int|
            0 <= j < encode_utf8(t).len() ==> (#[trigger] encode_utf8(t)[j]) as int != a as int,
    decreases t.len(),
{
    if t.len() > 0 {
        let c = t[0] as u32;
        let bs = encode_scalar(c);
        assert forall|j: int| 0 <= j < bs.len() implies (#[trigger] bs[j]) as int != a as int by {
            if has_width_1_encoding(c) {
                assert(bs =~= seq![leading_byte_width_1(c)]);
                let y = leading_byte_width_1(c);
                assert(c <= 0x7f ==> (c & 0x7f) == c) by (bit_vector);
                assert(c <= 0x7f);
                assert(y as int == c as int);
                assert(t[0] != a);
                if y as int == a as int {
                    assert(c == a as u32);
                    assert(c == t[0] as u32);
                    vstd::utf8::char_u32_cast(t[0], c);
                    vstd::utf8::char_u32_cast(a, a as u32);
                    assert(t[0] == a);
                }
            } else {
                if has_width_2_encoding(c) {
                    lemma_or_byte_high(((c >> 6) & 0x1F) as u8);
                    lemma_or_byte_high((c & 0x3F) as u8);
                    assert(bs =~= seq![
                        leading_byte_width_2(c),
                        last_continuation_byte(c),
                    ]);
                } else if has_width_3_encoding(c) {
                    lemma_or_byte_high(((c >> 12) & 0x0F) as u8);
                    lemma_or_byte_high(((c >> 6) & 0x3F) as u8);
                    lemma_or_byte_high((c & 0x3F) as u8);
                    assert(bs =~= seq![
                        leading_byte_width_3(c),
                        second_last_continuation_byte(c),
                        last_continuation_byte(c),
                    ]);
                } else {
                    lemma_or_byte_high(((c >> 18) & 0x7) as u8);
                    lemma_or_byte_high(((c >> 12) & 0x3F) as u8);
                    lemma_or_byte_high(((c >> 6) & 0x3F) as u8);
                    lemma_or_byte_high((c & 0x3F) as u8);
                    assert(bs =~= seq![
                        leading_byte_width_4(c),
                        third_last_continuation_byte(c),
                        second_last_continuation_byte(c),
                        last_continuation_byte(c),
                    ]);
                }
                assert(bs[j] >= 0x80);
            }
        }
        assert forall|i: int| 0 <= i < t.drop_first().len() implies t.drop_first()[i] != a by {
            assert(t.drop_first()[i] == t[i + 1]);
        }
        lemma_encode_utf8_keeps_absent(t.drop_first(), a);
        let whole = encode_utf8(t);
        assert(whole == bs + encode_utf8(t.drop_first()));
        assert forall|j: int| 0 <= j < whole.len() implies (#[trigger] whole[j]) as int
            != a as int by {
            if j < bs.len() {
                assert(whole[j] == bs[j]);
            } else {
                assert(whole[j] == encode_utf8(t.drop_first())[j - bs.len()]);
            }
        }
    }
}

proof fn lemma_hex_upper_structural(d: int)
    requires
        0 <= d < 16,
    ensures
        hex_upper(d) != '&' && hex_upper(d) != '=',
{
}

proof fn lemma_pct_text_keeps_absent(bs: Seq<u8>, path: bool, a: char)
    requires
        a == '&' || a == '=',
        forall|j: int| 0 <= j < bs.len() ==> (#[trigger] bs[j]) as int != a as int,
    ensures
        forall|k: int|
            0 <= k < pct_text(bs, path).len() ==> #[trigger] pct_text(bs, path)[k] != a,
    decreases bs.len(),
{
    if bs.len() > 0 {
        let g = pct_group(bs[0], path);
        assert forall|k: int| 0 <= k < g.len() implies #[trigger] g[k] != a by {
            if (path && path_escapes(bs[0])) || (!path && query_escapes(bs[0])) {
                lemma_hex_upper_structural(bs[0] as int / 16);
                lemma_hex_upper_structural(bs[0] as int % 16);
            } else {
                assert((bs[0] as char) as int == bs[0] as int);
            }
        }
        assert forall|j: int| 0 <= j < bs.drop_first().len() implies (#[trigger] bs.drop_first()[j])
            as int != a as int by {
            assert(bs.drop_first()[j] == bs[j + 1]);
        }
        lemma_pct_text_keeps_absent(bs.drop_first(), path, a);
        let whole = pct_text(bs, path);
        assert(whole == g + pct_text(bs.drop_first(), path));
        assert forall|k: int| 0 <= k < whole.len() implies #[trigger] whole[k] != a by {
            if k < g.len() {
                assert(whole[k] == g[k]);
            } else {
                assert(whole[k] == pct_text(bs.drop_first(), path)[k - g.len()]);
            }
        }
    }
}

/// Percent-encoding for the query part neither removes nor introduces the
/// structural characters `&` and `=`.
pub proof fn lemma_query_escaped_wf(t: Seq<char>)
    requires
        text_wf(t),
    ensures
        text_wf(query_escaped(t)),
{
    assert forall|i: int| 0 <= i < t.len() implies t[i] != '&' && t[i] != '=' by {
        if t[i] == '&' {
            assert(contains_char(t, '&'));
        }
        if t[i] == '=' {
            assert(contains_char(t, '='));
        }
    }
    lemma_encode_utf8_keeps_absent(t, '&');
    lemma_encode_utf8_keeps_absent(t, '=');
    lemma_pct_text_keeps_absent(encode_utf8(t), false, '&');
    lemma_pct_text_keeps_absent(encode_utf8(t), false, '=');
    if contains_char(query_escaped(t), '&') {
        let k = choose|k: int|
            0 <= k < query_escaped(t).len() && query_escaped(t)[k] == '&';
        assert(query_escaped(t)[k] != '&');
    }
    if contains_char(query_escaped(t), '=') {
        let k = choose|k: int|
            0 <= k < query_escaped(t).len() && query_escaped(t)[k] == '=';
        assert(query_escaped(t)[k] != '=');
    }
}

proof fn lemma_fields_pairs_wf(fs: Seq<FieldSpec>)
    requires
        forall|i: int| 0 <= i < fs.len() ==> field_wf(#[trigger] fs[i]),
    ensures
        forall|i: int|
            0 <= i < fields_pairs(fs).len() ==> pair_wf(#[trigger] fields_pairs(fs)[i]),
    decreases fs.len(),
{
    if fs.len() > 0 {
        let head = field_pairs(fs[0]);
        assert forall|i: int| 0 <= i < head.len() implies pair_wf(#[trigger] head[i]) by {
            match fs[0].value {
                ValSpec::Absent => {},
                ValSpec::One(t) => {},
                ValSpec::Many(ts) => {
                    assert(head[i] == (fs[0].key, query_escaped(ts[i])));
                    assert(text_wf(ts[i]));
                    lemma_query_escaped_wf(ts[i]);
                },
            }
        }
        assert forall|i: int| 0 <= i < fs.drop_first().len() implies field_wf(
            #[trigger] fs.drop_first()[i],
        ) by {
            assert(fs.drop_first()[i] == fs[i + 1]);
        }
        lemma_fields_pairs_wf(fs.drop_first());
        let whole = fields_pairs(fs);
        assert(whole == head + fields_pairs(fs.drop_first()));
        assert forall|i: int| 0 <= i < whole.len() implies pair_wf(#[trigger] whole[i]) by {
            if i < head.len() {
                assert(whole[i] == head[i]);
            } else {
                assert(whole[i] == fields_pairs(fs.drop_first())[i - head.len()]);
            }
        }
    }
}

proof fn lemma_pair_text_amp_free(p: (Seq<char>, Seq<char>))
    requires
        pair_wf(p),
    ensures
        forall|i: int| 0 <= i < pair_text(p).len() ==> #[trigger] pair_text(p)[i] != '&',
        find_char(pair_text(p), '=') == p.0.len(),
        key_part(pair_text(p)) == p.0,
{
    let t = pair_text(p);
    assert forall|i: int| 0 <= i < t.len() implies #[trigger] t[i] != '&' by {
        if i < p.0.len() {
            assert(t[i] == p.0[i]);
            if p.0[i] == '&' {
                assert(contains_char(p.0, '&'));
            }
        } else if i == p.0.len() {
            assert(t[i] == '=');
        } else {
            assert(t[i] == p.1[i - p.0.len() - 1]);
            if t[i] == '&' {
                assert(contains_char(p.1, '&'));
            }
        }
    }
    assert forall|i: int| 0 <= i < p.0.len() implies p.0[i] != '=' by {
        if p.0[i] == '=' {
            assert(contains_char(p.0, '='));
        }
    }
    let b = seq!['='] + p.1;
    assert(b[0] == '=');
    assert(find_char(b, '=') == 0);
    lemma_find_char_concat(p.0, b, '=');
    assert(t =~= p.0 + b);
    assert(find_char(t, '=') == p.0.len());
    assert(key_part(t) =~= p.0);
}

/// The core of key recovery: splitting the encoded string on `&` and
/// taking what stands before each `=` yields exactly the keys, in order.
proof fn lemma_keys_of_encode(ps: Seq<(Seq<char>, Seq<char>)>)
    requires
        forall|i: int| 0 <= i < ps.len() ==> pair_wf(#[trigger] ps[i]),
    ensures
        keys_of(encode_pairs(ps)) == ps.map_values(|p: (Seq<char>, Seq<char>)| p.0),
    decreases ps.len(),
{
    let q = encode_pairs(ps);
    let target = ps.map_values(|p: (Seq<char>, Seq<char>)| p.0);
    if ps.len() == 0 {
        assert(keys_of(q) =~= target);
    } else if ps.len() == 1 {
        lemma_pair_text_amp_free(ps[0]);
        assert(q == pair_text(ps[0]));
        assert(q.len() > 0);
        lemma_find_char(q, '&');
        if contains_char(q, '&') {
            let i = choose|i: int| 0 <= i < q.len() && q[i] == '&';
            assert(q[i] != '&');
        }
        assert(find_char(q, '&') == -1);
        assert(split_char(q, '&') =~= seq![q]);
        assert(keys_of(q) =~= seq![key_part(q)]);
        assert(keys_of(q) =~= target);
    } else {
        let p0 = pair_text(ps[0]);
        let rest = encode_pairs(ps.drop_first());
        lemma_pair_text_amp_free(ps[0]);
        lemma_encode_pairs_nonempty(ps.drop_first());
        assert(q == p0 + seq!['&'] + rest);
        let b = seq!['&'] + rest;
        assert(b[0] == '&');
        assert(find_char(b, '&') == 0);
        lemma_find_char_concat(p0, b, '&');
        assert(q =~= p0 + b);
        assert(find_char(q, '&') == p0.len());
        assert(q.take(p0.len() as int) =~= p0);
        assert(q.skip(p0.len() as int + 1) =~= rest);
        assert(split_char(q, '&') == seq![p0] + split_char(rest, '&'));
        assert forall|i: int| 0 <= i < ps.drop_first().len() implies pair_wf(
            #[trigger] ps.drop_first()[i],
        ) by {
            assert(ps.drop_first()[i] == ps[i + 1]);
        }
        lemma_keys_of_encode(ps.drop_first());
        assert(rest.len() > 0);
        let sub = ps.drop_first().map_values(|p: (Seq<char>, Seq<char>)| p.0);
        assert(keys_of(rest) == split_char(rest, '&').map_values(|p: Seq<char>| key_part(p)));
        assert forall|k: int| 0 <= k < keys_of(q).len() implies #[trigger] keys_of(q)[k]
            == target[k] by {
            assert(keys_of(q)[k] == key_part(split_char(q, '&')[k]));
            if k == 0 {
                assert(split_char(q, '&')[0] == p0);
            } else {
                assert(split_char(q, '&')[k] == split_char(rest, '&')[k - 1]);
                assert(keys_of(rest)[k - 1] == sub[k - 1]);
                assert(sub[k - 1] == ps[k].0);
            }
        }
        assert(keys_of(q).len() == split_char(q, '&').len());
        assert(split_char(q, '&').len() == 1 + split_char(rest, '&').len());
        assert(split_char(rest, '&').len() == keys_of(rest).len());
        assert(keys_of(q) =~= target);
    }
}

/// Re-decoding the query string's keys recovers exactly the present
/// (non-absent) field names, a sequence field contributing one key
/// occurrence per element, in declaration order — for every field list
/// whose keys and scalar texts are free of the structural characters
/// `&` and `=`, as every field built from numbers, booleans, dates or
/// plain names is.
pub proof fn lemma_query_keys_recoverable(fs: Seq<FieldSpec>)
    requires
        forall|i: int| 0 <= i < fs.len() ==> field_wf(#[trigger] fs[i]),
    ensures
        keys_of(query_of(fs)) == fields_pairs(fs).map_values(
            |p: (Seq<char>, Seq<char>)| p.0,
        ),
{
    lemma_fields_pairs_wf(fs);
    lemma_keys_of_encode(fields_pairs(fs));
}

/// Decode the keys of a query string back out: one per `&`-separated
/// piece, each the part before its first `=`.
pub fn decode_query_keys(q: &str) -> (r: Vec<String>)
    ensures
        r.deep_view() == keys_of(q@),
{
    let mut r: Vec<String> = Vec::new();
    if q.is_empty() {
        proof {
            assert(r.deep_view() =~= keys_of(q@));
        }
        return r;
    }
    let pieces = crate::text::split_char_owned(q, '&');
    let n = pieces.len();
    let mut i: usize = 0;
    while i < n
        invariant
            0 <= i <= n,
            n == pieces.len(),
            pieces.deep_view() == split_char(q@, '&'),
            r.deep_view() =~= split_char(q@, '&').map_values(|p: Seq<char>| key_part(p)).take(
                i as int,
            ),
        decreases n - i,
    {
        let ghost prev = r.deep_view();
        let ghost prevr = r@;
        let piece = &pieces[i];
        let key = match crate::text::find_char_exec(piece.as_str(), '=') {
            None => piece.clone(),
            Some(j) => {
                proof {
                    lemma_find_char(piece@, '=');
                }
                piece.as_str().substring_char(0, j).to_owned()
            },
        };
        proof {
            assert(key@ == key_part(pieces.deep_view()[i as int]));
        }
        r.push(key);
        proof {
            assert(r@ == prevr.push(key));
            assert(prev.len() == prevr.len());
            assert(prev.len() == i);
            assert forall|l: int| 0 <= l < r.deep_view().len() implies #[trigger] r.deep_view()[l]
                == split_char(q@, '&').map_values(|p: Seq<char>| key_part(p)).take(i + 1)[l] by {
                assert(r.deep_view()[l] == r@[l].deep_view());
                if l < i {
                    assert(r@[l] == prevr[l]);
                    assert(prev[l] == prevr[l].deep_view());
                    assert(prev[l] == split_char(q@, '&').map_values(
                        |p: Seq<char>| key_part(p),
                    ).take(i as int)[l]);
                } else {
                    assert(r@[l] == key);
                }
            }
            assert(r.deep_view() =~= split_char(q@, '&').map_values(|p: Seq<char>| key_part(p)).take(
                i + 1,
            ));
        }
        i = i + 1;
    }
    proof {
        let m = split_char(q@, '&').map_values(|p: Seq<char>| key_part(p));
        assert(m.take(n as int) =~= m);
        assert(q@.len() != 0);
    }
    r
}


/// Text is well-formed when no position holds a structural character.
pub proof fn text_wf_from_chars(t: Seq<char>)
    requires
        forall|k: int| 0 <= k < t.len() ==> #[trigger] t[k] != '&' && t[k] != '=',
    ensures
        text_wf(t),
{
    if contains_char(t, '&') {
        let k = choose|k: int| 0 <= k < t.len() && t[k] == '&';
        assert(t[k] != '&');
    }
    if contains_char(t, '=') {
        let k = choose|k: int| 0 <= k < t.len() && t[k] == '=';
        assert(t[k] != '=');
    }
}

/// The canonical text of an integer holds no structural character.
pub proof fn lemma_int_text_wf(i: int)
    ensures
        text_wf(int_str(i)),
{
    crate::num::lemma_int_str_chars(i);
    assert forall|k: int| 0 <= k < int_str(i).len() implies #[trigger] int_str(i)[k] != '&'
        && int_str(i)[k] != '=' by {
        assert(crate::text::is_digit(int_str(i)[k]) || int_str(i)[k] == '-');
    }
    text_wf_from_chars(int_str(i));
}

/// The canonical text of a boolean holds no structural character.
pub proof fn lemma_bool_text_wf(b: bool)
    ensures
        text_wf(bool_str(b)),
{
    assert forall|k: int| 0 <= k < bool_str(b).len() implies #[trigger] bool_str(b)[k] != '&'
        && bool_str(b)[k] != '=' by {}
    text_wf_from_chars(bool_str(b));
}

/// The canonical texts of a timestamp hold no structural character.
pub proof fn lemma_date_text_wf(dt: crate::datetime::DateTime)
    requires
        dt.wf(),
    ensures
        text_wf(crate::datetime::iso_basic_str(dt)),
        text_wf(crate::datetime::touch_str(dt)),
{
    assert(forall|d: int| 0 <= d < 10 ==> crate::text::is_digit(
        #[trigger] crate::num::digit_char(d),
    ));
    let iso = crate::datetime::iso_basic_str(dt);
    assert forall|k: int| 0 <= k < iso.len() implies #[trigger] iso[k] != '&' && iso[k] != '=' by {
        assert(iso.len() == 19);
    }
    text_wf_from_chars(iso);
    let touch = crate::datetime::touch_str(dt);
    assert forall|k: int| 0 <= k < touch.len() implies #[trigger] touch[k] != '&' && touch[k]
        != '=' by {
        assert(touch.len() == 16);
    }
    text_wf_from_chars(touch);
}

} // verus!
