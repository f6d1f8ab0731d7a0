//! The markup engine: a byte-level tokenizer for article markup, the
//! noise-element removal pass, image-reference discovery, and the final
//! rewrite pass that replaces embedded images and drops unresolved ones.

use vstd::prelude::*;

use crate::bytestr::{append_bytes, bytes_eq, clone_bytes, slice_bytes};

verus! {

/// One token of the markup: a run of text (including comments and doctype),
/// an opening tag with its parsed attributes, or a closing tag. `raw` is the
/// exact byte range the token was read from, so a token sequence can be
/// serialized back without loss.
pub enum Tok {
    Text { raw: Vec<u8> },
    Open { name: Vec<u8>, attrs: Vec<(Vec<u8>, Vec<u8>)>, self_closing: bool, raw: Vec<u8> },
    Close { name: Vec<u8>, raw: Vec<u8> },
}

pub open spec fn raw_of(t: Tok) -> Seq<u8> {
    match t {
        Tok::Text { raw } => raw@,
        Tok::Open { raw, .. } => raw@,
        Tok::Close { raw, .. } => raw@,
    }
}

/// The bytes a token sequence serializes to.
pub open spec fn concat_raws(ts: Seq<Tok>) -> Seq<u8>
    decreases ts.len(),
{
    if ts.len() == 0 {
        Seq::empty()
    } else {
        concat_raws(ts.drop_last()) + raw_of(ts.last())
    }
}

proof fn lemma_concat_push(ts: Seq<Tok>, t: Tok)
    ensures
        concat_raws(ts.push(t)) == concat_raws(ts) + raw_of(t),
{
    assert(ts.push(t).drop_last() =~= ts);
    assert(ts.push(t).last() == t);
}

/// The mathematical value of a token: every field, as sequences.
#[verifier::ext_equal]
pub enum TokV {
    Text { raw: Seq<u8> },
    Open { name: Seq<u8>, attrs: Seq<(Seq<u8>, Seq<u8>)>, self_closing: bool, raw: Seq<u8> },
    Close { name: Seq<u8>, raw: Seq<u8> },
}

pub open spec fn attrs_v(ps: Seq<(Vec<u8>, Vec<u8>)>) -> Seq<(Seq<u8>, Seq<u8>)> {
    Seq::new(ps.len(), |i: int| (ps[i].0@, ps[i].1@))
}

pub open spec fn tok_v(t: Tok) -> TokV {
    match t {
        Tok::Text { raw } => TokV::Text { raw: raw@ },
        Tok::Open { name, attrs, self_closing, raw } => TokV::Open {
            name: name@,
            attrs: attrs_v(attrs@),
            self_closing,
            raw: raw@,
        },
        Tok::Close { name, raw } => TokV::Close { name: name@, raw: raw@ },
    }
}

pub open spec fn toks_v(ts: Seq<Tok>) -> Seq<TokV> {
    Seq::new(ts.len(), |i: int| tok_v(ts[i]))
}

pub open spec fn name_byte(b: u8) -> bool {
    (65 <= b <= 90) || (97 <= b <= 122) || (48 <= b <= 57) || b == 45 || b == 95 || b == 58
}

pub open spec fn ws_b(b: u8) -> bool {
    b == 32 || b == 9 || b == 10 || b == 13 || b == 12
}

pub open spec fn lower(b: u8) -> u8 {
    if 65 <= b <= 90 {
        (b + 32) as u8
    } else {
        b
    }
}

/// The first position at or after `i` holding byte `b`, else the end.
pub open spec fn scan_to(s: Seq<u8>, i: int, b: u8) -> int
    decreases s.len() - i,
{
    if !(0 <= i < s.len()) {
        s.len() as int
    } else if s[i] == b {
        i
    } else {
        scan_to(s, i + 1, b)
    }
}

/// The lower-cased name starting at `i`, and where it ends.
pub open spec fn scan_name(s: Seq<u8>, i: int) -> (Seq<u8>, int)
    decreases s.len() - i,
{
    if 0 <= i < s.len() && name_byte(s[i]) {
        let r = scan_name(s, i + 1);
        (seq![lower(s[i])] + r.0, r.1)
    } else {
        (Seq::empty(), i)
    }
}

/// The first non-whitespace position at or after `i`.
pub open spec fn skip_ws(s: Seq<u8>, i: int) -> int
    decreases s.len() - i,
{
    if 0 <= i < s.len() && ws_b(s[i]) {
        skip_ws(s, i + 1)
    } else {
        i
    }
}

/// The end of an unquoted attribute value starting at `i`.
pub open spec fn scan_unquoted(s: Seq<u8>, i: int) -> int
    decreases s.len() - i,
{
    if !(0 <= i < s.len()) {
        s.len() as int
    } else if ws_b(s[i]) || s[i] == 62 || s[i] == 47 {
        i
    } else {
        scan_unquoted(s, i + 1)
    }
}

/// An attribute value starting at `i`: quoted with either quote character,
/// else unquoted; yields the value bytes and the next position.
pub open spec fn scan_value(s: Seq<u8>, i: int) -> (Seq<u8>, int) {
    if 0 <= i < s.len() && (s[i] == 34 || s[i] == 39) {
        let e = scan_to(s, i + 1, s[i]);
        (s.subrange(i + 1, e), if e < s.len() {
            e + 1
        } else {
            e
        })
    } else {
        let e = scan_unquoted(s, i);
        (
            if 0 <= i <= e <= s.len() {
                s.subrange(i, e)
            } else {
                Seq::empty()
            },
            e,
        )
    }
}

/// The attribute list of an opening tag's raw bytes, read from `i`.
pub open spec fn parse_attrs_spec(s: Seq<u8>, i: int) -> Seq<(Seq<u8>, Seq<u8>)>
    decreases s.len() - i,
{
    if !(0 <= i < s.len()) {
        Seq::empty()
    } else if ws_b(s[i]) || s[i] == 62 || s[i] == 47 {
        parse_attrs_spec(s, i + 1)
    } else if name_byte(s[i]) {
        let nm = scan_name(s, i);
        let j2 = skip_ws(s, nm.1);
        if 0 <= j2 < s.len() && s[j2] == 61 {
            let vl = scan_value(s, skip_ws(s, j2 + 1));
            let nxt = if i < vl.1 <= s.len() {
                vl.1
            } else {
                i + 1
            };
            seq![(nm.0, vl.0)] + parse_attrs_spec(s, nxt)
        } else {
            let nxt = if i < j2 <= s.len() {
                j2
            } else {
                i + 1
            };
            seq![(nm.0, Seq::<u8>::empty())] + parse_attrs_spec(s, nxt)
        }
    } else {
        parse_attrs_spec(s, i + 1)
    }
}

/// A raw-text closing sequence `</name` (case-insensitive) stands at `j`.
pub open spec fn rawtext_close_at(s: Seq<u8>, j: int, name: Seq<u8>) -> bool {
    &&& 0 <= j < s.len()
    &&& s[j] == 60
    &&& j + 1 < s.len()
    &&& s[j + 1] == 47
    &&& j + 2 + name.len() <= s.len()
    &&& (forall|k: int| 0 <= k < name.len() ==> lower(s[j + 2 + k]) == #[trigger] name[k])
}

/// Where the raw text content of a `script` or `style` element ends.
pub open spec fn rawtext_end(s: Seq<u8>, from: int, name: Seq<u8>) -> int
    decreases s.len() - from,
{
    if !(0 <= from < s.len()) {
        s.len() as int
    } else if rawtext_close_at(s, from, name) {
        from
    } else {
        rawtext_end(s, from + 1, name)
    }
}

pub open spec fn script_name() -> Seq<u8> {
    seq![115u8, 99u8, 114u8, 105u8, 112u8, 116u8]
}

pub open spec fn style_name() -> Seq<u8> {
    seq![115u8, 116u8, 121u8, 108u8, 101u8]
}

/// The token (or token pair, for raw-text elements) read at `pos`, and the
/// position after it.
pub open spec fn step_spec(s: Seq<u8>, pos: int) -> (Seq<TokV>, int) {
    if s[pos] != 60 {
        let end = scan_to(s, pos + 1, 60);
        (seq![TokV::Text { raw: s.subrange(pos, end) }], end)
    } else {
        let end = scan_to(s, pos + 1, 62);
        if end >= s.len() {
            (seq![TokV::Text { raw: s.subrange(pos, s.len() as int) }], s.len() as int)
        } else {
            let tag_end = end + 1;
            let raw = s.subrange(pos, tag_end);
            if s[pos + 1] == 33 || s[pos + 1] == 63 {
                (seq![TokV::Text { raw }], tag_end)
            } else if s[pos + 1] == 47 {
                (seq![TokV::Close { name: scan_name(raw, 2).0, raw }], tag_end)
            } else {
                let name = scan_name(raw, 1).0;
                let attrs = parse_attrs_spec(raw, scan_name(raw, 1).1);
                let self_closing = raw.len() >= 2 && raw[raw.len() - 2] == 47;
                let t = TokV::Open { name, attrs, self_closing, raw };
                if !self_closing && (name == script_name() || name == style_name()) {
                    let j = rawtext_end(s, tag_end, name);
                    if j > tag_end {
                        (seq![t, TokV::Text { raw: s.subrange(tag_end, j) }], j)
                    } else {
                        (seq![t], tag_end)
                    }
                } else {
                    (seq![t], tag_end)
                }
            }
        }
    }
}

/// The tokens read from `pos` to the end of the input.
pub open spec fn tokenize_spec_from(s: Seq<u8>, pos: int) -> Seq<TokV>
    decreases s.len() - pos,
{
    if !(0 <= pos < s.len()) {
        Seq::empty()
    } else {
        let st = step_spec(s, pos);
        if pos < st.1 <= s.len() {
            st.0 + tokenize_spec_from(s, st.1)
        } else {
            st.0
        }
    }
}

/// The tokenization of the input: deterministic, and what `tokenize`
/// returns, token for token and field for field.
pub open spec fn tokenize_spec(s: Seq<u8>) -> Seq<TokV> {
    tokenize_spec_from(s, 0)
}

/// A byte that may stand in a tag or attribute name.
fn is_name_byte(b: u8) -> (r: bool)
    ensures
        r == name_byte(b),
{
    (65 <= b && b <= 90) || (97 <= b && b <= 122) || (48 <= b && b <= 57) || b == 45 || b == 95
        || b == 58
}

fn is_ws_byte(b: u8) -> (r: bool)
    ensures
        r == ws_b(b),
{
    b == 32 || b == 9 || b == 10 || b == 13 || b == 12
}

/// Read a tag or attribute name starting at `idx`, lower-cased; exactly
/// `scan_name`.
fn parse_name(raw: &Vec<u8>, idx: usize) -> (r: (Vec<u8>, usize))
    requires
        idx <= raw@.len(),
    ensures
        idx <= r.1 <= raw@.len(),
        r.0@ == scan_name(raw@, idx as int).0,
        r.1 as int == scan_name(raw@, idx as int).1,
{
    let n = raw.len();
    let mut out: Vec<u8> = Vec::new();
    let mut i = idx;
    while i < n && is_name_byte(raw[i])
        invariant
            idx <= i <= n,
            n == raw@.len(),
            out@ + scan_name(raw@, i as int).0 == scan_name(raw@, idx as int).0,
            scan_name(raw@, i as int).1 == scan_name(raw@, idx as int).1,
        decreases n - i,
    {
        let b = raw[i];
        proof {
            assert(scan_name(raw@, i as int).0 == seq![lower(b)] + scan_name(raw@, i + 1).0);
            assert(out@.push(lower(b)) + scan_name(raw@, i + 1).0 =~= out@ + (seq![lower(b)]
                + scan_name(raw@, i + 1).0));
        }
        if 65 <= b && b <= 90 {
            out.push(b + 32);
        } else {
            out.push(b);
        }
        i = i + 1;
    }
    proof {
        assert(scan_name(raw@, i as int).0 =~= Seq::<u8>::empty());
        assert(out@ + Seq::<u8>::empty() =~= out@);
        assert(scan_name(raw@, i as int).1 == i as int);
    }
    (out, i)
}

/// Parse the attribute list of an opening tag from its raw bytes, starting
/// after the tag name; exactly `parse_attrs_spec`. Attribute names are
/// lower-cased; values may be quoted with either quote character or
/// unquoted.
fn parse_attrs(raw: &Vec<u8>, start: usize) -> (r: Vec<(Vec<u8>, Vec<u8>)>)
    requires
        start <= raw@.len(),
    ensures
        attrs_v(r@) == parse_attrs_spec(raw@, start as int),
{
    let n = raw.len();
    let mut out: Vec<(Vec<u8>, Vec<u8>)> = Vec::new();
    let mut i = start;
    proof {
        assert(attrs_v(out@) + parse_attrs_spec(raw@, start as int) =~= parse_attrs_spec(
            raw@,
            start as int,
        ));
    }
    while i < n
        invariant
            i <= n,
            n == raw@.len(),
            attrs_v(out@) + parse_attrs_spec(raw@, i as int) == parse_attrs_spec(
                raw@,
                start as int,
            ),
        decreases n - i,
    {
        let ghost i0 = i as int;
        let b = raw[i];
        if is_ws_byte(b) || b == 62 || b == 47 {
            proof {
                assert(parse_attrs_spec(raw@, i0) == parse_attrs_spec(raw@, i0 + 1));
            }
            i = i + 1;
        } else if is_name_byte(b) {
            let (name, j1) = parse_name(raw, i);
            let mut j = j1;
            while j < n && is_ws_byte(raw[j])
                invariant
                    j <= n,
                    n == raw@.len(),
                    skip_ws(raw@, j1 as int) == skip_ws(raw@, j as int),
                decreases n - j,
            {
                j = j + 1;
            }
            proof {
                assert(skip_ws(raw@, j as int) == j as int);
            }
            let ghost j2 = j as int;
            if j < n && raw[j] == 61 {
                j = j + 1;
                let ghost vskip = j as int;
                while j < n && is_ws_byte(raw[j])
                    invariant
                        j <= n,
                        n == raw@.len(),
                        skip_ws(raw@, vskip) == skip_ws(raw@, j as int),
                    decreases n - j,
                {
                    j = j + 1;
                }
                proof {
                    assert(skip_ws(raw@, j as int) == j as int);
                }
                let ghost vstart = j as int;
                let mut value: Vec<u8> = Vec::new();
                if j < n && (raw[j] == 34 || raw[j] == 39) {
                    let quote = raw[j];
                    j = j + 1;
                    let ghost qs = j as int;
                    while j < n && raw[j] != quote
                        invariant
                            0 <= qs <= j <= n,
                            n == raw@.len(),
                            value@ == raw@.subrange(qs, j as int),
                            scan_to(raw@, qs, quote) == scan_to(raw@, j as int, quote),
                        decreases n - j,
                    {
                        proof {
                            assert(raw@.subrange(qs, j + 1) =~= raw@.subrange(qs, j as int).push(
                                raw@[j as int],
                            ));
                        }
                        value.push(raw[j]);
                        j = j + 1;
                    }
                    proof {
                        assert(scan_to(raw@, j as int, quote) == j as int);
                        assert((value@, if j < n {
                            j + 1
                        } else {
                            j as int
                        }) == scan_value(raw@, vstart));
                    }
                    if j < n {
                        j = j + 1;
                    }
                } else {
                    let ghost us = j as int;
                    while j < n && !is_ws_byte(raw[j]) && raw[j] != 62 && raw[j] != 47
                        invariant
                            0 <= us <= j <= n,
                            n == raw@.len(),
                            value@ == raw@.subrange(us, j as int),
                            scan_unquoted(raw@, us) == scan_unquoted(raw@, j as int),
                        decreases n - j,
                    {
                        proof {
                            assert(raw@.subrange(us, j + 1) =~= raw@.subrange(us, j as int).push(
                                raw@[j as int],
                            ));
                        }
                        value.push(raw[j]);
                        j = j + 1;
                    }
                    proof {
                        assert(scan_unquoted(raw@, j as int) == j as int);
                        assert((value@, j as int) == scan_value(raw@, vstart));
                    }
                }
                proof {
                    let full = parse_attrs_spec(raw@, i0);
                    assert(full == seq![(name@, value@)] + parse_attrs_spec(
                        raw@,
                        if i0 < j as int <= raw@.len() {
                            j as int
                        } else {
                            i0 + 1
                        },
                    ));
                    assert(attrs_v(out@.push((name, value))) =~= attrs_v(out@).push(
                        (name@, value@),
                    ));
                    assert(attrs_v(out@).push((name@, value@)) + parse_attrs_spec(
                        raw@,
                        if i0 < j as int <= raw@.len() {
                            j as int
                        } else {
                            i0 + 1
                        },
                    ) =~= attrs_v(out@) + full);
                }
                out.push((name, value));
                if j > i {
                    i = j;
                } else {
                    i = i + 1;
                }
            } else {
                let empty_val: Vec<u8> = Vec::new();
                proof {
                    let full = parse_attrs_spec(raw@, i0);
                    assert(full == seq![(name@, Seq::<u8>::empty())] + parse_attrs_spec(
                        raw@,
                        if i0 < j2 <= raw@.len() {
                            j2
                        } else {
                            i0 + 1
                        },
                    ));
                    assert(attrs_v(out@.push((name, empty_val))) =~= attrs_v(out@).push(
                        (name@, Seq::<u8>::empty()),
                    ));
                    assert(attrs_v(out@).push((name@, Seq::<u8>::empty())) + parse_attrs_spec(
                        raw@,
                        if i0 < j2 <= raw@.len() {
                            j2
                        } else {
                            i0 + 1
                        },
                    ) =~= attrs_v(out@) + full);
                }
                out.push((name, empty_val));
                if j > i {
                    i = j;
                } else {
                    i = i + 1;
                }
            }
        } else {
            proof {
                assert(parse_attrs_spec(raw@, i0) == parse_attrs_spec(raw@, i0 + 1));
            }
            i = i + 1;
        }
    }
    proof {
        assert(parse_attrs_spec(raw@, n as int) =~= Seq::<(Seq<u8>, Seq<u8>)>::empty());
        assert(attrs_v(out@) + Seq::<(Seq<u8>, Seq<u8>)>::empty() =~= attrs_v(out@));
    }
    out
}

/// Find where raw text content ends: the first `</` followed by the element
/// name (case-insensitively), or the end of the input; exactly
/// `rawtext_end`.
fn find_rawtext_end(input: &Vec<u8>, from: usize, name: &Vec<u8>) -> (r: usize)
    requires
        from <= input@.len(),
    ensures
        from <= r <= input@.len(),
        r as int == rawtext_end(input@, from as int, name@),
{
    let n = input.len();
    let m = name.len();
    let mut j = from;
    while j < n
        invariant
            from <= j <= n,
            n == input@.len(),
            m == name@.len(),
            rawtext_end(input@, from as int, name@) == rawtext_end(input@, j as int, name@),
        decreases n - j,
    {
        if input[j] == 60 && j + 1 < n && input[j + 1] == 47 && m <= n - 2 - j {
            let mut k: usize = 0;
            let mut all = true;
            while k < m
                invariant
                    k <= m,
                    m == name@.len(),
                    j + 2 + m <= n,
                    n == input@.len(),
                    all <==> (forall|k2: int|
                        0 <= k2 < k ==> lower(input@[j + 2 + k2]) == #[trigger] name@[k2]),
                decreases m - k,
            {
                let b = input[j + 2 + k];
                let lb = if 65 <= b && b <= 90 {
                    b + 32
                } else {
                    b
                };
                if lb != name[k] {
                    all = false;
                }
                k = k + 1;
            }
            if all {
                proof {
                    assert(rawtext_close_at(input@, j as int, name@));
                    assert(rawtext_end(input@, j as int, name@) == j as int);
                }
                return j;
            }
            proof {
                assert(!rawtext_close_at(input@, j as int, name@));
                assert(rawtext_end(input@, j as int, name@) == rawtext_end(
                    input@,
                    j + 1,
                    name@,
                ));
            }
        } else {
            proof {
                assert(!rawtext_close_at(input@, j as int, name@));
                assert(rawtext_end(input@, j as int, name@) == rawtext_end(
                    input@,
                    j + 1,
                    name@,
                ));
            }
        }
        j = j + 1;
    }
    proof {
        assert(rawtext_end(input@, n as int, name@) == n as int);
    }
    n
}

proof fn lemma_subrange_join(s: Seq<u8>, a: int, b: int, c: int)
    requires
        0 <= a <= b <= c <= s.len(),
    ensures
        s.subrange(a, b) + s.subrange(b, c) == s.subrange(a, c),
{
    assert(s.subrange(a, b) + s.subrange(b, c) =~= s.subrange(a, c));
}

/// Tokenize markup; exactly `tokenize_spec`, token for token and field for
/// field. The tokens partition the input: serializing them back yields the
/// input byte for byte. The content of `script` and `style` elements is
/// kept as opaque text up to the matching closing tag.
pub fn tokenize(input: &Vec<u8>) -> (r: Vec<Tok>)
    ensures
        toks_v(r@) == tokenize_spec(input@),
        concat_raws(r@) == input@,
{
    let script: Vec<u8> = vec![115u8, 99u8, 114u8, 105u8, 112u8, 116u8];
    let style: Vec<u8> = vec![115u8, 116u8, 121u8, 108u8, 101u8];
    proof {
        assert(script@ =~= script_name());
        assert(style@ =~= style_name());
    }
    let mut toks: Vec<Tok> = Vec::new();
    let mut pos: usize = 0;
    let n = input.len();
    proof {
        assert(toks_v(toks@) + tokenize_spec_from(input@, 0) =~= tokenize_spec(input@));
    }
    while pos < n
        invariant
            pos <= n,
            n == input@.len(),
            script@ == script_name(),
            style@ == style_name(),
            concat_raws(toks@) == input@.subrange(0, pos as int),
            toks_v(toks@) + tokenize_spec_from(input@, pos as int) == tokenize_spec(input@),
        decreases n - pos,
    {
        let ghost p0 = pos as int;
        if input[pos] != 60 {
            let mut end = pos + 1;
            while end < n && input[end] != 60
                invariant
                    pos < end <= n,
                    n == input@.len(),
                    scan_to(input@, p0 + 1, 60) == scan_to(input@, end as int, 60),
                decreases n - end,
            {
                end = end + 1;
            }
            proof {
                assert(scan_to(input@, end as int, 60) == end as int);
            }
            let raw = slice_bytes(input, pos, end);
            let t = Tok::Text { raw };
            proof {
                lemma_concat_push(toks@, t);
                lemma_subrange_join(input@, 0, p0, end as int);
                assert(step_spec(input@, p0) == (seq![tok_v(t)], end as int));
                assert(tokenize_spec_from(input@, p0) == seq![tok_v(t)] + tokenize_spec_from(
                    input@,
                    end as int,
                ));
                assert(toks_v(toks@.push(t)) =~= toks_v(toks@).push(tok_v(t)));
                assert(toks_v(toks@).push(tok_v(t)) + tokenize_spec_from(input@, end as int)
                    =~= toks_v(toks@) + tokenize_spec_from(input@, p0));
            }
            toks.push(t);
            pos = end;
        } else {
            let mut end = pos + 1;
            while end < n && input[end] != 62
                invariant
                    pos < end <= n,
                    n == input@.len(),
                    scan_to(input@, p0 + 1, 62) == scan_to(input@, end as int, 62),
                decreases n - end,
            {
                end = end + 1;
            }
            proof {
                assert(scan_to(input@, end as int, 62) == end as int);
            }
            if end >= n {
                let raw = slice_bytes(input, pos, n);
                let t = Tok::Text { raw };
                proof {
                    lemma_concat_push(toks@, t);
                    lemma_subrange_join(input@, 0, p0, n as int);
                    assert(step_spec(input@, p0) == (seq![tok_v(t)], n as int));
                    assert(tokenize_spec_from(input@, p0) == seq![tok_v(t)]
                        + tokenize_spec_from(input@, n as int));
                    assert(tokenize_spec_from(input@, n as int) =~= Seq::<TokV>::empty());
                    assert(toks_v(toks@.push(t)) =~= toks_v(toks@).push(tok_v(t)));
                    assert(toks_v(toks@).push(tok_v(t)) + tokenize_spec_from(input@, n as int)
                        =~= toks_v(toks@) + tokenize_spec_from(input@, p0));
                }
                toks.push(t);
                pos = n;
            } else {
                let tag_end = end + 1;
                let raw = slice_bytes(input, pos, tag_end);
                if input[pos + 1] == 33 || input[pos + 1] == 63 {
                    let t = Tok::Text { raw };
                    proof {
                        lemma_concat_push(toks@, t);
                        lemma_subrange_join(input@, 0, p0, tag_end as int);
                        assert(step_spec(input@, p0) == (seq![tok_v(t)], tag_end as int));
                        assert(tokenize_spec_from(input@, p0) == seq![tok_v(t)]
                            + tokenize_spec_from(input@, tag_end as int));
                        assert(toks_v(toks@.push(t)) =~= toks_v(toks@).push(tok_v(t)));
                        assert(toks_v(toks@).push(tok_v(t)) + tokenize_spec_from(
                            input@,
                            tag_end as int,
                        ) =~= toks_v(toks@) + tokenize_spec_from(input@, p0));
                    }
                    toks.push(t);
                    pos = tag_end;
                } else if input[pos + 1] == 47 {
                    let (name, _) = parse_name(&raw, 2);
                    let t = Tok::Close { name, raw };
                    proof {
                        lemma_concat_push(toks@, t);
                        lemma_subrange_join(input@, 0, p0, tag_end as int);
                        assert(step_spec(input@, p0) == (seq![tok_v(t)], tag_end as int));
                        assert(tokenize_spec_from(input@, p0) == seq![tok_v(t)]
                            + tokenize_spec_from(input@, tag_end as int));
                        assert(toks_v(toks@.push(t)) =~= toks_v(toks@).push(tok_v(t)));
                        assert(toks_v(toks@).push(tok_v(t)) + tokenize_spec_from(
                            input@,
                            tag_end as int,
                        ) =~= toks_v(toks@) + tokenize_spec_from(input@, p0));
                    }
                    toks.push(t);
                    pos = tag_end;
                } else {
                    let (name, after) = parse_name(&raw, 1);
                    let attrs = parse_attrs(&raw, after);
                    let self_closing = raw.len() >= 2 && raw[raw.len() - 2] == 47;
                    let rawtext = !self_closing && (bytes_eq(&name, &script) || bytes_eq(
                        &name,
                        &style,
                    ));
                    let scan_name_copy = if rawtext {
                        clone_bytes(&name)
                    } else {
                        Vec::new()
                    };
                    let t = Tok::Open { name, attrs, self_closing, raw };
                    let ghost tv = tok_v(t);
                    proof {
                        lemma_concat_push(toks@, t);
                        lemma_subrange_join(input@, 0, p0, tag_end as int);
                    }
                    if rawtext {
                        let j = find_rawtext_end(input, tag_end, &scan_name_copy);
                        if j > tag_end {
                            let raw2 = slice_bytes(input, tag_end, j);
                            let t2 = Tok::Text { raw: raw2 };
                            proof {
                                lemma_concat_push(toks@.push(t), t2);
                                lemma_subrange_join(input@, 0, tag_end as int, j as int);
                                assert(step_spec(input@, p0) == (
                                    seq![tv, tok_v(t2)],
                                    j as int,
                                ));
                                assert(tokenize_spec_from(input@, p0) == seq![tv, tok_v(t2)]
                                    + tokenize_spec_from(input@, j as int));
                                assert(toks_v(toks@.push(t).push(t2)) =~= toks_v(toks@).push(
                                    tv,
                                ).push(tok_v(t2)));
                                assert(toks_v(toks@).push(tv).push(tok_v(t2))
                                    + tokenize_spec_from(input@, j as int) =~= toks_v(toks@)
                                    + tokenize_spec_from(input@, p0));
                            }
                            toks.push(t);
                            toks.push(t2);
                            pos = j;
                        } else {
                            proof {
                                assert(step_spec(input@, p0) == (seq![tv], tag_end as int));
                                assert(tokenize_spec_from(input@, p0) == seq![tv]
                                    + tokenize_spec_from(input@, tag_end as int));
                                assert(toks_v(toks@.push(t)) =~= toks_v(toks@).push(tv));
                                assert(toks_v(toks@).push(tv) + tokenize_spec_from(
                                    input@,
                                    tag_end as int,
                                ) =~= toks_v(toks@) + tokenize_spec_from(input@, p0));
                            }
                            toks.push(t);
                            pos = tag_end;
                        }
                    } else {
                        proof {
                            assert(step_spec(input@, p0) == (seq![tv], tag_end as int));
                            assert(tokenize_spec_from(input@, p0) == seq![tv]
                                + tokenize_spec_from(input@, tag_end as int));
                            assert(toks_v(toks@.push(t)) =~= toks_v(toks@).push(tv));
                            assert(toks_v(toks@).push(tv) + tokenize_spec_from(
                                input@,
                                tag_end as int,
                            ) =~= toks_v(toks@) + tokenize_spec_from(input@, p0));
                        }
                        toks.push(t);
                        pos = tag_end;
                    }
                }
            }
        }
    }
    proof {
        assert(input@.subrange(0, n as int) =~= input@);
        assert(tokenize_spec_from(input@, n as int) =~= Seq::<TokV>::empty());
        assert(toks_v(toks@) + Seq::<TokV>::empty() =~= toks_v(toks@));
    }
    toks
}

/// Serialize a token sequence back to bytes.
pub fn serialize_tokens(toks: &Vec<Tok>) -> (r: Vec<u8>)
    ensures
        r@ == concat_raws(toks@),
{
    let mut out: Vec<u8> = Vec::new();
    let n = toks.len();
    let mut i: usize = 0;
    while i < n
        invariant
            i <= n,
            n == toks@.len(),
            out@ == concat_raws(toks@.subrange(0, i as int)),
        decreases n - i,
    {
        proof {
            assert(toks@.subrange(0, i + 1).drop_last() =~= toks@.subrange(0, i as int));
            assert(toks@.subrange(0, i + 1).last() == toks@[i as int]);
        }
        match &toks[i] {
            Tok::Text { raw } => append_bytes(&mut out, raw),
            Tok::Open { raw, .. } => append_bytes(&mut out, raw),
            Tok::Close { raw, .. } => append_bytes(&mut out, raw),
        }
        i = i + 1;
    }
    proof {
        assert(toks@.subrange(0, n as int) =~= toks@);
    }
    out
}

/// The first binding of a key in an association list (attribute lists and
/// embed maps are both association lists of byte strings).
pub open spec fn lookup_spec(ps: Seq<(Vec<u8>, Vec<u8>)>, k: Seq<u8>) -> Option<Seq<u8>>
    decreases ps.len(),
{
    if ps.len() == 0 {
        None
    } else if ps.first().0@ == k {
        Some(ps.first().1@)
    } else {
        lookup_spec(ps.drop_first(), k)
    }
}

/// Look a key up in an association list; see `lookup_spec`.
pub fn lookup_assoc(ps: &Vec<(Vec<u8>, Vec<u8>)>, k: &Vec<u8>) -> (r: Option<Vec<u8>>)
    ensures
        match r {
            Some(v) => lookup_spec(ps@, k@) == Some(v@),
            None => lookup_spec(ps@, k@) is None,
        },
{
    let n = ps.len();
    let mut i: usize = 0;
    proof {
        assert(ps@.skip(0) =~= ps@);
    }
    while i < n
        invariant
            i <= n,
            n == ps@.len(),
            lookup_spec(ps@, k@) == lookup_spec(ps@.skip(i as int), k@),
        decreases n - i,
    {
        proof {
            assert(ps@.skip(i as int).first() == ps@[i as int]);
            assert(ps@.skip(i as int).drop_first() =~= ps@.skip(i + 1));
        }
        if bytes_eq(&ps[i].0, k) {
            return Some(clone_bytes(&ps[i].1));
        }
        i = i + 1;
    }
    proof {
        assert(ps@.skip(n as int) =~= Seq::<(Vec<u8>, Vec<u8>)>::empty());
    }
    None
}

pub open spec fn img_name() -> Seq<u8> {
    seq![105u8, 109u8, 103u8]
}

pub open spec fn src_name() -> Seq<u8> {
    seq![115u8, 114u8, 99u8]
}

/// The image reference a token carries: the `src` attribute of an `img`
/// opening tag.
pub open spec fn tok_img_src(t: Tok) -> Option<Seq<u8>> {
    match t {
        Tok::Open { name, attrs, .. } => if name@ == img_name() {
            lookup_spec(attrs@, src_name())
        } else {
            None
        },
        _ => None,
    }
}

/// Every image reference in the token sequence, in document order. Ordinals
/// for embedded resources are assigned over this order.
pub open spec fn img_srcs_spec(ts: Seq<Tok>) -> Seq<Seq<u8>>
    decreases ts.len(),
{
    if ts.len() == 0 {
        Seq::empty()
    } else {
        let rest = img_srcs_spec(ts.drop_first());
        match tok_img_src(ts.first()) {
            Some(s) => seq![s] + rest,
            None => rest,
        }
    }
}

/// Collect every image reference, in document order; see `img_srcs_spec`.
pub fn collect_img_srcs(toks: &Vec<Tok>) -> (r: Vec<Vec<u8>>)
    ensures
        crate::feed::views_of(r@) == img_srcs_spec(toks@),
{
    let img: Vec<u8> = vec![105u8, 109u8, 103u8];
    let src: Vec<u8> = vec![115u8, 114u8, 99u8];
    proof {
        assert(img@ =~= img_name());
        assert(src@ =~= src_name());
    }
    let mut out: Vec<Vec<u8>> = Vec::new();
    let n = toks.len();
    let mut i: usize = 0;
    proof {
        assert(toks@.skip(0) =~= toks@);
        assert(crate::feed::views_of(out@) + img_srcs_spec(toks@) =~= img_srcs_spec(toks@));
    }
    while i < n
        invariant
            i <= n,
            n == toks@.len(),
            img@ == img_name(),
            src@ == src_name(),
            crate::feed::views_of(out@) + img_srcs_spec(toks@.skip(i as int)) == img_srcs_spec(
                toks@,
            ),
        decreases n - i,
    {
        proof {
            assert(toks@.skip(i as int).first() == toks@[i as int]);
            assert(toks@.skip(i as int).drop_first() =~= toks@.skip(i + 1));
        }
        let found: Option<Vec<u8>> = match &toks[i] {
            Tok::Open { name, attrs, .. } => {
                if bytes_eq(name, &img) {
                    lookup_assoc(attrs, &src)
                } else {
                    None
                }
            },
            _ => None,
        };
        match found {
            Some(s) => {
                proof {
                    assert(tok_img_src(toks@[i as int]) == Some(s@));
                    assert(crate::feed::views_of(out@.push(s)) =~= crate::feed::views_of(
                        out@,
                    ).push(s@));
                    assert(crate::feed::views_of(out@).push(s@) + img_srcs_spec(
                        toks@.skip(i + 1),
                    ) =~= crate::feed::views_of(out@) + (seq![s@] + img_srcs_spec(
                        toks@.skip(i + 1),
                    )));
                }
                out.push(s);
            },
            None => {
                proof {
                    assert(tok_img_src(toks@[i as int]) is None);
                }
            },
        }
        i = i + 1;
    }
    proof {
        assert(toks@.skip(n as int) =~= Seq::<Tok>::empty());
        assert(crate::feed::views_of(out@) + img_srcs_spec(Seq::<Tok>::empty())
            =~= crate::feed::views_of(out@));
    }
    out
}

/// Noise elements that stand alone: their single tag is removed.
pub open spec fn noise_void(n: Seq<u8>) -> bool {
    ||| n == seq![98u8, 114u8]  // br
    ||| n == seq![104u8, 114u8]  // hr
    ||| n == seq![105u8, 110u8, 112u8, 117u8, 116u8]  // input
    ||| n == seq![115u8, 111u8, 117u8, 114u8, 99u8, 101u8]  // source
}

/// Noise elements with content: the whole element, children included, is
/// removed up to the matching closing tag.
pub open spec fn noise_container(n: Seq<u8>) -> bool {
    ||| n == seq![102u8, 111u8, 114u8, 109u8]  // form
    ||| n == seq![105u8, 102u8, 114u8, 97u8, 109u8, 101u8]  // iframe
    ||| n == seq![115u8, 99u8, 114u8, 105u8, 112u8, 116u8]  // script
    ||| n == seq![115u8, 116u8, 121u8, 108u8, 101u8]  // style
}

pub open spec fn is_noise_name(n: Seq<u8>) -> bool {
    noise_void(n) || noise_container(n)
}

/// The noise-removal pass over a token sequence. While `skip` holds an
/// element name and a nesting depth, tokens are being discarded inside a
/// noise element of that name.
pub open spec fn strip_noise_go(ts: Seq<Tok>, skip: Option<(Seq<u8>, nat)>) -> Seq<Tok>
    decreases ts.len(),
{
    if ts.len() == 0 {
        Seq::empty()
    } else {
        let rest = ts.drop_first();
        match skip {
            Some(st) => match ts.first() {
                Tok::Open { name, self_closing, .. } => if name@ == st.0 && !self_closing {
                    strip_noise_go(rest, Some((st.0, st.1 + 1)))
                } else {
                    strip_noise_go(rest, skip)
                },
                Tok::Close { name, .. } => if name@ == st.0 {
                    if st.1 == 0 {
                        strip_noise_go(rest, None)
                    } else {
                        strip_noise_go(rest, Some((st.0, (st.1 - 1) as nat)))
                    }
                } else {
                    strip_noise_go(rest, skip)
                },
                Tok::Text { .. } => strip_noise_go(rest, skip),
            },
            None => match ts.first() {
                Tok::Open { name, self_closing, .. } => if noise_container(name@)
                    && !self_closing {
                    strip_noise_go(rest, Some((name@, 0)))
                } else if is_noise_name(name@) {
                    strip_noise_go(rest, None)
                } else {
                    seq![ts.first()] + strip_noise_go(rest, None)
                },
                Tok::Close { name, .. } => if is_noise_name(name@) {
                    strip_noise_go(rest, None)
                } else {
                    seq![ts.first()] + strip_noise_go(rest, None)
                },
                Tok::Text { .. } => seq![ts.first()] + strip_noise_go(rest, None),
            },
        }
    }
}

/// The noise-removal pass: every line break, form, horizontal rule, inline
/// frame, input, script, media source and style element is removed, with its
/// content, before any filtering or image work.
pub open spec fn strip_noise_spec(ts: Seq<Tok>) -> Seq<Tok> {
    strip_noise_go(ts, None)
}

pub open spec fn tok_is_noise(t: Tok) -> bool {
    match t {
        Tok::Open { name, .. } => is_noise_name(name@),
        Tok::Close { name, .. } => is_noise_name(name@),
        Tok::Text { .. } => false,
    }
}

proof fn lemma_all_not_noise_eq(a: Seq<Tok>, b: Seq<Tok>)
    requires
        a == b,
        forall|i: int| 0 <= i < b.len() ==> !tok_is_noise(#[trigger] b[i]),
    ensures
        forall|i: int| 0 <= i < a.len() ==> !tok_is_noise(#[trigger] a[i]),
{
    assert forall|i: int| 0 <= i < a.len() implies !tok_is_noise(#[trigger] a[i]) by {
        assert(a[i] == b[i]);
    }
}

proof fn lemma_all_not_noise_cons(t: Tok, s: Seq<Tok>)
    requires
        !tok_is_noise(t),
        forall|i: int| 0 <= i < s.len() ==> !tok_is_noise(#[trigger] s[i]),
    ensures
        forall|i: int| 0 <= i < (seq![t] + s).len() ==> !tok_is_noise(#[trigger] (seq![t] + s)[i]),
{
    assert forall|i: int| 0 <= i < (seq![t] + s).len() implies !tok_is_noise(
        #[trigger] (seq![t] + s)[i],
    ) by {
        if i == 0 {
            assert((seq![t] + s)[0] == t);
        } else {
            assert((seq![t] + s)[i] == s[i - 1]);
        }
    }
}

proof fn law_noise_removed_go(ts: Seq<Tok>, skip: Option<(Seq<u8>, nat)>)
    ensures
        forall|i: int| 0 <= i < strip_noise_go(ts, skip).len() ==> !tok_is_noise(
            #[trigger] strip_noise_go(ts, skip)[i],
        ),
    decreases ts.len(),
{
    if ts.len() > 0 {
        let rest = ts.drop_first();
        let out = strip_noise_go(ts, skip);
        match skip {
            Some(st) => match ts.first() {
                Tok::Open { name, self_closing, .. } => {
                    if name@ == st.0 && !self_closing {
                        law_noise_removed_go(rest, Some((st.0, st.1 + 1)));
                        lemma_all_not_noise_eq(out, strip_noise_go(rest, Some((st.0, st.1 + 1))));
                    } else {
                        law_noise_removed_go(rest, skip);
                        lemma_all_not_noise_eq(out, strip_noise_go(rest, skip));
                    }
                },
                Tok::Close { name, .. } => {
                    if name@ == st.0 {
                        if st.1 == 0 {
                            law_noise_removed_go(rest, None);
                            lemma_all_not_noise_eq(out, strip_noise_go(rest, None));
                        } else {
                            law_noise_removed_go(rest, Some((st.0, (st.1 - 1) as nat)));
                            lemma_all_not_noise_eq(
                                out,
                                strip_noise_go(rest, Some((st.0, (st.1 - 1) as nat))),
                            );
                        }
                    } else {
                        law_noise_removed_go(rest, skip);
                        lemma_all_not_noise_eq(out, strip_noise_go(rest, skip));
                    }
                },
                Tok::Text { .. } => {
                    law_noise_removed_go(rest, skip);
                    lemma_all_not_noise_eq(out, strip_noise_go(rest, skip));
                },
            },
            None => {
                law_noise_removed_go(rest, None);
                match ts.first() {
                    Tok::Open { name, self_closing, .. } => {
                        if noise_container(name@) && !self_closing {
                            law_noise_removed_go(rest, Some((name@, 0)));
                            lemma_all_not_noise_eq(out, strip_noise_go(rest, Some((name@, 0))));
                        } else if is_noise_name(name@) {
                            lemma_all_not_noise_eq(out, strip_noise_go(rest, None));
                        } else {
                            lemma_all_not_noise_cons(ts.first(), strip_noise_go(rest, None));
                            lemma_all_not_noise_eq(
                                out,
                                seq![ts.first()] + strip_noise_go(rest, None),
                            );
                        }
                    },
                    Tok::Close { name, .. } => {
                        if is_noise_name(name@) {
                            lemma_all_not_noise_eq(out, strip_noise_go(rest, None));
                        } else {
                            lemma_all_not_noise_cons(ts.first(), strip_noise_go(rest, None));
                            lemma_all_not_noise_eq(
                                out,
                                seq![ts.first()] + strip_noise_go(rest, None),
                            );
                        }
                    },
                    Tok::Text { .. } => {
                        lemma_all_not_noise_cons(ts.first(), strip_noise_go(rest, None));
                        lemma_all_not_noise_eq(out, seq![ts.first()] + strip_noise_go(rest, None));
                    },
                }
            },
        }
    }
}

/// The noise-removal pass removes every noise element — no tag of a noise
/// element survives it, whatever the filter settings around it do.
pub proof fn law_noise_removed(ts: Seq<Tok>)
    ensures
        forall|i: int| 0 <= i < strip_noise_spec(ts).len() ==> !tok_is_noise(
            #[trigger] strip_noise_spec(ts)[i],
        ),
{
    law_noise_removed_go(ts, None);
}

spec fn skip_state_view(name: Option<Vec<u8>>, depth: u64) -> Option<(Seq<u8>, nat)> {
    match name {
        Some(v) => Some((v@, depth as nat)),
        None => None,
    }
}

/// Classification of a tag name: 0 none, 1 standalone noise, 2 noise with
/// content.
fn classify_noise(name: &Vec<u8>) -> (r: u8)
    ensures
        r == 1 <==> noise_void(name@),
        r == 2 <==> noise_container(name@),
        r == 0 <==> !is_noise_name(name@),
{
    let br: Vec<u8> = vec![98u8, 114u8];
    let hr: Vec<u8> = vec![104u8, 114u8];
    let input_n: Vec<u8> = vec![105u8, 110u8, 112u8, 117u8, 116u8];
    let source_n: Vec<u8> = vec![115u8, 111u8, 117u8, 114u8, 99u8, 101u8];
    let form_n: Vec<u8> = vec![102u8, 111u8, 114u8, 109u8];
    let iframe_n: Vec<u8> = vec![105u8, 102u8, 114u8, 97u8, 109u8, 101u8];
    let script_n: Vec<u8> = vec![115u8, 99u8, 114u8, 105u8, 112u8, 116u8];
    let style_n: Vec<u8> = vec![115u8, 116u8, 121u8, 108u8, 101u8];
    proof {
        assert(br@ =~= seq![98u8, 114u8]);
        assert(hr@ =~= seq![104u8, 114u8]);
        assert(input_n@ =~= seq![105u8, 110u8, 112u8, 117u8, 116u8]);
        assert(source_n@ =~= seq![115u8, 111u8, 117u8, 114u8, 99u8, 101u8]);
        assert(form_n@ =~= seq![102u8, 111u8, 114u8, 109u8]);
        assert(iframe_n@ =~= seq![105u8, 102u8, 114u8, 97u8, 109u8, 101u8]);
        assert(script_n@ =~= seq![115u8, 99u8, 114u8, 105u8, 112u8, 116u8]);
        assert(style_n@ =~= seq![115u8, 116u8, 121u8, 108u8, 101u8]);
    }
    if bytes_eq(name, &br) || bytes_eq(name, &hr) || bytes_eq(name, &input_n) || bytes_eq(
        name,
        &source_n,
    ) {
        1
    } else if bytes_eq(name, &form_n) || bytes_eq(name, &iframe_n) || bytes_eq(name, &script_n)
        || bytes_eq(name, &style_n) {
        2
    } else {
        0
    }
}

/// Remove every noise element from the token sequence; see
/// `strip_noise_spec`.
pub fn strip_noise(toks: Vec<Tok>) -> (r: Vec<Tok>)
    ensures
        r@ == strip_noise_spec(toks@),
{
    let ghost orig = toks@;
    let orig_len = toks.len();
    let mut toks = toks;
    let mut out: Vec<Tok> = Vec::new();
    let mut skip_name: Option<Vec<u8>> = None;
    let mut depth: u64 = 0;
    proof {
        assert(out@ + strip_noise_go(toks@, skip_state_view(skip_name, depth)) =~= strip_noise_go(
            orig,
            None,
        ));
    }
    while toks.len() > 0
        invariant
            strip_noise_go(orig, None) == out@ + strip_noise_go(
                toks@,
                skip_state_view(skip_name, depth),
            ),
            orig.len() == orig_len,
            skip_name is Some ==> depth as int <= orig.len() - toks@.len(),
            toks@.len() <= orig.len(),
        decreases toks@.len(),
    {
        let ghost pre = toks@;
        let ghost st = skip_state_view(skip_name, depth);
        let t = toks.remove(0);
        proof {
            assert(pre.remove(0) =~= pre.drop_first());
            assert(pre.first() == t);
        }
        let keep_or_state: bool = skip_name.is_some();
        if keep_or_state {
            let adv: u8 = match &t {
                Tok::Open { name, self_closing, .. } => {
                    if !*self_closing && bytes_eq(name, skip_name.as_ref().unwrap()) {
                        1
                    } else {
                        0
                    }
                },
                Tok::Close { name, .. } => {
                    if bytes_eq(name, skip_name.as_ref().unwrap()) {
                        2
                    } else {
                        0
                    }
                },
                Tok::Text { .. } => 0,
            };
            if adv == 1 {
                depth = depth + 1;
            } else if adv == 2 {
                if depth == 0 {
                    skip_name = None;
                } else {
                    depth = depth - 1;
                }
            }
            proof {
                assert(strip_noise_go(pre, st) == strip_noise_go(
                    pre.drop_first(),
                    skip_state_view(skip_name, depth),
                ));
            }
        } else {
            match t {
                Tok::Open { name, attrs, self_closing, raw } => {
                    let cls = classify_noise(&name);
                    if cls == 2 && !self_closing {
                        skip_name = Some(name);
                        depth = 0;
                        proof {
                            assert(strip_noise_go(pre, st) == strip_noise_go(
                                pre.drop_first(),
                                skip_state_view(skip_name, depth),
                            ));
                        }
                    } else if cls != 0 {
                        proof {
                            assert(strip_noise_go(pre, st) == strip_noise_go(
                                pre.drop_first(),
                                skip_state_view(skip_name, depth),
                            ));
                        }
                    } else {
                        let t2 = Tok::Open { name, attrs, self_closing, raw };
                        proof {
                            assert(t2 == pre.first());
                            assert(strip_noise_go(pre, st) == seq![pre.first()] + strip_noise_go(
                                pre.drop_first(),
                                skip_state_view(skip_name, depth),
                            ));
                            assert(out@ + (seq![pre.first()] + strip_noise_go(
                                pre.drop_first(),
                                skip_state_view(skip_name, depth),
                            )) =~= out@.push(t2) + strip_noise_go(
                                pre.drop_first(),
                                skip_state_view(skip_name, depth),
                            ));
                        }
                        out.push(t2);
                    }
                },
                Tok::Close { name, raw } => {
                    let cls = classify_noise(&name);
                    if cls != 0 {
                        proof {
                            assert(strip_noise_go(pre, st) == strip_noise_go(
                                pre.drop_first(),
                                skip_state_view(skip_name, depth),
                            ));
                        }
                    } else {
                        let t2 = Tok::Close { name, raw };
                        proof {
                            assert(t2 == pre.first());
                            assert(strip_noise_go(pre, st) == seq![pre.first()] + strip_noise_go(
                                pre.drop_first(),
                                skip_state_view(skip_name, depth),
                            ));
                            assert(out@ + (seq![pre.first()] + strip_noise_go(
                                pre.drop_first(),
                                skip_state_view(skip_name, depth),
                            )) =~= out@.push(t2) + strip_noise_go(
                                pre.drop_first(),
                                skip_state_view(skip_name, depth),
                            ));
                        }
                        out.push(t2);
                    }
                },
                Tok::Text { raw } => {
                    let t2 = Tok::Text { raw };
                    proof {
                        assert(t2 == pre.first());
                        assert(strip_noise_go(pre, st) == seq![pre.first()] + strip_noise_go(
                            pre.drop_first(),
                            skip_state_view(skip_name, depth),
                        ));
                        assert(out@ + (seq![pre.first()] + strip_noise_go(
                            pre.drop_first(),
                            skip_state_view(skip_name, depth),
                        )) =~= out@.push(t2) + strip_noise_go(
                            pre.drop_first(),
                            skip_state_view(skip_name, depth),
                        ));
                    }
                    out.push(t2);
                },
            }
        }
    }
    proof {
        assert(toks@ =~= Seq::<Tok>::empty());
        assert(out@ + strip_noise_go(toks@, skip_state_view(skip_name, depth)) =~= out@);
    }
    out
}

/// The minimal image tag the rewrite emits for an embedded resource path.
pub open spec fn img_tag_bytes(p: Seq<u8>) -> Seq<u8> {
    seq![60u8, 105u8, 109u8, 103u8, 32u8, 115u8, 114u8, 99u8, 61u8, 34u8] + p + seq![
        34u8,
        47u8,
        62u8,
    ]
}

/// The final rewrite pass. Every `img` tag whose `src` was embedded is
/// replaced with a minimal tag naming the embedded resource path; every
/// `img` tag whose `src` was never embedded — unresolvable, failed to fetch,
/// or images disabled — is dropped entirely. All other tokens serialize
/// unchanged.
pub open spec fn rewrite_spec(ts: Seq<Tok>, embeds: Seq<(Vec<u8>, Vec<u8>)>) -> Seq<u8>
    decreases ts.len(),
{
    if ts.len() == 0 {
        Seq::empty()
    } else {
        let rest = rewrite_spec(ts.drop_first(), embeds);
        match tok_img_src(ts.first()) {
            Some(s) => match lookup_spec(embeds, s) {
                Some(p) => img_tag_bytes(p) + rest,
                None => rest,
            },
            None => raw_of(ts.first()) + rest,
        }
    }
}

/// Rewrite image tags and serialize; see `rewrite_spec`.
pub fn rewrite_imgs(toks: &Vec<Tok>, embeds: &Vec<(Vec<u8>, Vec<u8>)>) -> (r: Vec<u8>)
    ensures
        r@ == rewrite_spec(toks@, embeds@),
{
    let img: Vec<u8> = vec![105u8, 109u8, 103u8];
    let src: Vec<u8> = vec![115u8, 114u8, 99u8];
    proof {
        assert(img@ =~= img_name());
        assert(src@ =~= src_name());
    }
    let mut out: Vec<u8> = Vec::new();
    let n = toks.len();
    let mut i: usize = 0;
    proof {
        assert(toks@.skip(0) =~= toks@);
        assert(out@ + rewrite_spec(toks@, embeds@) =~= rewrite_spec(toks@, embeds@));
    }
    while i < n
        invariant
            i <= n,
            n == toks@.len(),
            img@ == img_name(),
            src@ == src_name(),
            out@ + rewrite_spec(toks@.skip(i as int), embeds@) == rewrite_spec(toks@, embeds@),
        decreases n - i,
    {
        proof {
            assert(toks@.skip(i as int).first() == toks@[i as int]);
            assert(toks@.skip(i as int).drop_first() =~= toks@.skip(i + 1));
        }
        let found: Option<Vec<u8>> = match &toks[i] {
            Tok::Open { name, attrs, .. } => {
                if bytes_eq(name, &img) {
                    lookup_assoc(attrs, &src)
                } else {
                    None
                }
            },
            _ => None,
        };
        match found {
            Some(s) => {
                proof {
                    assert(tok_img_src(toks@[i as int]) == Some(s@));
                }
                match lookup_assoc(embeds, &s) {
                    Some(p) => {
                        let mut tag: Vec<u8> = vec![
                            60u8,
                            105u8,
                            109u8,
                            103u8,
                            32u8,
                            115u8,
                            114u8,
                            99u8,
                            61u8,
                            34u8,
                        ];
                        append_bytes(&mut tag, &p);
                        tag.push(34);
                        tag.push(47);
                        tag.push(62);
                        proof {
                            assert(tag@ =~= img_tag_bytes(p@));
                            assert(out@ + (img_tag_bytes(p@) + rewrite_spec(
                                toks@.skip(i + 1),
                                embeds@,
                            )) =~= (out@ + tag@) + rewrite_spec(toks@.skip(i + 1), embeds@));
                        }
                        append_bytes(&mut out, &tag);
                    },
                    None => {},
                }
            },
            None => {
                proof {
                    assert(tok_img_src(toks@[i as int]) is None);
                }
                let raw: &Vec<u8> = match &toks[i] {
                    Tok::Text { raw } => raw,
                    Tok::Open { raw, .. } => raw,
                    Tok::Close { raw, .. } => raw,
                };
                proof {
                    assert(raw@ == raw_of(toks@[i as int]));
                    assert(out@ + (raw_of(toks@[i as int]) + rewrite_spec(
                        toks@.skip(i + 1),
                        embeds@,
                    )) =~= (out@ + raw@) + rewrite_spec(toks@.skip(i + 1), embeds@));
                }
                append_bytes(&mut out, raw);
            },
        }
        i = i + 1;
    }
    proof {
        assert(toks@.skip(n as int) =~= Seq::<Tok>::empty());
        assert(out@ + rewrite_spec(Seq::<Tok>::empty(), embeds@) =~= out@);
    }
    out
}

/// An image whose URL was never embedded contributes nothing to the final
/// markup: removing its tag from the input does not change the rewrite's
/// output. Nothing of the tag — in particular its original remote `src` —
/// survives.
pub proof fn law_unresolved_image_dropped(
    ts: Seq<Tok>,
    embeds: Seq<(Vec<u8>, Vec<u8>)>,
    i: int,
)
    requires
        0 <= i < ts.len(),
        tok_img_src(ts[i]) matches Some(s) && lookup_spec(embeds, s) is None,
    ensures
        rewrite_spec(ts, embeds) == rewrite_spec(ts.remove(i), embeds),
    decreases ts.len(),
{
    if i == 0 {
        assert(ts.remove(0) =~= ts.drop_first());
    } else {
        assert(ts.remove(i).first() == ts.first());
        assert(ts.remove(i).drop_first() =~= ts.drop_first().remove(i - 1));
        assert(ts.drop_first()[i - 1] == ts[i]);
        law_unresolved_image_dropped(ts.drop_first(), embeds, i - 1);
    }
}

} // verus!
