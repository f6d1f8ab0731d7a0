//! Content-filter selectors: a simple selector form (tag, id, classes), the
//! matching rules against markup tokens, and the narrowing pass that
//! restricts a document to the first element a selector list matches.

use vstd::prelude::*;

use crate::bytestr::bytes_eq;
use crate::feed::views_of;
use crate::html::{lookup_assoc, lookup_spec, Tok};

verus! {

/// A compiled selector: an optional tag name, an optional id, and class
/// names, written `tag#id.class1.class2`. Tag names match the tokenizer's
/// lower-cased element names.
pub struct Selector {
    pub tag: Option<Vec<u8>>,
    pub id: Option<Vec<u8>>,
    pub classes: Vec<Vec<u8>>,
}

/// The mathematical value of a selector.
#[verifier::ext_equal]
pub struct SelectorV {
    pub tag: Option<Seq<u8>>,
    pub id: Option<Seq<u8>>,
    pub classes: Seq<Seq<u8>>,
}

pub open spec fn sel_v(s: Selector) -> SelectorV {
    SelectorV {
        tag: match s.tag {
            Some(t) => Some(t@),
            None => None,
        },
        id: match s.id {
            Some(i) => Some(i@),
            None => None,
        },
        classes: views_of(s.classes@),
    }
}

pub open spec fn sels_v(ss: Seq<Selector>) -> Seq<SelectorV> {
    Seq::new(ss.len(), |i: int| sel_v(ss[i]))
}

pub open spec fn id_attr() -> Seq<u8> {
    seq![105u8, 100u8]
}

pub open spec fn class_attr() -> Seq<u8> {
    seq![99u8, 108u8, 97u8, 115u8, 115u8]
}

pub open spec fn ws_byte(b: u8) -> bool {
    b == 32 || b == 9 || b == 10 || b == 13 || b == 12
}

/// Split a byte string at whitespace; `cur` is the token read so far.
pub open spec fn split_ws_go(s: Seq<u8>, cur: Seq<u8>) -> Seq<Seq<u8>>
    decreases s.len(),
{
    if s.len() == 0 {
        if cur.len() > 0 {
            seq![cur]
        } else {
            Seq::empty()
        }
    } else if ws_byte(s.first()) {
        (if cur.len() > 0 {
            seq![cur]
        } else {
            Seq::empty()
        }) + split_ws_go(s.drop_first(), Seq::empty())
    } else {
        split_ws_go(s.drop_first(), cur.push(s.first()))
    }
}

pub open spec fn split_ws_spec(s: Seq<u8>) -> Seq<Seq<u8>> {
    split_ws_go(s, Seq::empty())
}

/// Split a byte string into whitespace-separated tokens.
pub fn split_ws(s: &Vec<u8>) -> (r: Vec<Vec<u8>>)
    ensures
        views_of(r@) == split_ws_spec(s@),
{
    let mut out: Vec<Vec<u8>> = Vec::new();
    let mut cur: Vec<u8> = Vec::new();
    let n = s.len();
    let mut i: usize = 0;
    proof {
        assert(s@.skip(0) =~= s@);
        assert(views_of(out@) + split_ws_go(s@, cur@) =~= split_ws_go(s@, cur@));
    }
    while i < n
        invariant
            i <= n,
            n == s@.len(),
            split_ws_spec(s@) == views_of(out@) + split_ws_go(s@.skip(i as int), cur@),
        decreases n - i,
    {
        proof {
            assert(s@.skip(i as int).first() == s@[i as int]);
            assert(s@.skip(i as int).drop_first() =~= s@.skip(i + 1));
        }
        let b = s[i];
        if b == 32 || b == 9 || b == 10 || b == 13 || b == 12 {
            if cur.len() > 0 {
                let done = cur;
                cur = Vec::new();
                proof {
                    assert(cur@ =~= Seq::<u8>::empty());
                    assert(views_of(out@.push(done)) =~= views_of(out@).push(done@));
                    assert(views_of(out@).push(done@) + split_ws_go(s@.skip(i + 1), cur@)
                        =~= views_of(out@) + (seq![done@] + split_ws_go(s@.skip(i + 1), cur@)));
                }
                out.push(done);
            } else {
                proof {
                    assert(cur@ =~= Seq::<u8>::empty());
                    assert(views_of(out@) + (Seq::<Seq<u8>>::empty() + split_ws_go(
                        s@.skip(i + 1),
                        Seq::<u8>::empty(),
                    )) =~= views_of(out@) + split_ws_go(s@.skip(i + 1), Seq::<u8>::empty()));
                }
            }
        } else {
            cur.push(b);
        }
        i = i + 1;
    }
    proof {
        assert(s@.skip(n as int) =~= Seq::<u8>::empty());
    }
    if cur.len() > 0 {
        proof {
            assert(views_of(out@.push(cur)) =~= views_of(out@).push(cur@));
            assert(views_of(out@).push(cur@) =~= views_of(out@) + seq![cur@]);
        }
        out.push(cur);
    } else {
        proof {
            assert(views_of(out@) + Seq::<Seq<u8>>::empty() =~= views_of(out@));
        }
    }
    out
}

/// The class tokens an opening tag declares.
pub open spec fn class_list(attrs: Seq<(Vec<u8>, Vec<u8>)>) -> Seq<Seq<u8>> {
    match lookup_spec(attrs, class_attr()) {
        Some(v) => split_ws_spec(v),
        None => Seq::empty(),
    }
}

/// Whether a token is an element matching a selector: the tag name agrees
/// where given, the `id` attribute agrees where given, and every selector
/// class is among the element's class tokens.
pub open spec fn sel_matches(t: Tok, sel: Selector) -> bool {
    match t {
        Tok::Open { name, attrs, .. } => {
            &&& (sel.tag matches Some(tg) ==> name@ == tg@)
            &&& (sel.id matches Some(idv) ==> lookup_spec(attrs@, id_attr()) == Some(idv@))
            &&& (forall|c: int| 0 <= c < sel.classes@.len() ==> class_list(attrs@).contains(
                #[trigger] sel.classes@[c]@,
            ))
        },
        _ => false,
    }
}

fn contains_bytes_list(list: &Vec<Vec<u8>>, x: &Vec<u8>) -> (r: bool)
    ensures
        r == views_of(list@).contains(x@),
{
    let n = list.len();
    let mut i: usize = 0;
    while i < n
        invariant
            i <= n,
            n == list@.len(),
            forall|j: int| 0 <= j < i ==> views_of(list@)[j] != x@,
        decreases n - i,
    {
        if bytes_eq(&list[i], x) {
            assert(views_of(list@)[i as int] == x@);
            return true;
        }
        i = i + 1;
    }
    assert(!views_of(list@).contains(x@));
    false
}

/// Decide whether a token matches a selector; see `sel_matches`.
pub fn sel_matches_tok(t: &Tok, sel: &Selector) -> (r: bool)
    ensures
        r == sel_matches(*t, *sel),
{
    let id_a: Vec<u8> = vec![105u8, 100u8];
    let class_a: Vec<u8> = vec![99u8, 108u8, 97u8, 115u8, 115u8];
    proof {
        assert(id_a@ =~= id_attr());
        assert(class_a@ =~= class_attr());
    }
    match t {
        Tok::Open { name, attrs, .. } => {
            match &sel.tag {
                Some(tg) => {
                    if !bytes_eq(name, tg) {
                        assert(!sel_matches(*t, *sel));
                        return false;
                    }
                },
                None => {},
            }
            match &sel.id {
                Some(idv) => {
                    match lookup_assoc(attrs, &id_a) {
                        Some(v) => {
                            if !bytes_eq(&v, idv) {
                                assert(lookup_spec(attrs@, id_attr()) == Some(v@));
                                assert(!sel_matches(*t, *sel));
                                return false;
                            }
                        },
                        None => {
                            assert(lookup_spec(attrs@, id_attr()) is None);
                            assert(!sel_matches(*t, *sel));
                            return false;
                        },
                    }
                },
                None => {},
            }
            let classes = match lookup_assoc(attrs, &class_a) {
                Some(v) => split_ws(&v),
                None => Vec::new(),
            };
            proof {
                assert(views_of(classes@) == class_list(attrs@)) by {
                    if lookup_spec(attrs@, class_attr()) is None {
                        assert(views_of(classes@) =~= Seq::<Seq<u8>>::empty());
                    }
                }
            }
            let m = sel.classes.len();
            let mut c: usize = 0;
            let mut ok = true;
            while c < m
                invariant
                    c <= m,
                    m == sel.classes@.len(),
                    views_of(classes@) == class_list(attrs@),
                    ok <==> (forall|j: int| 0 <= j < c ==> class_list(attrs@).contains(
                        #[trigger] sel.classes@[j]@,
                    )),
                decreases m - c,
            {
                if !contains_bytes_list(&classes, &sel.classes[c]) {
                    ok = false;
                }
                c = c + 1;
            }
            if !ok {
                assert(!sel_matches(*t, *sel));
                return false;
            }
            true
        },
        _ => false,
    }
}

pub open spec fn has_sel_match(ts: Seq<Tok>, sel: Selector) -> bool {
    exists|i: int| 0 <= i < ts.len() && sel_matches(ts[i], sel)
}

/// Find the first token matching the selector.
fn first_sel_match_index(toks: &Vec<Tok>, sel: &Selector) -> (r: Option<usize>)
    ensures
        match r {
            Some(i) => i < toks@.len() && sel_matches(toks@[i as int], *sel) && (forall|j: int|
                0 <= j < i ==> !sel_matches(toks@[j], *sel)),
            None => !has_sel_match(toks@, *sel),
        },
{
    let n = toks.len();
    let mut i: usize = 0;
    while i < n
        invariant
            i <= n,
            n == toks@.len(),
            forall|j: int| 0 <= j < i ==> !sel_matches(toks@[j], *sel),
        decreases n - i,
    {
        if sel_matches_tok(&toks[i], sel) {
            return Some(i);
        }
        i = i + 1;
    }
    None
}

/// The position of the closing tag that ends the element whose content
/// starts at `j`, tracking same-name nesting, or `None` when the element is
/// never closed.
pub open spec fn find_close_from(ts: Seq<Tok>, j: int, name: Seq<u8>, depth: nat) -> Option<int>
    decreases ts.len() - j,
{
    if !(0 <= j < ts.len()) {
        None
    } else {
        match ts[j] {
            Tok::Open { name: n, self_closing, .. } => if n@ == name && !self_closing {
                find_close_from(ts, j + 1, name, depth + 1)
            } else {
                find_close_from(ts, j + 1, name, depth)
            },
            Tok::Close { name: n, .. } => if n@ == name {
                if depth == 0 {
                    Some(j)
                } else {
                    find_close_from(ts, j + 1, name, (depth - 1) as nat)
                }
            } else {
                find_close_from(ts, j + 1, name, depth)
            },
            Tok::Text { .. } => find_close_from(ts, j + 1, name, depth),
        }
    }
}

/// Find the end of the element opened at `start - 1`; see `find_close_from`.
fn find_close(toks: &Vec<Tok>, start: usize, name: &Vec<u8>) -> (r: Option<usize>)
    requires
        start <= toks@.len(),
    ensures
        match r {
            Some(j) => start <= j < toks@.len() && find_close_from(toks@, start as int, name@, 0)
                == Some(j as int),
            None => find_close_from(toks@, start as int, name@, 0) is None,
        },
{
    let n = toks.len();
    let mut j = start;
    let mut depth: u64 = 0;
    while j < n
        invariant
            start <= j <= n,
            n == toks@.len(),
            depth as int <= j - start,
            find_close_from(toks@, start as int, name@, 0) == find_close_from(
                toks@,
                j as int,
                name@,
                depth as nat,
            ),
        decreases n - j,
    {
        match &toks[j] {
            Tok::Open { name: nm, self_closing, .. } => {
                if !*self_closing && bytes_eq(nm, name) {
                    depth = depth + 1;
                }
            },
            Tok::Close { name: nm, .. } => {
                if bytes_eq(nm, name) {
                    if depth == 0 {
                        return Some(j);
                    }
                    depth = depth - 1;
                }
            },
            Tok::Text { .. } => {},
        }
        j = j + 1;
    }
    None
}

/// The tokens of the element at `i`: the opening tag through its matching
/// close, the tag alone when self-closing, or everything to the end when the
/// element is never closed.
pub open spec fn subtree_at(ts: Seq<Tok>, i: int) -> Seq<Tok> {
    match ts[i] {
        Tok::Open { name, self_closing, .. } => if self_closing {
            ts.subrange(i, i + 1)
        } else {
            match find_close_from(ts, i + 1, name@, 0) {
                Some(j) => ts.subrange(i, j + 1),
                None => ts.subrange(i, ts.len() as int),
            }
        },
        _ => ts.subrange(i, i + 1),
    }
}

/// What narrowing returns: the document restricted to the first element
/// matched by the first selector that matches anything; the whole document
/// when no selector matches.
pub open spec fn narrow_post(ts: Seq<Tok>, sels: Seq<Selector>, out: Seq<Tok>) -> bool {
    if exists|si: int| 0 <= si < sels.len() && has_sel_match(ts, sels[si]) {
        exists|si: int|
            #![auto]
            {
                &&& 0 <= si < sels.len()
                &&& has_sel_match(ts, sels[si])
                &&& (forall|sj: int| 0 <= sj < si ==> !has_sel_match(ts, sels[sj]))
                &&& exists|i: int|
                    {
                        &&& 0 <= i < ts.len()
                        &&& sel_matches(ts[i], sels[si])
                        &&& (forall|j: int| 0 <= j < i ==> !sel_matches(ts[j], sels[si]))
                        &&& out == subtree_at(ts, i)
                    }
            }
    } else {
        out == ts
    }
}

/// Narrow the document to the first element matched by the selector list;
/// the first selector that matches any element wins, and within it the first
/// matching element wins. A document no selector matches stands as it is.
pub fn narrow_tokens(toks: Vec<Tok>, sels: &Vec<Selector>) -> (r: Vec<Tok>)
    ensures
        narrow_post(toks@, sels@, r@),
{
    let ns = sels.len();
    let tl = toks.len();
    let mut si: usize = 0;
    while si < ns
        invariant
            si <= ns,
            ns == sels@.len(),
            tl == toks@.len(),
            forall|sj: int| 0 <= sj < si ==> !has_sel_match(toks@, sels@[sj]),
        decreases ns - si,
    {
        match first_sel_match_index(&toks, &sels[si]) {
            Some(i) => {
                let ghost gsi = si as int;
                let ghost gi = i as int;
                proof {
                    assert(sel_matches(toks@[gi], sels@[gsi]));
                    assert(has_sel_match(toks@, sels@[gsi]));
                }
                let (lo, hi): (usize, usize) = match &toks[i] {
                    Tok::Open { name, self_closing, .. } => {
                        if *self_closing {
                            (i, i + 1)
                        } else {
                            match find_close(&toks, i + 1, name) {
                                Some(j) => (i, j + 1),
                                None => (i, toks.len()),
                            }
                        }
                    },
                    _ => (i, i + 1),
                };
                proof {
                    assert(lo as int == gi && gi < hi <= tl);
                    assert(toks@.subrange(lo as int, hi as int) == subtree_at(toks@, gi));
                }
                let ghost orig = toks@;
                let mut toks = toks;
                let mut tail = toks.split_off(lo);
                proof {
                    assert(tail@ == orig.subrange(lo as int, orig.len() as int));
                }
                tail.truncate(hi - lo);
                proof {
                    assert(tail@ =~= orig.subrange(lo as int, hi as int));
                    assert(narrow_post(orig, sels@, tail@)) by {
                        assert({
                            &&& 0 <= gsi < sels@.len()
                            &&& has_sel_match(orig, sels@[gsi])
                            &&& (forall|sj: int| 0 <= sj < gsi ==> !has_sel_match(
                                orig,
                                sels@[sj],
                            ))
                            &&& {
                                &&& 0 <= gi < orig.len()
                                &&& sel_matches(orig[gi], sels@[gsi])
                                &&& (forall|j: int| 0 <= j < gi ==> !sel_matches(
                                    orig[j],
                                    sels@[gsi],
                                ))
                                &&& tail@ == subtree_at(orig, gi)
                            }
                        });
                    }
                }
                return tail;
            },
            None => {},
        }
        si = si + 1;
    }
    proof {
        assert(forall|sj: int| 0 <= sj < sels@.len() ==> !has_sel_match(toks@, sels@[sj]));
    }
    toks
}

/// A selector rendered back to its source form `tag#id.class1.class2`.
pub open spec fn render_classes(cs: Seq<Seq<u8>>) -> Seq<u8>
    decreases cs.len(),
{
    if cs.len() == 0 {
        Seq::empty()
    } else {
        seq![46u8] + cs.first() + render_classes(cs.drop_first())
    }
}

pub open spec fn render_selector(sel: Selector) -> Seq<u8> {
    (match sel.tag {
        Some(t) => t@,
        None => Seq::empty(),
    }) + (match sel.id {
        Some(i) => seq![35u8] + i@,
        None => Seq::empty(),
    }) + render_classes(views_of(sel.classes@))
}

/// A byte that may stand in a selector component name.
pub open spec fn sel_name_byte(b: u8) -> bool {
    (65 <= b <= 90) || (97 <= b <= 122) || (48 <= b <= 57) || b == 45 || b == 95
}

fn is_sel_name_byte(b: u8) -> (r: bool)
    ensures
        r == sel_name_byte(b),
{
    (65 <= b && b <= 90) || (97 <= b && b <= 122) || (48 <= b && b <= 57) || b == 45 || b == 95
}

/// Where the selector component name starting at `i` ends.
pub open spec fn sel_name_end(s: Seq<u8>, i: int) -> int
    decreases s.len() - i,
{
    if 0 <= i < s.len() && sel_name_byte(s[i]) {
        sel_name_end(s, i + 1)
    } else {
        i
    }
}

/// The class list `.c1.c2…` read from `i` to the end of the selector;
/// `None` when anything else follows.
pub open spec fn parse_classes_spec(s: Seq<u8>, i: int) -> Option<Seq<Seq<u8>>>
    decreases s.len() - i,
{
    if i == s.len() {
        Some(Seq::empty())
    } else if 0 <= i < s.len() && s[i] == 46 {
        let e = sel_name_end(s, i + 1);
        if e == i + 1 {
            None
        } else if i + 1 < e <= s.len() {
            match parse_classes_spec(s, e) {
                Some(rest) => Some(seq![s.subrange(i + 1, e)] + rest),
                None => None,
            }
        } else {
            None
        }
    } else {
        None
    }
}

pub open spec fn opt_classes_concat(pre: Seq<Seq<u8>>, o: Option<Seq<Seq<u8>>>) -> Option<
    Seq<Seq<u8>>,
> {
    match o {
        Some(cs) => Some(pre + cs),
        None => None,
    }
}

/// The simple selector grammar `tag#id.class1.class2…`, each part optional
/// but at least one present and in that order; `None` for anything else.
/// Deterministic in the input bytes.
pub open spec fn parse_selector_spec(s: Seq<u8>) -> Option<SelectorV> {
    if s.len() == 0 {
        None
    } else {
        let te = sel_name_end(s, 0);
        let tag: Option<Seq<u8>> = if te > 0 {
            Some(s.subrange(0, te))
        } else {
            None
        };
        if 0 <= te < s.len() && s[te] == 35 {
            let ie = sel_name_end(s, te + 1);
            if ie == te + 1 {
                None
            } else {
                match parse_classes_spec(s, ie) {
                    Some(cs) => Some(
                        SelectorV { tag, id: Some(s.subrange(te + 1, ie)), classes: cs },
                    ),
                    None => None,
                }
            }
        } else {
            match parse_classes_spec(s, te) {
                Some(cs) => Some(SelectorV { tag, id: None, classes: cs }),
                None => None,
            }
        }
    }
}

/// A parsed class list renders back to exactly the bytes it was read from.
proof fn lemma_classes_render(s: Seq<u8>, i: int, cs: Seq<Seq<u8>>)
    requires
        0 <= i <= s.len(),
        parse_classes_spec(s, i) == Some(cs),
    ensures
        render_classes(cs) == s.subrange(i, s.len() as int),
    decreases s.len() - i,
{
    if i == s.len() {
        assert(render_classes(cs) =~= s.subrange(i, s.len() as int));
    } else {
        let e = sel_name_end(s, i + 1);
        lemma_sel_name_end_bounds(s, i + 1);
        let rest = choose|rest: Seq<Seq<u8>>| parse_classes_spec(s, e) == Some(rest) && cs
            == seq![s.subrange(i + 1, e)] + rest;
        lemma_classes_render(s, e, rest);
        assert(cs.first() == s.subrange(i + 1, e));
        assert(cs.drop_first() =~= rest);
        assert(render_classes(cs) == seq![46u8] + s.subrange(i + 1, e) + render_classes(rest));
        assert(seq![46u8] + s.subrange(i + 1, e) + s.subrange(e, s.len() as int)
            =~= s.subrange(i, s.len() as int));
    }
}

proof fn lemma_sel_name_end_bounds(s: Seq<u8>, i: int)
    requires
        0 <= i <= s.len(),
    ensures
        i <= sel_name_end(s, i) <= s.len(),
    decreases s.len() - i,
{
    if 0 <= i < s.len() && sel_name_byte(s[i]) {
        lemma_sel_name_end_bounds(s, i + 1);
    }
}

/// Parse a selector of the simple form `tag#id.class1.class2`, each part
/// optional but at least one present and in that order; exactly
/// `parse_selector_spec`, so anything else — combinators, attribute
/// selectors, pseudo-classes — yields `None` and a well-formed simple
/// selector never does. A parsed selector renders back to exactly the
/// input.
pub fn parse_selector(s: &Vec<u8>) -> (r: Option<Selector>)
    ensures
        match r {
            Some(sel) => parse_selector_spec(s@) == Some(sel_v(sel)) && render_selector(sel)
                == s@,
            None => parse_selector_spec(s@) is None,
        },
{
    if s.len() == 0 {
        return None;
    }
    let n = s.len();
    let mut i: usize = 0;
    let mut tag: Option<Vec<u8>> = None;
    let mut name: Vec<u8> = Vec::new();
    while i < n && is_sel_name_byte(s[i])
        invariant
            i <= n,
            n == s@.len(),
            name@ == s@.subrange(0, i as int),
            sel_name_end(s@, 0) == sel_name_end(s@, i as int),
        decreases n - i,
    {
        proof {
            assert(s@.subrange(0, i + 1) =~= s@.subrange(0, i as int).push(s@[i as int]));
        }
        name.push(s[i]);
        i = i + 1;
    }
    proof {
        assert(sel_name_end(s@, i as int) == i as int);
    }
    let ghost te = i as int;
    if i > 0 {
        tag = Some(name);
    }
    let mut id: Option<Vec<u8>> = None;
    let ghost mut ie = te;
    if i < n && s[i] == 35 {
        i = i + 1;
        let ghost id0 = i as int;
        let mut idname: Vec<u8> = Vec::new();
        while i < n && is_sel_name_byte(s[i])
            invariant
                0 <= id0 <= i as int,
                i <= n,
                n == s@.len(),
                idname@ == s@.subrange(id0, i as int),
                sel_name_end(s@, id0) == sel_name_end(s@, i as int),
            decreases n - i,
        {
            proof {
                assert(s@.subrange(id0, i + 1) =~= s@.subrange(id0, i as int).push(
                    s@[i as int],
                ));
            }
            idname.push(s[i]);
            i = i + 1;
        }
        proof {
            assert(sel_name_end(s@, i as int) == i as int);
        }
        if idname.len() == 0 {
            proof {
                assert(parse_selector_spec(s@) is None);
            }
            return None;
        }
        proof {
            ie = i as int;
        }
        id = Some(idname);
    }
    let ghost cls0 = i as int;
    let mut classes: Vec<Vec<u8>> = Vec::new();
    proof {
        assert(parse_classes_spec(s@, cls0) == opt_classes_concat(
            views_of(classes@),
            parse_classes_spec(s@, cls0),
        )) by {
            match parse_classes_spec(s@, cls0) {
                Some(cs) => {
                    assert(views_of(classes@) + cs =~= cs);
                },
                None => {},
            }
        }
    }
    proof {
        assert(parse_classes_spec(s@, cls0) is None ==> parse_selector_spec(s@) is None);
    }
    while i < n && s[i] == 46
        invariant
            cls0 <= i as int,
            i <= n,
            n == s@.len(),
            parse_classes_spec(s@, cls0) == opt_classes_concat(
                views_of(classes@),
                parse_classes_spec(s@, i as int),
            ),
            parse_classes_spec(s@, cls0) is None ==> parse_selector_spec(s@) is None,
        decreases n - i,
    {
        let ghost dot = i as int;
        i = i + 1;
        let ghost nm0 = i as int;
        let mut cname: Vec<u8> = Vec::new();
        while i < n && is_sel_name_byte(s[i])
            invariant
                0 <= nm0 <= i as int,
                i <= n,
                n == s@.len(),
                cname@ == s@.subrange(nm0, i as int),
                sel_name_end(s@, nm0) == sel_name_end(s@, i as int),
            decreases n - i,
        {
            proof {
                assert(s@.subrange(nm0, i + 1) =~= s@.subrange(nm0, i as int).push(
                    s@[i as int],
                ));
            }
            cname.push(s[i]);
            i = i + 1;
        }
        proof {
            assert(sel_name_end(s@, i as int) == i as int);
        }
        if cname.len() == 0 {
            proof {
                assert(parse_classes_spec(s@, dot) is None);
                assert(parse_classes_spec(s@, cls0) is None);
                assert(parse_selector_spec(s@) is None);
            }
            return None;
        }
        proof {
            assert(parse_classes_spec(s@, dot) == opt_classes_concat(
                seq![cname@],
                parse_classes_spec(s@, i as int),
            )) by {
                match parse_classes_spec(s@, i as int) {
                    Some(rest) => {
                        assert(seq![s@.subrange(nm0, i as int)] + rest =~= seq![cname@] + rest);
                    },
                    None => {},
                }
            }
            assert(parse_classes_spec(s@, cls0) == opt_classes_concat(
                views_of(classes@.push(cname)),
                parse_classes_spec(s@, i as int),
            )) by {
                match parse_classes_spec(s@, i as int) {
                    Some(rest) => {
                        assert(views_of(classes@.push(cname)) =~= views_of(classes@).push(
                            cname@,
                        ));
                        assert(views_of(classes@).push(cname@) + rest =~= views_of(classes@)
                            + (seq![cname@] + rest));
                    },
                    None => {},
                }
            }
        }
        classes.push(cname);
    }
    if i < n {
        proof {
            assert(parse_classes_spec(s@, i as int) is None);
            assert(parse_classes_spec(s@, cls0) is None);
            assert(parse_selector_spec(s@) is None);
        }
        return None;
    }
    proof {
        assert(parse_classes_spec(s@, n as int) == Some(Seq::<Seq<u8>>::empty()));
        assert(parse_classes_spec(s@, cls0) == Some(views_of(classes@))) by {
            assert(views_of(classes@) + Seq::<Seq<u8>>::empty() =~= views_of(classes@));
        }
    }
    let sel = Selector { tag, id, classes };
    proof {
        assert(parse_selector_spec(s@) == Some(sel_v(sel)));
        lemma_classes_render(s@, cls0, views_of(sel.classes@));
        if sel.id is Some {
            assert(render_selector(sel) =~= s@) by {
                assert(s@.subrange(0, te) + (seq![35u8] + s@.subrange(te + 1, ie))
                    + s@.subrange(cls0, s@.len() as int) =~= s@);
                if sel.tag is None {
                    assert(s@.subrange(0, 0) =~= Seq::<u8>::empty());
                }
            }
        } else {
            assert(render_selector(sel) =~= s@) by {
                if sel.tag is Some {
                    assert(s@.subrange(0, te) + s@.subrange(cls0, s@.len() as int) =~= s@);
                } else {
                    assert(s@.subrange(cls0, s@.len() as int) =~= s@);
                }
            }
        }
    }
    Some(sel)
}

/// The fixed fallback list of common main-content selectors.
pub open spec fn default_selectors_v() -> Seq<SelectorV> {
    seq![
        SelectorV { tag: Some(seq![97u8, 114u8, 116u8, 105u8, 99u8, 108u8, 101u8]), id: None, classes: Seq::empty() },
        SelectorV { tag: Some(seq![109u8, 97u8, 105u8, 110u8]), id: None, classes: Seq::empty() },
        SelectorV { tag: Some(seq![100u8, 105u8, 118u8]), id: Some(seq![109u8, 97u8, 105u8, 110u8]), classes: Seq::empty() },
        SelectorV { tag: None, id: Some(seq![109u8, 97u8, 105u8, 110u8, 45u8, 97u8, 114u8, 116u8, 105u8, 99u8, 108u8, 101u8]), classes: Seq::empty() },
        SelectorV { tag: None, id: None, classes: seq![seq![109u8, 97u8, 105u8, 110u8, 45u8, 99u8, 111u8, 110u8, 116u8, 101u8, 110u8, 116u8]] },
        SelectorV { tag: None, id: Some(seq![98u8, 111u8, 100u8, 121u8]), classes: Seq::empty() },
        SelectorV { tag: None, id: Some(seq![99u8, 111u8, 110u8, 116u8, 101u8, 110u8, 116u8]), classes: Seq::empty() },
        SelectorV { tag: None, id: None, classes: seq![seq![99u8, 111u8, 110u8, 116u8, 101u8, 110u8, 116u8]] },
        SelectorV { tag: Some(seq![100u8, 105u8, 118u8]), id: Some(seq![97u8, 114u8, 116u8, 105u8, 99u8, 108u8, 101u8]), classes: Seq::empty() },
        SelectorV { tag: Some(seq![100u8, 105u8, 118u8]), id: None, classes: seq![seq![97u8, 114u8, 116u8, 105u8, 99u8, 108u8, 101u8]] },
        SelectorV { tag: Some(seq![100u8, 105u8, 118u8]), id: None, classes: seq![seq![112u8, 111u8, 115u8, 116u8]] },
        SelectorV { tag: Some(seq![100u8, 105u8, 118u8]), id: None, classes: seq![seq![112u8, 111u8, 115u8, 116u8, 45u8, 111u8, 117u8, 116u8, 101u8, 114u8]] },
        SelectorV { tag: None, id: None, classes: seq![seq![108u8, 45u8, 114u8, 111u8, 111u8, 116u8]] },
        SelectorV { tag: None, id: None, classes: seq![seq![99u8, 111u8, 110u8, 116u8, 101u8, 110u8, 116u8, 45u8, 99u8, 111u8, 110u8, 116u8, 97u8, 105u8, 110u8, 101u8, 114u8]] },
        SelectorV { tag: None, id: None, classes: seq![seq![83u8, 116u8, 97u8, 110u8, 100u8, 97u8, 114u8, 100u8, 65u8, 114u8, 116u8, 105u8, 99u8, 108u8, 101u8, 66u8, 111u8, 100u8, 121u8, 95u8, 98u8, 111u8, 100u8, 121u8]] },
        SelectorV { tag: Some(seq![100u8, 105u8, 118u8]), id: Some(seq![97u8, 114u8, 116u8, 105u8, 99u8, 108u8, 101u8, 45u8, 105u8, 110u8, 110u8, 101u8, 114u8]), classes: Seq::empty() },
        SelectorV { tag: Some(seq![100u8, 105u8, 118u8]), id: Some(seq![110u8, 101u8, 119u8, 115u8, 115u8, 116u8, 111u8, 114u8, 121u8, 116u8, 101u8, 120u8, 116u8]), classes: Seq::empty() },
        SelectorV { tag: Some(seq![100u8, 105u8, 118u8]), id: None, classes: seq![seq![103u8, 101u8, 110u8, 101u8, 114u8, 97u8, 108u8]] }
    ]
}

/// The fixed fallback list of common main-content selectors, tried in order
/// after the caller's own selector; exactly `default_selectors_v`.
pub fn default_filter_selectors() -> (r: Vec<Selector>)
    ensures
        sels_v(r@) == default_selectors_v(),
{
    let mut out: Vec<Selector> = Vec::new();
    out.push(Selector { tag: Some(vec![97u8, 114u8, 116u8, 105u8, 99u8, 108u8, 101u8]), id: None, classes: Vec::new() });
    out.push(Selector { tag: Some(vec![109u8, 97u8, 105u8, 110u8]), id: None, classes: Vec::new() });
    out.push(Selector { tag: Some(vec![100u8, 105u8, 118u8]), id: Some(vec![109u8, 97u8, 105u8, 110u8]), classes: Vec::new() });
    out.push(Selector { tag: None, id: Some(vec![109u8, 97u8, 105u8, 110u8, 45u8, 97u8, 114u8, 116u8, 105u8, 99u8, 108u8, 101u8]), classes: Vec::new() });
    let mut cl: Vec<Vec<u8>> = Vec::new();
    cl.push(vec![109u8, 97u8, 105u8, 110u8, 45u8, 99u8, 111u8, 110u8, 116u8, 101u8, 110u8, 116u8]);
    out.push(Selector { tag: None, id: None, classes: cl });
    out.push(Selector { tag: None, id: Some(vec![98u8, 111u8, 100u8, 121u8]), classes: Vec::new() });
    out.push(Selector { tag: None, id: Some(vec![99u8, 111u8, 110u8, 116u8, 101u8, 110u8, 116u8]), classes: Vec::new() });
    let mut cl: Vec<Vec<u8>> = Vec::new();
    cl.push(vec![99u8, 111u8, 110u8, 116u8, 101u8, 110u8, 116u8]);
    out.push(Selector { tag: None, id: None, classes: cl });
    out.push(Selector { tag: Some(vec![100u8, 105u8, 118u8]), id: Some(vec![97u8, 114u8, 116u8, 105u8, 99u8, 108u8, 101u8]), classes: Vec::new() });
    let mut cl: Vec<Vec<u8>> = Vec::new();
    cl.push(vec![97u8, 114u8, 116u8, 105u8, 99u8, 108u8, 101u8]);
    out.push(Selector { tag: Some(vec![100u8, 105u8, 118u8]), id: None, classes: cl });
    let mut cl: Vec<Vec<u8>> = Vec::new();
    cl.push(vec![112u8, 111u8, 115u8, 116u8]);
    out.push(Selector { tag: Some(vec![100u8, 105u8, 118u8]), id: None, classes: cl });
    let mut cl: Vec<Vec<u8>> = Vec::new();
    cl.push(vec![112u8, 111u8, 115u8, 116u8, 45u8, 111u8, 117u8, 116u8, 101u8, 114u8]);
    out.push(Selector { tag: Some(vec![100u8, 105u8, 118u8]), id: None, classes: cl });
    let mut cl: Vec<Vec<u8>> = Vec::new();
    cl.push(vec![108u8, 45u8, 114u8, 111u8, 111u8, 116u8]);
    out.push(Selector { tag: None, id: None, classes: cl });
    let mut cl: Vec<Vec<u8>> = Vec::new();
    cl.push(vec![99u8, 111u8, 110u8, 116u8, 101u8, 110u8, 116u8, 45u8, 99u8, 111u8, 110u8, 116u8, 97u8, 105u8, 110u8, 101u8, 114u8]);
    out.push(Selector { tag: None, id: None, classes: cl });
    let mut cl: Vec<Vec<u8>> = Vec::new();
    cl.push(vec![83u8, 116u8, 97u8, 110u8, 100u8, 97u8, 114u8, 100u8, 65u8, 114u8, 116u8, 105u8, 99u8, 108u8, 101u8, 66u8, 111u8, 100u8, 121u8, 95u8, 98u8, 111u8, 100u8, 121u8]);
    out.push(Selector { tag: None, id: None, classes: cl });
    out.push(Selector { tag: Some(vec![100u8, 105u8, 118u8]), id: Some(vec![97u8, 114u8, 116u8, 105u8, 99u8, 108u8, 101u8, 45u8, 105u8, 110u8, 110u8, 101u8, 114u8]), classes: Vec::new() });
    out.push(Selector { tag: Some(vec![100u8, 105u8, 118u8]), id: Some(vec![110u8, 101u8, 119u8, 115u8, 115u8, 116u8, 111u8, 114u8, 121u8, 116u8, 101u8, 120u8, 116u8]), classes: Vec::new() });
    let mut cl: Vec<Vec<u8>> = Vec::new();
    cl.push(vec![103u8, 101u8, 110u8, 101u8, 114u8, 97u8, 108u8]);
    out.push(Selector { tag: Some(vec![100u8, 105u8, 118u8]), id: None, classes: cl });
    proof {
        assert(sels_v(out@) =~~= default_selectors_v());
    }
    out
}

/// The selector list tried for one entry: the caller's own selector first,
/// where it is of the simple form, then the fixed fallback list.
pub open spec fn filter_selectors_spec(fe: Option<Seq<u8>>) -> Seq<SelectorV> {
    match fe {
        Some(f) => match parse_selector_spec(f) {
            Some(sv) => seq![sv] + default_selectors_v(),
            None => default_selectors_v(),
        },
        None => default_selectors_v(),
    }
}

/// Build the selector list for one entry; exactly `filter_selectors_spec`.
pub fn build_filter_selectors(filter_element: &Option<Vec<u8>>) -> (r: Vec<Selector>)
    ensures
        sels_v(r@) == filter_selectors_spec(crate::feed::opt_bytes_view(*filter_element)),
{
    let mut out: Vec<Selector> = Vec::new();
    match filter_element {
        Some(f) => {
            match parse_selector(f) {
                Some(sel) => {
                    proof {
                        assert(sels_v(out@.push(sel)) =~= seq![sel_v(sel)]);
                    }
                    out.push(sel);
                },
                None => {},
            }
        },
        None => {},
    }
    let ghost base_v = sels_v(out@);
    let mut defaults = default_filter_selectors();
    let ghost nd = defaults@.len();
    proof {
        assert(sels_v(out@) + sels_v(defaults@) =~= base_v + default_selectors_v());
    }
    while defaults.len() > 0
        invariant
            sels_v(out@) + sels_v(defaults@) == base_v + default_selectors_v(),
        decreases defaults@.len(),
    {
        let ghost pre = defaults@;
        let sl = defaults.remove(0);
        proof {
            assert(pre.remove(0) =~= pre.drop_first());
            assert(pre.first() == sl);
            assert(sels_v(out@.push(sl)) =~= sels_v(out@).push(sel_v(sl)));
            assert(sels_v(out@).push(sel_v(sl)) + sels_v(pre.drop_first()) =~= sels_v(out@)
                + sels_v(pre));
        }
        out.push(sl);
    }
    proof {
        assert(sels_v(defaults@) =~= Seq::<SelectorV>::empty());
        assert(sels_v(out@) + Seq::<SelectorV>::empty() =~= sels_v(out@));
        assert(sels_v(out@) =~= base_v + default_selectors_v());
        assert(sels_v(out@) =~= filter_selectors_spec(crate::feed::opt_bytes_view(
            *filter_element,
        )));
    }
    out
}

} // verus!
