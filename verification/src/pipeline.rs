//! The per-entry pipeline: escaping and the title page, deterministic
//! artifact names, image embedding, and the completion record — everything
//! an entry needs computed between fetches.

use vstd::prelude::*;

use crate::bytestr::{append_bytes, bytes_eq, clone_bytes, dec_spec, slice_bytes, starts_with};
use crate::feed::{
    author_list_spec, date_spec, join_bytes, join_spec, opt_bytes_view, opt_i64_view,
    resolve_authors, resolve_date, resolve_title, views_of, FeedEntry,
};
use crate::hash::{hex_spec, sha256, sha256_of, to_hex};
use crate::html::{
    collect_img_srcs, img_srcs_spec, strip_noise, strip_noise_spec, tok_is_noise, tokenize,
    tokenize_spec, toks_v, Tok,
};
use crate::mimetype::{resolve_mime, resolve_mime_spec, resource_path, resource_path_spec};
use crate::selector::{build_filter_selectors, narrow_post, narrow_tokens, subtree_at};
use crate::timefmt::{
    clamp_epoch, clamp_epoch_spec, compact_timestamp_of, format_compact, format_year, year_of,
};
use crate::epub::EmbeddedResource;

verus! {

/// The bytes of `<!DOCTYPE html><html><head></head><body><h1>`.
pub open spec fn tp_head() -> Seq<u8> {
    seq![60u8, 33u8, 68u8, 79u8, 67u8, 84u8, 89u8, 80u8, 69u8, 32u8, 104u8, 116u8, 109u8, 108u8, 62u8, 60u8, 104u8, 116u8, 109u8, 108u8, 62u8, 60u8, 104u8, 101u8, 97u8, 100u8, 62u8, 60u8, 47u8, 104u8, 101u8, 97u8, 100u8, 62u8, 60u8, 98u8, 111u8, 100u8, 121u8, 62u8, 60u8, 104u8, 49u8, 62u8]
}

/// The bytes of `</h1>`.
pub open spec fn tp_h1_close() -> Seq<u8> {
    seq![60u8, 47u8, 104u8, 49u8, 62u8]
}

/// The bytes of `<p>`.
pub open spec fn tp_p_open() -> Seq<u8> {
    seq![60u8, 112u8, 62u8]
}

/// The bytes of `</p>`.
pub open spec fn tp_p_close() -> Seq<u8> {
    seq![60u8, 47u8, 112u8, 62u8]
}

/// The bytes of `<p><a href="`.
pub open spec fn tp_a_open() -> Seq<u8> {
    seq![60u8, 112u8, 62u8, 60u8, 97u8, 32u8, 104u8, 114u8, 101u8, 102u8, 61u8, 34u8]
}

/// The bytes of `">`.
pub open spec fn tp_a_mid() -> Seq<u8> {
    seq![34u8, 62u8]
}

/// The bytes of `</a></p>`.
pub open spec fn tp_a_close() -> Seq<u8> {
    seq![60u8, 47u8, 97u8, 62u8, 60u8, 47u8, 112u8, 62u8]
}

/// The bytes of `</body></html>`.
pub open spec fn tp_tail() -> Seq<u8> {
    seq![60u8, 47u8, 98u8, 111u8, 100u8, 121u8, 62u8, 60u8, 47u8, 104u8, 116u8, 109u8, 108u8, 62u8]
}

/// The bytes of `.epub`.
pub open spec fn ext_epub() -> Seq<u8> {
    seq![46u8, 101u8, 112u8, 117u8, 98u8]
}

/// The bytes of `, `.
pub open spec fn sep_comma() -> Seq<u8> {
    seq![44u8, 32u8]
}

fn tp_head_exec() -> (r: Vec<u8>)
    ensures
        r@ == tp_head(),
{
    let v: Vec<u8> = vec![60u8, 33u8, 68u8, 79u8, 67u8, 84u8, 89u8, 80u8, 69u8, 32u8, 104u8, 116u8, 109u8, 108u8, 62u8, 60u8, 104u8, 116u8, 109u8, 108u8, 62u8, 60u8, 104u8, 101u8, 97u8, 100u8, 62u8, 60u8, 47u8, 104u8, 101u8, 97u8, 100u8, 62u8, 60u8, 98u8, 111u8, 100u8, 121u8, 62u8, 60u8, 104u8, 49u8, 62u8];
    proof {
        assert(v@ =~= tp_head());
    }
    v
}

fn tp_h1_close_exec() -> (r: Vec<u8>)
    ensures
        r@ == tp_h1_close(),
{
    let v: Vec<u8> = vec![60u8, 47u8, 104u8, 49u8, 62u8];
    proof {
        assert(v@ =~= tp_h1_close());
    }
    v
}

fn tp_p_open_exec() -> (r: Vec<u8>)
    ensures
        r@ == tp_p_open(),
{
    let v: Vec<u8> = vec![60u8, 112u8, 62u8];
    proof {
        assert(v@ =~= tp_p_open());
    }
    v
}

fn tp_p_close_exec() -> (r: Vec<u8>)
    ensures
        r@ == tp_p_close(),
{
    let v: Vec<u8> = vec![60u8, 47u8, 112u8, 62u8];
    proof {
        assert(v@ =~= tp_p_close());
    }
    v
}

fn tp_a_open_exec() -> (r: Vec<u8>)
    ensures
        r@ == tp_a_open(),
{
    let v: Vec<u8> = vec![60u8, 112u8, 62u8, 60u8, 97u8, 32u8, 104u8, 114u8, 101u8, 102u8, 61u8, 34u8];
    proof {
        assert(v@ =~= tp_a_open());
    }
    v
}

fn tp_a_mid_exec() -> (r: Vec<u8>)
    ensures
        r@ == tp_a_mid(),
{
    let v: Vec<u8> = vec![34u8, 62u8];
    proof {
        assert(v@ =~= tp_a_mid());
    }
    v
}

fn tp_a_close_exec() -> (r: Vec<u8>)
    ensures
        r@ == tp_a_close(),
{
    let v: Vec<u8> = vec![60u8, 47u8, 97u8, 62u8, 60u8, 47u8, 112u8, 62u8];
    proof {
        assert(v@ =~= tp_a_close());
    }
    v
}

fn tp_tail_exec() -> (r: Vec<u8>)
    ensures
        r@ == tp_tail(),
{
    let v: Vec<u8> = vec![60u8, 47u8, 98u8, 111u8, 100u8, 121u8, 62u8, 60u8, 47u8, 104u8, 116u8, 109u8, 108u8, 62u8];
    proof {
        assert(v@ =~= tp_tail());
    }
    v
}

fn ext_epub_exec() -> (r: Vec<u8>)
    ensures
        r@ == ext_epub(),
{
    let v: Vec<u8> = vec![46u8, 101u8, 112u8, 117u8, 98u8];
    proof {
        assert(v@ =~= ext_epub());
    }
    v
}

fn sep_comma_exec() -> (r: Vec<u8>)
    ensures
        r@ == sep_comma(),
{
    let v: Vec<u8> = vec![44u8, 32u8];
    proof {
        assert(v@ =~= sep_comma());
    }
    v
}


/// The markup escaping for text and attribute values on the title page:
/// the four characters significant to markup become entities.
pub open spec fn escape_byte(b: u8) -> Seq<u8> {
    if b == 38 {
        seq![38u8, 97u8, 109u8, 112u8, 59u8]
    } else if b == 60 {
        seq![38u8, 108u8, 116u8, 59u8]
    } else if b == 62 {
        seq![38u8, 103u8, 116u8, 59u8]
    } else if b == 34 {
        seq![38u8, 113u8, 117u8, 111u8, 116u8, 59u8]
    } else {
        seq![b]
    }
}

pub open spec fn escape_spec(s: Seq<u8>) -> Seq<u8>
    decreases s.len(),
{
    if s.len() == 0 {
        Seq::empty()
    } else {
        escape_byte(s.first()) + escape_spec(s.drop_first())
    }
}

/// Escape text for the title page; see `escape_spec`.
pub fn escape_html(s: &Vec<u8>) -> (r: Vec<u8>)
    ensures
        r@ == escape_spec(s@),
{
    let mut out: Vec<u8> = Vec::new();
    let n = s.len();
    let mut i: usize = 0;
    proof {
        assert(s@.skip(0) =~= s@);
        assert(out@ + escape_spec(s@) =~= escape_spec(s@));
    }
    while i < n
        invariant
            i <= n,
            n == s@.len(),
            out@ + escape_spec(s@.skip(i as int)) == escape_spec(s@),
        decreases n - i,
    {
        proof {
            assert(s@.skip(i as int).first() == s@[i as int]);
            assert(s@.skip(i as int).drop_first() =~= s@.skip(i + 1));
        }
        let b = s[i];
        let ghost pre = out@;
        if b == 38 {
            out.push(38);
            out.push(97);
            out.push(109);
            out.push(112);
            out.push(59);
        } else if b == 60 {
            out.push(38);
            out.push(108);
            out.push(116);
            out.push(59);
        } else if b == 62 {
            out.push(38);
            out.push(103);
            out.push(116);
            out.push(59);
        } else if b == 34 {
            out.push(38);
            out.push(113);
            out.push(117);
            out.push(111);
            out.push(116);
            out.push(59);
        } else {
            out.push(b);
        }
        proof {
            assert(out@ =~= pre + escape_byte(s@[i as int]));
            assert(out@ + escape_spec(s@.skip(i + 1)) =~= pre + (escape_byte(s@[i as int])
                + escape_spec(s@.skip(i + 1))));
        }
        i = i + 1;
    }
    proof {
        assert(s@.skip(n as int) =~= Seq::<u8>::empty());
        assert(out@ + Seq::<u8>::empty() =~= out@);
    }
    out
}

/// The title page of an artifact: the entry title, the author line (omitted
/// when the author is just the publisher), the publisher linked to the
/// feed's own best link, and the entry's source link.
pub open spec fn title_page_spec(
    title: Seq<u8>,
    author: Seq<u8>,
    publisher: Seq<u8>,
    publisher_href: Seq<u8>,
    entry_href: Seq<u8>,
) -> Seq<u8> {
    tp_head() + escape_spec(title) + tp_h1_close() + (if author != publisher {
        tp_p_open() + escape_spec(author) + tp_p_close()
    } else {
        Seq::empty()
    }) + tp_a_open() + escape_spec(publisher_href) + tp_a_mid() + escape_spec(publisher)
        + tp_a_close() + tp_a_open() + escape_spec(entry_href) + tp_a_mid() + escape_spec(
        entry_href,
    ) + tp_a_close() + tp_tail()
}

/// Render the title page; see `title_page_spec`.
pub fn title_page(
    title: &Vec<u8>,
    author: &Vec<u8>,
    publisher: &Vec<u8>,
    publisher_href: &Vec<u8>,
    entry_href: &Vec<u8>,
) -> (r: Vec<u8>)
    ensures
        r@ == title_page_spec(title@, author@, publisher@, publisher_href@, entry_href@),
{
    let mut out = tp_head_exec();
    let e_title = escape_html(title);
    append_bytes(&mut out, &e_title);
    let close = tp_h1_close_exec();
    append_bytes(&mut out, &close);
    if !bytes_eq(author, publisher) {
        let po = tp_p_open_exec();
        append_bytes(&mut out, &po);
        let e_author = escape_html(author);
        append_bytes(&mut out, &e_author);
        let pc = tp_p_close_exec();
        append_bytes(&mut out, &pc);
    }
    let ao = tp_a_open_exec();
    append_bytes(&mut out, &ao);
    let e_ph = escape_html(publisher_href);
    append_bytes(&mut out, &e_ph);
    let am = tp_a_mid_exec();
    append_bytes(&mut out, &am);
    let e_pub = escape_html(publisher);
    append_bytes(&mut out, &e_pub);
    let ac = tp_a_close_exec();
    append_bytes(&mut out, &ac);
    let ao2 = tp_a_open_exec();
    append_bytes(&mut out, &ao2);
    let e_eh = escape_html(entry_href);
    append_bytes(&mut out, &e_eh);
    let am2 = tp_a_mid_exec();
    append_bytes(&mut out, &am2);
    let e_eh2 = escape_html(entry_href);
    append_bytes(&mut out, &e_eh2);
    let ac2 = tp_a_close_exec();
    append_bytes(&mut out, &ac2);
    let tail = tp_tail_exec();
    append_bytes(&mut out, &tail);
    proof {
        assert(out@ =~= title_page_spec(
            title@,
            author@,
            publisher@,
            publisher_href@,
            entry_href@,
        ));
    }
    out
}

/// The deterministic artifact file name: the entry's date rendered
/// compactly, a dash, the hex digest of the entry identifier, and the
/// package extension. A pure function of entry identity and date, so
/// re-processing an unchanged entry reproduces the same name.
pub open spec fn filename_spec(id: Seq<u8>, date: int) -> Seq<u8> {
    compact_timestamp_of(clamp_epoch_spec(date)) + seq![45u8] + hex_spec(sha256_of(id))
        + ext_epub()
}

/// Compute the artifact file name; see `filename_spec`.
pub fn artifact_filename(id: &Vec<u8>, date: i64) -> (r: Vec<u8>)
    ensures
        r@ == filename_spec(id@, date as int),
{
    let t = clamp_epoch(date);
    let mut out = format_compact(t);
    out.push(45);
    let digest = sha256(id);
    let hexd = to_hex(&digest);
    append_bytes(&mut out, &hexd);
    let ext = ext_epub_exec();
    append_bytes(&mut out, &ext);
    proof {
        assert(out@ =~= filename_spec(id@, date as int));
    }
    out
}

/// The artifact path relative to the library root: defined when the full
/// path sits under the root.
pub open spec fn rel_path_spec(full: Seq<u8>, root: Seq<u8>) -> Option<Seq<u8>> {
    if root.len() == 0 {
        Some(full)
    } else if full == root {
        Some(Seq::<u8>::empty())
    } else if full.len() > root.len() && full.subrange(0, root.len() as int) == root && full[
        root.len() as int
    ] == 47 {
        Some(full.subrange(root.len() as int + 1, full.len() as int))
    } else {
        None
    }
}

/// The path of an artifact relative to the library root; see
/// `rel_path_spec`.
pub fn rel_path(full: &Vec<u8>, root: &Vec<u8>) -> (r: Option<Vec<u8>>)
    ensures
        match r {
            Some(p) => rel_path_spec(full@, root@) == Some(p@),
            None => rel_path_spec(full@, root@) is None,
        },
{
    if root.len() == 0 {
        return Some(clone_bytes(full));
    }
    if bytes_eq(full, root) {
        return Some(Vec::new());
    }
    if full.len() > root.len() {
        if starts_with(full, root) {
            proof {
                assert(full@.subrange(0, root@.len() as int) =~= root@);
            }
            if full[root.len()] == 47 {
                return Some(slice_bytes(full, root.len() + 1, full.len()));
            } else {
                return None;
            }
        } else {
            proof {
                assert(full@.subrange(0, root@.len() as int) != root@) by {
                    if full@.subrange(0, root@.len() as int) == root@ {
                        assert(root@.is_prefix_of(full@));
                    }
                }
            }
            return None;
        }
    }
    None
}

/// The structured record emitted for each successfully created artifact.
pub struct CompletionEvent {
    pub title: Vec<u8>,
    pub author: Vec<u8>,
    pub year: Vec<u8>,
    pub publisher: Vec<u8>,
    pub identifier: Vec<u8>,
    pub added: Vec<u8>,
    pub path: Vec<u8>,
    pub size: u64,
}

/// Build the completion record for a successfully created artifact; every
/// field carries exactly what was computed for the entry.
pub fn completion_event(
    plan: &EntryPlan,
    publisher: &Vec<u8>,
    identifier: &Vec<u8>,
    added: Vec<u8>,
    path: Vec<u8>,
    size: u64,
) -> (r: CompletionEvent)
    ensures
        r.title@ == plan.title@,
        r.author@ == plan.author_line@,
        r.year@ == plan.year@,
        r.publisher@ == publisher@,
        r.identifier@ == identifier@,
        r.added@ == added@,
        r.path@ == path@,
        r.size == size,
{
    CompletionEvent {
        title: clone_bytes(&plan.title),
        author: clone_bytes(&plan.author_line),
        year: clone_bytes(&plan.year),
        publisher: clone_bytes(publisher),
        identifier: clone_bytes(identifier),
        added,
        path,
        size,
    }
}

/// Everything derived from an entry before any content work: the author
/// list and line, the resolved date with its renderings, the title, and the
/// deterministic file name.
pub struct EntryPlan {
    pub authors: Vec<Vec<u8>>,
    pub author_line: Vec<u8>,
    pub date: i64,
    pub year: Vec<u8>,
    pub title: Vec<u8>,
    pub filename: Vec<u8>,
}

impl EntryPlan {
    pub open spec fn wf_for(
        &self,
        e: FeedEntry,
        default_author: Option<Vec<u8>>,
        publisher: Seq<u8>,
        now: int,
    ) -> bool {
        &&& views_of(self.authors@) == author_list_spec(
            views_of(e.authors@),
            opt_bytes_view(default_author),
            publisher,
        )
        &&& self.author_line@ == join_spec(views_of(self.authors@), sep_comma())
        &&& self.date as int == date_spec(opt_i64_view(e.published), opt_i64_view(e.updated), now)
        &&& self.year@ == year_of(clamp_epoch_spec(self.date as int))
        &&& self.title@ == (match opt_bytes_view(e.title) {
            Some(t) => t,
            None => e.id@,
        })
        &&& self.filename@ == filename_spec(e.id@, self.date as int)
    }
}

/// Derive the entry plan; each field is pinned by `EntryPlan::wf_for`.
pub fn plan_entry(
    e: &FeedEntry,
    default_author: &Option<Vec<u8>>,
    publisher: &Vec<u8>,
    now: i64,
) -> (r: EntryPlan)
    ensures
        r.wf_for(*e, *default_author, publisher@, now as int),
{
    let authors = resolve_authors(&e.authors, default_author, publisher);
    let sep = sep_comma_exec();
    let author_line = join_bytes(&authors, &sep);
    let date = resolve_date(e.published, e.updated, now);
    let year = format_year(clamp_epoch(date));
    let title = resolve_title(&e.title, &e.id);
    let filename = artifact_filename(&e.id, date);
    EntryPlan { authors, author_line, date, year, title, filename }
}

proof fn lemma_subrange_noise_free(ts: Seq<Tok>, out: Seq<Tok>, a: int, b: int)
    requires
        0 <= a <= b <= ts.len(),
        out == ts.subrange(a, b),
        forall|i: int| 0 <= i < ts.len() ==> !tok_is_noise(#[trigger] ts[i]),
    ensures
        forall|i: int| 0 <= i < out.len() ==> !tok_is_noise(#[trigger] out[i]),
{
    assert forall|i: int| 0 <= i < out.len() implies !tok_is_noise(#[trigger] out[i]) by {
        assert(out[i] == ts[a + i]);
    }
}

proof fn lemma_narrow_noise_free(ts: Seq<Tok>, sels: Seq<crate::selector::Selector>, out: Seq<Tok>)
    requires
        narrow_post(ts, sels, out),
        forall|i: int| 0 <= i < ts.len() ==> !tok_is_noise(#[trigger] ts[i]),
    ensures
        forall|i: int| 0 <= i < out.len() ==> !tok_is_noise(#[trigger] out[i]),
{
    if exists|si: int| 0 <= si < sels.len() && crate::selector::has_sel_match(ts, sels[si]) {
        let si = choose|si: int|
            #![auto]
            {
                &&& 0 <= si < sels.len()
                &&& crate::selector::has_sel_match(ts, sels[si])
                &&& (forall|sj: int| 0 <= sj < si ==> !crate::selector::has_sel_match(
                    ts,
                    sels[sj],
                ))
                &&& exists|i: int|
                    {
                        &&& 0 <= i < ts.len()
                        &&& crate::selector::sel_matches(ts[i], sels[si])
                        &&& (forall|j: int| 0 <= j < i ==> !crate::selector::sel_matches(
                            ts[j],
                            sels[si],
                        ))
                        &&& out == subtree_at(ts, i)
                    }
            };
        let i = choose|i: int|
            {
                &&& 0 <= i < ts.len()
                &&& crate::selector::sel_matches(ts[i], sels[si])
                &&& (forall|j: int| 0 <= j < i ==> !crate::selector::sel_matches(ts[j], sels[si]))
                &&& out == subtree_at(ts, i)
            };
        match ts[i] {
            Tok::Open { name, self_closing, .. } => {
                if self_closing {
                    lemma_subrange_noise_free(ts, out, i, i + 1);
                } else {
                    match crate::selector::find_close_from(ts, i + 1, name@, 0) {
                        Some(j) => {
                            lemma_find_close_in_range(ts, i + 1, name@, 0);
                            lemma_subrange_noise_free(ts, out, i, j + 1);
                        },
                        None => {
                            lemma_subrange_noise_free(ts, out, i, ts.len() as int);
                        },
                    }
                }
            },
            _ => {
                lemma_subrange_noise_free(ts, out, i, i + 1);
            },
        }
    }
}

proof fn lemma_find_close_in_range(ts: Seq<Tok>, j: int, name: Seq<u8>, depth: nat)
    ensures
        crate::selector::find_close_from(ts, j, name, depth) matches Some(k) ==> j <= k
            < ts.len(),
    decreases ts.len() - j,
{
    if 0 <= j < ts.len() {
        match ts[j] {
            Tok::Open { name: n, self_closing, .. } => {
                if n@ == name && !self_closing {
                    lemma_find_close_in_range(ts, j + 1, name, depth + 1);
                } else {
                    lemma_find_close_in_range(ts, j + 1, name, depth);
                }
            },
            Tok::Close { name: n, .. } => {
                if n@ == name {
                    if depth != 0 {
                        lemma_find_close_in_range(ts, j + 1, name, (depth - 1) as nat);
                    }
                } else {
                    lemma_find_close_in_range(ts, j + 1, name, depth);
                }
            },
            Tok::Text { .. } => {
                lemma_find_close_in_range(ts, j + 1, name, depth);
            },
        }
    }
}

/// Prepare article markup: tokenize, remove every noise element, narrow to
/// the first matched content element when filtering is enabled, and collect
/// the image references in document order (none when images are disabled,
/// so the final rewrite drops every image tag). No noise element survives
/// into the result, whatever the filter settings.
pub fn prepare_article(
    html: &Vec<u8>,
    enable_filter: bool,
    filter_element: &Option<Vec<u8>>,
    include_images: bool,
) -> (r: (Vec<Tok>, Vec<Vec<u8>>))
    ensures
        forall|i: int| 0 <= i < r.0@.len() ==> !tok_is_noise(#[trigger] r.0@[i]),
        include_images ==> views_of(r.1@) == img_srcs_spec(r.0@),
        !include_images ==> r.1@.len() == 0,
        !enable_filter ==> exists|ts0: Seq<Tok>|
            #![auto]
            toks_v(ts0) == tokenize_spec(html@) && r.0@ == strip_noise_spec(ts0),
        enable_filter ==> exists|ts0: Seq<Tok>, sels: Seq<crate::selector::Selector>|
            #![auto]
            {
                &&& toks_v(ts0) == tokenize_spec(html@)
                &&& crate::selector::sels_v(sels) == crate::selector::filter_selectors_spec(
                    opt_bytes_view(*filter_element),
                )
                &&& narrow_post(strip_noise_spec(ts0), sels, r.0@)
            },
{
    let toks0 = tokenize(html);
    let ghost g0 = toks0@;
    proof {
        assert(toks_v(g0) == tokenize_spec(html@));
    }
    let toks = strip_noise(toks0);
    proof {
        crate::html::law_noise_removed(g0);
        assert forall|i: int| 0 <= i < toks@.len() implies !tok_is_noise(#[trigger] toks@[i]) by {
            assert(toks@[i] == strip_noise_spec(g0)[i]);
        }
    }
    let toks2 = if enable_filter {
        let sels = build_filter_selectors(filter_element);
        let ghost pre = toks@;
        let narrowed = narrow_tokens(toks, &sels);
        proof {
            lemma_narrow_noise_free(pre, sels@, narrowed@);
            assert(narrow_post(strip_noise_spec(g0), sels@, narrowed@));
            assert(exists|ts0: Seq<Tok>, sels2: Seq<crate::selector::Selector>|
                #![auto]
                {
                    &&& toks_v(ts0) == tokenize_spec(html@)
                    &&& crate::selector::sels_v(sels2) == crate::selector::filter_selectors_spec(
                        opt_bytes_view(*filter_element),
                    )
                    &&& narrow_post(strip_noise_spec(ts0), sels2, narrowed@)
                });
        }
        narrowed
    } else {
        toks
    };
    let srcs = if include_images {
        collect_img_srcs(&toks2)
    } else {
        Vec::new()
    };
    (toks2, srcs)
}

/// One image fetch, as handed back by the transport: the raw reference from
/// the markup, the extension taken from the resolved URL's path, and the
/// body with the reported content type — `None` when the fetch failed or
/// was never attempted.
pub struct FetchedImage {
    pub raw_src: Vec<u8>,
    pub ext: Option<Vec<u8>>,
    pub outcome: Option<(Vec<u8>, Option<Vec<u8>>)>,
}

pub open spec fn fetched_ext(f: FetchedImage) -> Option<Seq<u8>> {
    match f.ext {
        Some(e) => Some(e@),
        None => None,
    }
}

pub open spec fn fetched_ct(f: FetchedImage) -> Option<Seq<u8>> {
    match f.outcome {
        Some((_, Some(ct))) => Some(ct@),
        _ => None,
    }
}

/// What one fetched image embeds: its assigned resource path and resolved
/// media type, or nothing when the fetch failed or no media type could be
/// resolved (such an image is dropped, never failing its entry).
pub open spec fn embed_of(i: nat, f: FetchedImage) -> Option<(Seq<u8>, Seq<u8>)> {
    match f.outcome {
        Some(_) => match resolve_mime_spec(fetched_ct(f), fetched_ext(f)) {
            Some(m) => Some((resource_path_spec(i, fetched_ext(f), Some(m)), m)),
            None => None,
        },
        None => None,
    }
}

/// The embed map over a fetch list, ordinals starting at `i0`.
pub open spec fn embeds_map_spec(fs: Seq<FetchedImage>, i0: nat) -> Seq<(Seq<u8>, Seq<u8>)>
    decreases fs.len(),
{
    if fs.len() == 0 {
        Seq::empty()
    } else {
        (match embed_of(i0, fs.first()) {
            Some((p, _)) => seq![(fs.first().raw_src@, p)],
            None => Seq::<(Seq<u8>, Seq<u8>)>::empty(),
        }) + embeds_map_spec(fs.drop_first(), i0 + 1)
    }
}

/// The embedded resources over a fetch list, ordinals starting at `i0`.
pub open spec fn embeds_resources_spec(fs: Seq<FetchedImage>, i0: nat) -> Seq<
    (Seq<u8>, Seq<u8>, Seq<u8>),
>
    decreases fs.len(),
{
    if fs.len() == 0 {
        Seq::empty()
    } else {
        (match embed_of(i0, fs.first()) {
            Some((p, m)) => seq![
                (p, match fs.first().outcome {
                    Some((data, _)) => data@,
                    None => Seq::<u8>::empty(),
                }, m),
            ],
            None => Seq::<(Seq<u8>, Seq<u8>, Seq<u8>)>::empty(),
        }) + embeds_resources_spec(fs.drop_first(), i0 + 1)
    }
}

pub open spec fn pairs_v(ps: Seq<(Vec<u8>, Vec<u8>)>) -> Seq<(Seq<u8>, Seq<u8>)> {
    Seq::new(ps.len(), |i: int| (ps[i].0@, ps[i].1@))
}

/// Register the fetched images, in collection order: each successful fetch
/// with a resolved media type becomes an embedded resource under the path
/// of its ordinal, and an entry in the rewrite map from its original markup
/// reference to that path. Failed or type-less images are dropped. This is
/// the strictly sequential post-processing step over completed fetches.
pub fn build_embeds(fetches: Vec<FetchedImage>) -> (r: (
    Vec<EmbeddedResource>,
    Vec<(Vec<u8>, Vec<u8>)>,
))
    ensures
        crate::epub::resource_triples(r.0@) == embeds_resources_spec(fetches@, 0),
        pairs_v(r.1@) == embeds_map_spec(fetches@, 0),
{
    let ghost orig = fetches@;
    let orig_len = fetches.len();
    let mut fetches = fetches;
    let mut resources: Vec<EmbeddedResource> = Vec::new();
    let mut map: Vec<(Vec<u8>, Vec<u8>)> = Vec::new();
    let mut i: u64 = 0;
    proof {
        assert(crate::epub::resource_triples(resources@) + embeds_resources_spec(fetches@, 0) =~= embeds_resources_spec(
            orig,
            0,
        ));
        assert(pairs_v(map@) + embeds_map_spec(fetches@, 0) =~= embeds_map_spec(orig, 0));
    }
    while fetches.len() > 0
        invariant
            orig.len() == orig_len,
            i as int + fetches@.len() == orig.len(),
            crate::epub::resource_triples(resources@) + embeds_resources_spec(fetches@, i as nat)
                == embeds_resources_spec(orig, 0),
            pairs_v(map@) + embeds_map_spec(fetches@, i as nat) == embeds_map_spec(orig, 0),
        decreases fetches@.len(),
    {
        let ghost pre = fetches@;
        let f = fetches.remove(0);
        proof {
            assert(pre.remove(0) =~= pre.drop_first());
            assert(pre.first() == f);
        }
        let FetchedImage { raw_src, ext, outcome } = f;
        match outcome {
            Some((data, ct)) => {
                match resolve_mime(&ct, &ext) {
                    Some(m) => {
                        let path = resource_path(i, &ext, &Some(clone_bytes(&m)));
                        proof {
                            assert(embed_of(i as nat, pre.first()) matches Some(pm)
                                && pm.0 == path@ && pm.1 == m@);
                            assert(crate::epub::resource_triples(
                                resources@.push(
                                    EmbeddedResource {
                                        path: path,
                                        data: data,
                                        mime: m,
                                    },
                                ),
                            ) =~= crate::epub::resource_triples(resources@).push((path@, data@, m@)));
                            assert(pairs_v(map@.push((raw_src, path))) =~= pairs_v(map@).push(
                                (raw_src@, path@),
                            ));
                            assert(crate::epub::resource_triples(resources@).push((path@, data@, m@))
                                + embeds_resources_spec(pre.drop_first(), i as nat + 1)
                                =~= crate::epub::resource_triples(resources@) + embeds_resources_spec(
                                pre,
                                i as nat,
                            ));
                            assert(pairs_v(map@).push((raw_src@, path@)) + embeds_map_spec(
                                pre.drop_first(),
                                i as nat + 1,
                            ) =~= pairs_v(map@) + embeds_map_spec(pre, i as nat));
                        }
                        let path2 = clone_bytes(&path);
                        resources.push(EmbeddedResource { path, data, mime: m });
                        map.push((raw_src, path2));
                    },
                    None => {
                        proof {
                            assert(embed_of(i as nat, pre.first()) is None);
                            assert(crate::epub::resource_triples(resources@) + embeds_resources_spec(
                                pre.drop_first(),
                                i as nat + 1,
                            ) =~= crate::epub::resource_triples(resources@) + embeds_resources_spec(pre, i as nat));
                            assert(pairs_v(map@) + embeds_map_spec(pre.drop_first(), i as nat + 1)
                                =~= pairs_v(map@) + embeds_map_spec(pre, i as nat));
                        }
                    },
                }
            },
            None => {
                proof {
                    assert(embed_of(i as nat, pre.first()) is None);
                    assert(crate::epub::resource_triples(resources@) + embeds_resources_spec(
                        pre.drop_first(),
                        i as nat + 1,
                    ) =~= crate::epub::resource_triples(resources@) + embeds_resources_spec(pre, i as nat));
                    assert(pairs_v(map@) + embeds_map_spec(pre.drop_first(), i as nat + 1)
                        =~= pairs_v(map@) + embeds_map_spec(pre, i as nat));
                }
            },
        }
        i = i + 1;
    }
    proof {
        assert(fetches@ =~= Seq::<FetchedImage>::empty());
        assert(crate::epub::resource_triples(resources@) + embeds_resources_spec(fetches@, i as nat)
            =~= crate::epub::resource_triples(resources@));
        assert(pairs_v(map@) + embeds_map_spec(fetches@, i as nat) =~= pairs_v(map@));
    }
    (resources, map)
}

} // verus!
