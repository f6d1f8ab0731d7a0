//! The feed data model and the per-entry decision logic: outbound-link
//! tie-break, content-source selection policy, and the resolution of author,
//! date, title and publisher.

use vstd::prelude::*;

use crate::bytestr::{clone_bytes, contains_bytes, spec_contains};
use crate::error::FeedError;

verus! {

/// One outbound link of a feed or an entry.
pub struct FeedLink {
    pub href: Vec<u8>,
    pub media_type: Option<Vec<u8>>,
}

/// One entry of a feed document. Timestamps are seconds since the epoch.
pub struct FeedEntry {
    pub id: Vec<u8>,
    pub title: Option<Vec<u8>>,
    pub summary: Option<Vec<u8>>,
    pub content_body: Option<Vec<u8>>,
    pub published: Option<i64>,
    pub updated: Option<i64>,
    pub authors: Vec<Vec<u8>>,
    pub links: Vec<FeedLink>,
}

/// One parsed feed document.
pub struct FeedDocument {
    pub title: Option<Vec<u8>>,
    pub links: Vec<FeedLink>,
    pub entries: Vec<FeedEntry>,
}

/// The name this program reports to servers and in artifact metadata.
pub fn program_name() -> (r: String)
    ensures
        r@ == "plato-feed/1.0.0"@,
{
    "plato-feed/1.0.0".to_owned()
}

pub open spec fn html_needle() -> Seq<u8> {
    seq![104u8, 116u8, 109u8, 108u8]
}

/// A link whose declared media type mentions html.
pub open spec fn is_html_link(l: FeedLink) -> bool {
    l.media_type matches Some(mt) && spec_contains(mt@, html_needle())
}

/// A link with no declared media type.
pub open spec fn is_untyped_link(l: FeedLink) -> bool {
    l.media_type is None
}

pub open spec fn has_html_link(ls: Seq<FeedLink>) -> bool {
    exists|j: int| 0 <= j < ls.len() && is_html_link(ls[j])
}

pub open spec fn has_untyped_link(ls: Seq<FeedLink>) -> bool {
    exists|j: int| 0 <= j < ls.len() && is_untyped_link(ls[j])
}

/// The tie-break for the best outbound link: the first link whose media type
/// mentions html; else the first link with no declared media type; else the
/// first link in entry order.
pub open spec fn best_link_at(ls: Seq<FeedLink>, i: int) -> bool {
    &&& 0 <= i < ls.len()
    &&& if has_html_link(ls) {
        is_html_link(ls[i]) && (forall|j: int| 0 <= j < i ==> !is_html_link(ls[j]))
    } else if has_untyped_link(ls) {
        is_untyped_link(ls[i]) && (forall|j: int| 0 <= j < i ==> !is_untyped_link(ls[j]))
    } else {
        i == 0
    }
}

/// Pick the best outbound link, by the tie-break above; `None` only when
/// there is no link at all.
pub fn find_link(links: &Vec<FeedLink>) -> (r: Option<usize>)
    ensures
        r is None <==> links@.len() == 0,
        r matches Some(i) ==> best_link_at(links@, i as int),
{
    let needle: Vec<u8> = vec![104u8, 116u8, 109u8, 108u8];
    proof {
        assert(needle@ =~= html_needle());
    }
    let n = links.len();
    let mut first_untyped: Option<usize> = None;
    for i in 0..n
        invariant
            n == links@.len(),
            needle@ == html_needle(),
            forall|j: int| 0 <= j < i ==> !is_html_link(links@[j]),
            match first_untyped {
                Some(u) => u < i && is_untyped_link(links@[u as int]) && (forall|j: int|
                    0 <= j < u ==> !is_untyped_link(links@[j])),
                None => forall|j: int| 0 <= j < i ==> !is_untyped_link(links@[j]),
            },
    {
        match &links[i].media_type {
            Some(mt) => {
                if contains_bytes(mt, &needle) {
                    return Some(i);
                }
            },
            None => {
                if first_untyped.is_none() {
                    first_untyped = Some(i);
                }
            },
        }
    }
    assert(!has_html_link(links@));
    match first_untyped {
        Some(u) => Some(u),
        None => {
            assert(!has_untyped_link(links@));
            if links.len() > 0 {
                Some(0)
            } else {
                None
            }
        },
    }
}

/// An entry carries usable inline content: a body that is not empty.
pub open spec fn has_inline(e: FeedEntry) -> bool {
    e.content_body matches Some(b) && b@.len() > 0
}

/// Where the article markup for an entry comes from.
#[derive(Debug, PartialEq, Eq)]
pub enum ContentSource {
    /// Fetch the outbound link at this index of the entry's link list and
    /// clean what it returns.
    Article { link_index: usize },
    /// Clean the entry's inline content; no fetch for the article itself.
    Inline,
}

/// The content-source selection policy, in evaluation order: a policy of
/// `Some(true)` always fetches the full article; otherwise non-empty inline
/// content is used; otherwise `Some(false)` refuses to fall back; otherwise
/// the full article is fetched. Fetching requires an outbound link.
pub open spec fn select_post(
    download_full_article: Option<bool>,
    e: FeedEntry,
    r: Result<ContentSource, FeedError>,
) -> bool {
    if download_full_article == Some(true) {
        if e.links@.len() == 0 {
            r == Err::<ContentSource, FeedError>(FeedError::NoLink)
        } else {
            r matches Ok(ContentSource::Article { link_index }) && best_link_at(
                e.links@,
                link_index as int,
            )
        }
    } else if has_inline(e) {
        r == Ok::<ContentSource, FeedError>(ContentSource::Inline)
    } else if download_full_article == Some(false) {
        r == Err::<ContentSource, FeedError>(FeedError::NoContent)
    } else if e.links@.len() == 0 {
        r == Err::<ContentSource, FeedError>(FeedError::NoLink)
    } else {
        r matches Ok(ContentSource::Article { link_index }) && best_link_at(
            e.links@,
            link_index as int,
        )
    }
}

/// Decide where an entry's article markup comes from; see `select_post`.
pub fn select_content_source(download_full_article: Option<bool>, e: &FeedEntry) -> (r: Result<
    ContentSource,
    FeedError,
>)
    ensures
        select_post(download_full_article, *e, r),
{
    let always = match download_full_article {
        Some(true) => true,
        _ => false,
    };
    let never = match download_full_article {
        Some(false) => true,
        _ => false,
    };
    if always {
        match find_link(&e.links) {
            Some(i) => Ok(ContentSource::Article { link_index: i }),
            None => Err(FeedError::NoLink),
        }
    } else {
        let inline = match &e.content_body {
            Some(b) => b.len() > 0,
            None => false,
        };
        if inline {
            Ok(ContentSource::Inline)
        } else if never {
            Err(FeedError::NoContent)
        } else {
            match find_link(&e.links) {
                Some(i) => Ok(ContentSource::Article { link_index: i }),
                None => Err(FeedError::NoLink),
            }
        }
    }
}

/// The views of a list of byte strings.
pub open spec fn views_of(s: Seq<Vec<u8>>) -> Seq<Seq<u8>> {
    Seq::new(s.len(), |i: int| s[i]@)
}

pub open spec fn opt_bytes_view(o: Option<Vec<u8>>) -> Option<Seq<u8>> {
    match o {
        Some(v) => Some(v@),
        None => None,
    }
}

/// The author names of an entry with empty names removed.
pub open spec fn filter_nonempty(s: Seq<Seq<u8>>) -> Seq<Seq<u8>>
    decreases s.len(),
{
    if s.len() == 0 {
        Seq::empty()
    } else {
        let rest = filter_nonempty(s.drop_last());
        if s.last().len() > 0 {
            rest.push(s.last())
        } else {
            rest
        }
    }
}

/// The author list recorded in the artifact: the entry's non-empty author
/// names; if there are none, the configured default author — an explicitly
/// empty default suppresses authorship — and failing that the publisher.
pub open spec fn author_list_spec(
    authors: Seq<Seq<u8>>,
    default_author: Option<Seq<u8>>,
    publisher: Seq<u8>,
) -> Seq<Seq<u8>> {
    let f = filter_nonempty(authors);
    if f.len() > 0 {
        f
    } else {
        let cand = match default_author {
            Some(d) => d,
            None => publisher,
        };
        if cand.len() > 0 {
            seq![cand]
        } else {
            Seq::empty()
        }
    }
}

/// Compute the artifact's author list; see `author_list_spec`.
pub fn resolve_authors(
    entry_authors: &Vec<Vec<u8>>,
    default_author: &Option<Vec<u8>>,
    publisher: &Vec<u8>,
) -> (r: Vec<Vec<u8>>)
    ensures
        views_of(r@) == author_list_spec(
            views_of(entry_authors@),
            opt_bytes_view(*default_author),
            publisher@,
        ),
{
    let mut out: Vec<Vec<u8>> = Vec::new();
    let n = entry_authors.len();
    let mut i: usize = 0;
    while i < n
        invariant
            n == entry_authors@.len(),
            i <= n,
            views_of(out@) == filter_nonempty(views_of(entry_authors@).subrange(0, i as int)),
        decreases n - i,
    {
        proof {
            let full = views_of(entry_authors@);
            assert(full.subrange(0, i + 1).drop_last() =~= full.subrange(0, i as int));
            assert(full.subrange(0, i + 1).last() == full[i as int]);
        }
        if entry_authors[i].len() > 0 {
            let c = clone_bytes(&entry_authors[i]);
            proof {
                assert(views_of(out@.push(c)) =~= views_of(out@).push(c@));
            }
            out.push(c);
        }
        i = i + 1;
    }
    proof {
        assert(views_of(entry_authors@).subrange(0, n as int) =~= views_of(entry_authors@));
    }
    if out.len() == 0 {
        let cand = match default_author {
            Some(d) => clone_bytes(d),
            None => clone_bytes(publisher),
        };
        if cand.len() > 0 {
            proof {
                assert(views_of(out@.push(cand)) =~= seq![cand@]);
            }
            out.push(cand);
        }
    }
    proof {
        assert(views_of(out@) =~= author_list_spec(
            views_of(entry_authors@),
            opt_bytes_view(*default_author),
            publisher@,
        ));
    }
    out
}

/// The parts joined with the separator between them.
pub open spec fn join_spec(parts: Seq<Seq<u8>>, sep: Seq<u8>) -> Seq<u8>
    decreases parts.len(),
{
    if parts.len() == 0 {
        Seq::empty()
    } else if parts.len() == 1 {
        parts[0]
    } else {
        join_spec(parts.drop_last(), sep) + sep + parts.last()
    }
}

/// Join byte strings with a separator; see `join_spec`.
pub fn join_bytes(parts: &Vec<Vec<u8>>, sep: &Vec<u8>) -> (r: Vec<u8>)
    ensures
        r@ == join_spec(views_of(parts@), sep@),
{
    let mut out: Vec<u8> = Vec::new();
    let n = parts.len();
    let mut i: usize = 0;
    while i < n
        invariant
            n == parts@.len(),
            i <= n,
            out@ == join_spec(views_of(parts@).subrange(0, i as int), sep@),
        decreases n - i,
    {
        proof {
            let full = views_of(parts@);
            assert(full.subrange(0, i + 1).drop_last() =~= full.subrange(0, i as int));
            assert(full.subrange(0, i + 1).last() == full[i as int]);
            if i == 0 {
                assert(join_spec(full.subrange(0, 1), sep@) == full[0]);
            }
        }
        if i > 0 {
            let mut k: usize = 0;
            let m = sep.len();
            while k < m
                invariant
                    m == sep@.len(),
                    k <= m,
                    out@ == join_spec(views_of(parts@).subrange(0, i as int), sep@) + sep@.subrange(
                        0,
                        k as int,
                    ),
                decreases m - k,
            {
                proof {
                    assert(sep@.subrange(0, k + 1) =~= sep@.subrange(0, k as int).push(
                        sep@[k as int],
                    ));
                }
                out.push(sep[k]);
                k = k + 1;
            }
            proof {
                assert(sep@.subrange(0, m as int) =~= sep@);
            }
        } else {
            proof {
                assert(out@ + sep@.subrange(0, 0) =~= out@);
            }
        }
        let part = &parts[i];
        let mut k: usize = 0;
        let m = part.len();
        let ghost base = out@;
        while k < m
            invariant
                m == part@.len(),
                k <= m,
                out@ == base + part@.subrange(0, k as int),
            decreases m - k,
        {
            proof {
                assert(part@.subrange(0, k + 1) =~= part@.subrange(0, k as int).push(
                    part@[k as int],
                ));
                assert(base + part@.subrange(0, k + 1) =~= (base + part@.subrange(0, k as int)).push(
                    part@[k as int],
                ));
            }
            out.push(part[k]);
            k = k + 1;
        }
        proof {
            let full = views_of(parts@);
            assert(part@.subrange(0, m as int) =~= part@);
            if i == 0 {
                assert(out@ =~= join_spec(full.subrange(0, i + 1), sep@));
            } else {
                assert(out@ =~= join_spec(full.subrange(0, i + 1), sep@));
            }
        }
        i = i + 1;
    }
    proof {
        assert(views_of(parts@).subrange(0, n as int) =~= views_of(parts@));
    }
    out
}

/// The entry's date: the published time, else the updated time, else now.
pub open spec fn date_spec(published: Option<int>, updated: Option<int>, now: int) -> int {
    match published {
        Some(p) => p,
        None => match updated {
            Some(u) => u,
            None => now,
        },
    }
}

/// Resolve the entry's date; see `date_spec`.
pub fn resolve_date(published: Option<i64>, updated: Option<i64>, now: i64) -> (r: i64)
    ensures
        r as int == date_spec(opt_i64_view(published), opt_i64_view(updated), now as int),
{
    match published {
        Some(p) => p,
        None => match updated {
            Some(u) => u,
            None => now,
        },
    }
}

pub open spec fn opt_i64_view(o: Option<i64>) -> Option<int> {
    match o {
        Some(v) => Some(v as int),
        None => None,
    }
}

/// The artifact title: the entry's title, else its identifier.
pub fn resolve_title(title: &Option<Vec<u8>>, id: &Vec<u8>) -> (r: Vec<u8>)
    ensures
        r@ == match opt_bytes_view(*title) {
            Some(t) => t,
            None => id@,
        },
{
    match title {
        Some(t) => clone_bytes(t),
        None => clone_bytes(id),
    }
}

/// The publisher: the feed's title, else the configured server name.
pub fn resolve_publisher(feed_title: &Option<Vec<u8>>, server: &Vec<u8>) -> (r: Vec<u8>)
    ensures
        r@ == match opt_bytes_view(*feed_title) {
            Some(t) => t,
            None => server@,
        },
{
    match feed_title {
        Some(t) => clone_bytes(t),
        None => clone_bytes(server),
    }
}

} // verus!
