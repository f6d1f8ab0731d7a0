//! Parsing a fetched feed document into the library's model, through the
//! feed parser crate. Whether parsing succeeds is a function of the document
//! bytes alone, and is named as such; the parsed value is not — the parser
//! assigns a freshly generated identifier to a feed or entry that has none —
//! so each accessor's result is named as a function of the parsed value, and
//! `parse_document` pins every field of its result over those names.

use vstd::prelude::*;

use crate::feed::{opt_bytes_view, opt_i64_view, views_of, FeedDocument, FeedEntry, FeedLink};

verus! {

#[verifier::external_type_specification]
#[verifier::external_body]
pub struct ExFeed(feed_rs::model::Feed);

/// Whether given document bytes parse as a feed; a function of the bytes
/// alone. What the parse yields is not: entries lacking an identifier are
/// assigned a freshly generated one, so the value itself carries no name.
pub uninterp spec fn feed_parses(bytes: Seq<u8>) -> bool;

/// The parsed feed's title text, where it has one.
pub uninterp spec fn feed_title_of(f: feed_rs::model::Feed) -> Option<Seq<u8>>;

/// The parsed feed's link list: each link's target and declared media type,
/// in order.
pub uninterp spec fn feed_links_of(f: feed_rs::model::Feed) -> Seq<(Seq<u8>, Option<Seq<u8>>)>;

/// How many entries the parsed feed holds.
pub uninterp spec fn entry_count_of(f: feed_rs::model::Feed) -> nat;

/// One parsed entry's core fields: identifier, title, summary, inline
/// content body, and the published and updated timestamps as epoch seconds;
/// `None` past the last entry.
pub uninterp spec fn entry_core_of(f: feed_rs::model::Feed, i: int) -> Option<
    (Seq<u8>, Option<Seq<u8>>, Option<Seq<u8>>, Option<Seq<u8>>, Option<int>, Option<int>),
>;

/// One parsed entry's author names, in order.
pub uninterp spec fn entry_authors_of(f: feed_rs::model::Feed, i: int) -> Seq<Seq<u8>>;

/// One parsed entry's links: each link's target and declared media type, in
/// order.
pub uninterp spec fn entry_links_of(f: feed_rs::model::Feed, i: int) -> Seq<
    (Seq<u8>, Option<Seq<u8>>),
>;

/// The mathematical value of a link list.
pub open spec fn links_v(ls: Seq<FeedLink>) -> Seq<(Seq<u8>, Option<Seq<u8>>)> {
    Seq::new(
        ls.len(),
        |i: int|
            (
                ls[i].href@,
                match ls[i].media_type {
                    Some(m) => Some(m@),
                    None => None,
                },
            ),
    )
}

/// The core fields of an entry of the library's model.
pub open spec fn entry_core_v(e: FeedEntry) -> (
    Seq<u8>,
    Option<Seq<u8>>,
    Option<Seq<u8>>,
    Option<Seq<u8>>,
    Option<int>,
    Option<int>,
) {
    (
        e.id@,
        opt_bytes_view(e.title),
        opt_bytes_view(e.summary),
        opt_bytes_view(e.content_body),
        opt_i64_view(e.published),
        opt_i64_view(e.updated),
    )
}

/// Relies on feed_rs::parser::parse: parses an RSS/Atom/JSON feed document
/// from bytes. Success is deterministic in the bytes; the parsed value is
/// not (a feed or entry without an identifier receives a generated one), so
/// nothing is claimed of the value — the accessors below read it out.
#[verifier::external_body]
pub(crate) fn parse_feed_raw(bytes: &Vec<u8>) -> (r: Option<feed_rs::model::Feed>)
    ensures
        r is Some <==> feed_parses(bytes@),
{
    feed_rs::parser::parse(bytes.as_slice()).ok()
}

/// Relies on the parsed feed's `title` field: the feed-level title text.
#[verifier::external_body]
pub(crate) fn feed_title(f: &feed_rs::model::Feed) -> (r: Option<Vec<u8>>)
    ensures
        match r {
            Some(t) => feed_title_of(*f) == Some(t@),
            None => feed_title_of(*f) is None,
        },
{
    f.title.as_ref().map(|t| t.content.clone().into_bytes())
}

/// Relies on the parsed feed's `links` field: the feed-level link list, with
/// each link's target and declared media type, in order.
#[verifier::external_body]
pub(crate) fn feed_links(f: &feed_rs::model::Feed) -> (r: Vec<FeedLink>)
    ensures
        links_v(r@) == feed_links_of(*f),
{
    f.links.iter().map(
        |l| FeedLink {
            href: l.href.clone().into_bytes(),
            media_type: l.media_type.clone().map(|m| m.into_bytes()),
        },
    ).collect()
}

/// Relies on the parsed feed's `entries` field: how many entries it holds.
#[verifier::external_body]
pub(crate) fn feed_entry_count(f: &feed_rs::model::Feed) -> (r: usize)
    ensures
        r as nat == entry_count_of(*f),
{
    f.entries.len()
}

/// Relies on one parsed entry, reading out its identifier, title, summary,
/// inline content body, and timestamps (as epoch seconds, via chrono);
/// `Some` exactly for positions below the entry count. Author and link
/// lists come from the accessors below and start empty here.
#[verifier::external_body]
pub(crate) fn entry_core_at(f: &feed_rs::model::Feed, i: usize) -> (r: Option<FeedEntry>)
    ensures
        r is Some <==> (i as nat) < entry_count_of(*f),
        match r {
            Some(e) => entry_core_of(*f, i as int) == Some(entry_core_v(e)) && e.authors@.len()
                == 0 && e.links@.len() == 0,
            None => entry_core_of(*f, i as int) is None,
        },
{
    f.entries.get(i).map(
        |e| FeedEntry {
            id: e.id.clone().into_bytes(),
            title: e.title.as_ref().map(|t| t.content.clone().into_bytes()),
            summary: e.summary.as_ref().map(|t| t.content.clone().into_bytes()),
            content_body: e.content.as_ref().and_then(|c| c.body.clone()).map(|b| b.into_bytes()),
            published: e.published.map(|d| d.timestamp()),
            updated: e.updated.map(|d| d.timestamp()),
            authors: Vec::new(),
            links: Vec::new(),
        },
    )
}

/// Relies on one parsed entry's `authors` field: the author names in order;
/// an unnamed author becomes an empty name, which the author policy drops.
#[verifier::external_body]
pub(crate) fn entry_authors_at(f: &feed_rs::model::Feed, i: usize) -> (r: Vec<Vec<u8>>)
    ensures
        views_of(r@) == entry_authors_of(*f, i as int),
{
    match f.entries.get(i) {
        Some(e) => e.authors.iter().map(|p| p.name.clone().unwrap_or_default().into_bytes()).collect(),
        None => Vec::new(),
    }
}

/// Relies on one parsed entry's `links` field: each link's target and
/// declared media type, in order.
#[verifier::external_body]
pub(crate) fn entry_links_at(f: &feed_rs::model::Feed, i: usize) -> (r: Vec<FeedLink>)
    ensures
        links_v(r@) == entry_links_of(*f, i as int),
{
    match f.entries.get(i) {
        Some(e) => e.links.iter().map(
            |l| FeedLink {
                href: l.href.clone().into_bytes(),
                media_type: l.media_type.clone().map(|m| m.into_bytes()),
            },
        ).collect(),
        None => Vec::new(),
    }
}

/// What the parsed document holds, field for field, over the names of the
/// feed parser's results.
pub open spec fn parse_document_post(doc: FeedDocument, f: feed_rs::model::Feed) -> bool {
    &&& opt_bytes_view(doc.title) == feed_title_of(f)
    &&& links_v(doc.links@) == feed_links_of(f)
    &&& doc.entries@.len() == entry_count_of(f)
    &&& forall|i: int|
        0 <= i < doc.entries@.len() ==> {
            &&& entry_core_of(f, i) == Some(entry_core_v(#[trigger] doc.entries@[i]))
            &&& views_of(doc.entries@[i].authors@) == entry_authors_of(f, i)
            &&& links_v(doc.entries@[i].links@) == entry_links_of(f, i)
        }
}

/// Parse a fetched feed document into the library's model: `Some` exactly
/// when the document parses, and then every field of the result is pinned
/// by `parse_document_post` over the accessors' names applied to the feed
/// value the parser yielded.
pub fn parse_document(bytes: &Vec<u8>) -> (r: Option<FeedDocument>)
    ensures
        r is Some <==> feed_parses(bytes@),
        r matches Some(doc) ==> exists|f: feed_rs::model::Feed|
            #[trigger] parse_document_post(doc, f),
{
    match parse_feed_raw(bytes) {
        Some(f) => {
            let title = feed_title(&f);
            let links = feed_links(&f);
            let n = feed_entry_count(&f);
            let mut entries: Vec<FeedEntry> = Vec::new();
            let mut i: usize = 0;
            while i < n
                invariant
                    i <= n,
                    n as nat == entry_count_of(f),
                    entries@.len() == i,
                    forall|j: int|
                        0 <= j < i ==> {
                            &&& entry_core_of(f, j) == Some(
                                entry_core_v(#[trigger] entries@[j]),
                            )
                            &&& views_of(entries@[j].authors@) == entry_authors_of(f, j)
                            &&& links_v(entries@[j].links@) == entry_links_of(f, j)
                        },
                decreases n - i,
            {
                match entry_core_at(&f, i) {
                    Some(mut e) => {
                        e.authors = entry_authors_at(&f, i);
                        e.links = entry_links_at(&f, i);
                        proof {
                            assert(entry_core_v(e) == entry_core_of(f, i as int)->0);
                        }
                        entries.push(e);
                    },
                    None => {
                        proof {
                            assert(false);
                        }
                    },
                }
                i = i + 1;
            }
            let doc = FeedDocument { title, links, entries };
            proof {
                assert(parse_document_post(doc, f));
            }
            Some(doc)
        },
        None => None,
    }
}

} // verus!
