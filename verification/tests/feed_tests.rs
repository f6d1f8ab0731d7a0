use plato_feed::error::FeedError;
use plato_feed::feed::{
    find_link, join_bytes, program_name, resolve_authors, resolve_date, resolve_publisher,
    resolve_title, select_content_source, ContentSource, FeedEntry, FeedLink,
};

fn s(x: &str) -> Vec<u8> {
    x.as_bytes().to_vec()
}

fn link(href: &str, mt: Option<&str>) -> FeedLink {
    FeedLink { href: s(href), media_type: mt.map(s) }
}

fn entry(id: &str) -> FeedEntry {
    FeedEntry {
        id: s(id),
        title: None,
        summary: None,
        content_body: None,
        published: None,
        updated: None,
        authors: Vec::new(),
        links: Vec::new(),
    }
}

#[test]
fn program_name_value() {
    assert_eq!(program_name(), "plato-feed/1.0.0");
}

#[test]
fn find_link_prefers_html_media_type() {
    let links = vec![
        link("a", Some("application/json")),
        link("b", None),
        link("c", Some("text/html")),
        link("d", Some("application/xhtml+xml")),
    ];
    assert_eq!(find_link(&links), Some(2));
}

#[test]
fn find_link_falls_back_to_untyped() {
    let links = vec![link("a", Some("application/json")), link("b", None), link("c", None)];
    assert_eq!(find_link(&links), Some(1));
}

#[test]
fn find_link_falls_back_to_first() {
    let links = vec![link("a", Some("application/json")), link("b", Some("image/png"))];
    assert_eq!(find_link(&links), Some(0));
}

#[test]
fn find_link_none_without_links() {
    assert_eq!(find_link(&Vec::new()), None);
}

#[test]
fn policy_always_fetches_best_link() {
    let mut e = entry("id");
    e.content_body = Some(s("<p>inline</p>"));
    e.links = vec![link("x", None), link("y", Some("text/html"))];
    match select_content_source(Some(true), &e) {
        Ok(ContentSource::Article { link_index }) => assert_eq!(link_index, 1),
        other => panic!("expected article source, got {other:?}"),
    }
}

#[test]
fn policy_always_without_link_is_no_link() {
    let mut e = entry("id");
    e.content_body = Some(s("body"));
    assert_eq!(select_content_source(Some(true), &e), Err(FeedError::NoLink));
}

#[test]
fn policy_uses_inline_content_when_present() {
    let mut e = entry("id");
    e.content_body = Some(s("<p>inline</p>"));
    e.links = vec![link("x", None)];
    assert_eq!(select_content_source(None, &e), Ok(ContentSource::Inline));
    assert_eq!(select_content_source(Some(false), &e), Ok(ContentSource::Inline));
}

#[test]
fn policy_ignores_empty_inline_body() {
    let mut e = entry("id");
    e.content_body = Some(Vec::new());
    e.links = vec![link("x", None)];
    match select_content_source(None, &e) {
        Ok(ContentSource::Article { link_index }) => assert_eq!(link_index, 0),
        other => panic!("expected article source, got {other:?}"),
    }
}

// downloadFullArticle = never and no inline content: the entry reports
// NoContent.
#[test]
fn policy_never_without_content_is_no_content() {
    let mut e = entry("id");
    e.links = vec![link("x", None)];
    assert_eq!(select_content_source(Some(false), &e), Err(FeedError::NoContent));
}

#[test]
fn policy_fallback_fetch_without_link_is_no_link() {
    let e = entry("id");
    assert_eq!(select_content_source(None, &e), Err(FeedError::NoLink));
}

#[test]
fn authors_drop_empty_names() {
    let authors = vec![s("Ann"), s(""), s("Ben")];
    let r = resolve_authors(&authors, &None, &s("Pub"));
    assert_eq!(r, vec![s("Ann"), s("Ben")]);
}

#[test]
fn authors_fall_back_to_default_author() {
    let r = resolve_authors(&Vec::new(), &Some(s("Default")), &s("Pub"));
    assert_eq!(r, vec![s("Default")]);
}

#[test]
fn empty_default_author_suppresses_authorship() {
    let r = resolve_authors(&Vec::new(), &Some(Vec::new()), &s("Pub"));
    assert!(r.is_empty());
}

#[test]
fn authors_fall_back_to_publisher() {
    let r = resolve_authors(&Vec::new(), &None, &s("Pub"));
    assert_eq!(r, vec![s("Pub")]);
}

#[test]
fn join_with_separator() {
    assert_eq!(join_bytes(&vec![s("a"), s("b"), s("c")], &s(", ")), s("a, b, c"));
    assert_eq!(join_bytes(&vec![s("only")], &s(", ")), s("only"));
    assert_eq!(join_bytes(&Vec::new(), &s(", ")), Vec::<u8>::new());
}

#[test]
fn date_prefers_published_then_updated_then_now() {
    assert_eq!(resolve_date(Some(1), Some(2), 3), 1);
    assert_eq!(resolve_date(None, Some(2), 3), 2);
    assert_eq!(resolve_date(None, None, 3), 3);
}

#[test]
fn title_falls_back_to_identifier() {
    assert_eq!(resolve_title(&Some(s("T")), &s("id")), s("T"));
    assert_eq!(resolve_title(&None, &s("id")), s("id"));
}

#[test]
fn publisher_falls_back_to_server_name() {
    assert_eq!(resolve_publisher(&Some(s("Feed Title")), &s("srv")), s("Feed Title"));
    assert_eq!(resolve_publisher(&None, &s("srv")), s("srv"));
}
