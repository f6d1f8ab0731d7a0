use plato_feed::client::{NetClient, PERMIT_CEILING};
use plato_feed::error::FeedError;
use plato_feed::feedparse::parse_document;
use plato_feed::selector::{narrow_tokens, parse_selector, split_ws};
use plato_feed::settings::{Instance, InstanceDirectory, Settings};
use plato_feed::html::{serialize_tokens, tokenize};

fn s(x: &str) -> Vec<u8> {
    x.as_bytes().to_vec()
}

fn leaf(url: &str) -> InstanceDirectory {
    let mut i = Instance::default();
    i.url = s(url);
    InstanceDirectory::Leaf(i)
}

#[test]
fn defaults() {
    let st = Settings::default();
    assert_eq!(st.concurrent_requests, 5);
    assert!(st.use_server_name_directories);
    assert!(st.servers.is_empty());
    let i = Instance::default();
    assert!(i.include_images);
    assert_eq!(i.download_full_article, None);
    assert!(i.enable_filter);
}

#[test]
fn flatten_leaf_with_server_directories() {
    let mut st = Settings::default();
    st.servers.push((s("news"), leaf("https://n/feed")));
    let servers = st.flatten_servers(s("save"));
    assert_eq!(servers.len(), 1);
    assert_eq!(servers[0].server, s("news"));
    assert_eq!(servers[0].dir, s("save/news"));
    assert_eq!(servers[0].instance.url, s("https://n/feed"));
}

#[test]
fn flatten_leaf_without_server_directories() {
    let mut st = Settings::default();
    st.use_server_name_directories = false;
    st.servers.push((s("news"), leaf("u")));
    let servers = st.flatten_servers(s("save"));
    assert_eq!(servers[0].dir, s("save"));
}

#[test]
fn flatten_nested_groups_accumulate_directories() {
    let group = InstanceDirectory::Parent(vec![
        (s("alpha"), leaf("a")),
        (s("inner"), InstanceDirectory::Parent(vec![(s("beta"), leaf("b"))])),
    ]);
    let mut st = Settings::default();
    st.servers.push((s("group"), group));
    let servers = st.flatten_servers(s("root"));
    assert_eq!(servers.len(), 2);
    assert_eq!(servers[0].server, s("alpha"));
    assert_eq!(servers[0].dir, s("root/group/alpha"));
    assert_eq!(servers[1].server, s("beta"));
    assert_eq!(servers[1].dir, s("root/group/inner/beta"));
}

#[test]
fn client_clamps_permit_count() {
    let c = NetClient::new(3);
    assert_eq!(c.max_permits, 3);
    assert_eq!(c.available, 3);
    assert!(!c.cancelled);
    let big = NetClient::new(u64::MAX);
    assert_eq!(big.max_permits, PERMIT_CEILING);
}

#[test]
fn fetch_succeeds_when_signal_clear() {
    let mut c = NetClient::new(2);
    let r = c.run_fetch(false, true, false, true, false);
    assert_eq!(r, Ok(()));
    assert_eq!(c.available, 2);
}

#[test]
fn fetch_fails_on_transport_error() {
    let mut c = NetClient::new(1);
    assert_eq!(c.run_fetch(false, false, false, true, false), Err(FeedError::Network));
    assert_eq!(c.run_fetch(false, true, false, false, false), Err(FeedError::Network));
    assert_eq!(c.available, 1);
}

// Termination signal set after the permit was acquired but before the
// headers arrive: the fetch is cancelled and the permit is released.
#[test]
fn cancel_between_permit_and_headers() {
    let mut c = NetClient::new(2);
    let r = c.run_fetch(false, true, true, true, true);
    assert_eq!(r, Err(FeedError::Cancelled));
    assert_eq!(c.available, 2, "permit must be back in the pool");
}

#[test]
fn cancel_observed_at_first_checkpoint() {
    let mut c = NetClient::new(1);
    c.set_cancelled();
    assert!(c.cancelled);
    let r = c.run_fetch(true, true, true, true, true);
    assert_eq!(r, Err(FeedError::Cancelled));
    assert_eq!(c.available, 1);
}

#[test]
fn parse_selector_forms() {
    let sel = parse_selector(&s("div#main")).unwrap();
    assert_eq!(sel.tag, Some(s("div")));
    assert_eq!(sel.id, Some(s("main")));
    assert!(sel.classes.is_empty());

    let sel = parse_selector(&s(".content")).unwrap();
    assert_eq!(sel.tag, None);
    assert_eq!(sel.classes, vec![s("content")]);

    let sel = parse_selector(&s("article")).unwrap();
    assert_eq!(sel.tag, Some(s("article")));

    let sel = parse_selector(&s("#x.y.z")).unwrap();
    assert_eq!(sel.id, Some(s("x")));
    assert_eq!(sel.classes, vec![s("y"), s("z")]);

    assert!(parse_selector(&s("")).is_none());
    assert!(parse_selector(&s("a b")).is_none());
    assert!(parse_selector(&s("p > a")).is_none());
    assert!(parse_selector(&s("a[href]")).is_none());
}

#[test]
fn split_ws_tokens() {
    assert_eq!(split_ws(&s("a b  c")), vec![s("a"), s("b"), s("c")]);
    assert_eq!(split_ws(&s("  x ")), vec![s("x")]);
    assert_eq!(split_ws(&s("")), Vec::<Vec<u8>>::new());
}

fn narrow_str(doc: &str, sel: &str) -> String {
    let toks = tokenize(&s(doc));
    let sels = vec![parse_selector(&s(sel)).unwrap()];
    let out = narrow_tokens(toks, &sels);
    String::from_utf8(serialize_tokens(&out)).unwrap()
}

#[test]
fn narrowing_picks_first_matching_element() {
    let doc = "<body><nav>n</nav><main>Main Content!</main><div id=\"footer\">f</div></body>";
    assert_eq!(narrow_str(doc, "main"), "<main>Main Content!</main>");
}

#[test]
fn narrowing_by_id_and_class() {
    let doc = "<div id=\"a\">x</div><div id=\"custom\">Included!</div>";
    assert_eq!(narrow_str(doc, "#custom"), "<div id=\"custom\">Included!</div>");
    let doc2 = "<p class=\"intro lead\">a</p><p class=\"body\">b</p>";
    assert_eq!(narrow_str(doc2, ".lead"), "<p class=\"intro lead\">a</p>");
}

#[test]
fn narrowing_without_match_keeps_document() {
    let doc = "<p>only</p>";
    assert_eq!(narrow_str(doc, "article"), doc);
}

#[test]
fn narrowing_handles_nested_same_name_elements() {
    let doc = "<div id=\"w\"><div>inner</div></div><p>after</p>";
    assert_eq!(narrow_str(doc, "#w"), "<div id=\"w\"><div>inner</div></div>");
}

#[test]
fn parse_atom_document() {
    let atom = "<?xml version=\"1.0\" encoding=\"utf-8\"?>\
<feed xmlns=\"http://www.w3.org/2005/Atom\">\
<title>My Feed</title>\
<link href=\"https://example.com/\" type=\"text/html\"/>\
<id>urn:feed</id>\
<updated>2024-01-01T00:00:00Z</updated>\
<entry>\
<id>entry-1</id>\
<title>Post</title>\
<updated>2024-01-01T00:00:00Z</updated>\
<author><name>Ann</name></author>\
<link href=\"https://example.com/post\" type=\"text/html\"/>\
<content type=\"html\">&lt;p&gt;hi&lt;/p&gt;</content>\
</entry></feed>";
    let doc = parse_document(&s(atom)).expect("well-formed feed");
    assert_eq!(doc.title, Some(s("My Feed")));
    assert_eq!(doc.links.len(), 1);
    assert_eq!(doc.links[0].href, s("https://example.com/"));
    assert_eq!(doc.entries.len(), 1);
    let e = &doc.entries[0];
    assert_eq!(e.id, s("entry-1"));
    assert_eq!(e.title, Some(s("Post")));
    assert_eq!(e.updated, Some(1704067200));
    assert_eq!(e.authors, vec![s("Ann")]);
    assert_eq!(e.content_body, Some(s("<p>hi</p>")));
    assert_eq!(e.links[0].href, s("https://example.com/post"));
    assert_eq!(e.links[0].media_type, Some(s("text/html")));
}

#[test]
fn malformed_feed_is_rejected() {
    assert!(parse_document(&s("this is not a feed")).is_none());
}
