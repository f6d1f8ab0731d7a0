use plato_feed::epub::{package_artifact, ArtifactMeta};
use plato_feed::feed::FeedEntry;
use plato_feed::html::rewrite_imgs;
use plato_feed::mimetype::{resolve_mime, resource_path};
use plato_feed::pipeline::{
    artifact_filename, build_embeds, completion_event, escape_html, plan_entry, prepare_article,
    rel_path, title_page, FetchedImage,
};
use plato_feed::urlres::{ext_of_path, feed_base_host, resolve_img_url};

fn s(x: &str) -> Vec<u8> {
    x.as_bytes().to_vec()
}

fn txt(v: Vec<u8>) -> String {
    String::from_utf8(v).unwrap()
}

#[test]
fn escape_exact() {
    assert_eq!(txt(escape_html(&s("a<b&c\"d>e"))), "a&lt;b&amp;c&quot;d&gt;e");
    assert_eq!(escape_html(&s("plain")), s("plain"));
    assert_eq!(escape_html(&Vec::new()), Vec::<u8>::new());
}

#[test]
fn title_page_exact() {
    let page = title_page(&s("T"), &s("A"), &s("P"), &s("http://p/"), &s("http://e/"));
    assert_eq!(
        txt(page),
        "<!DOCTYPE html><html><head></head><body><h1>T</h1><p>A</p>\
         <p><a href=\"http://p/\">P</a></p>\
         <p><a href=\"http://e/\">http://e/</a></p></body></html>"
    );
}

#[test]
fn title_page_omits_author_equal_to_publisher() {
    let page = txt(title_page(&s("T"), &s("Same"), &s("Same"), &s(""), &s("")));
    assert!(!page.contains("<p>Same</p>"));
    assert!(page.contains("<a href=\"\">Same</a>"));
}

#[test]
fn title_page_escapes_markup_in_title() {
    let page = txt(title_page(&s("a<b>"), &s("x"), &s("y"), &s(""), &s("")));
    assert!(page.contains("<h1>a&lt;b&gt;</h1>"));
}

// Known-answer test: the file name is the compact date, a dash, the SHA-256
// digest of the identifier in hex, and the package extension.
#[test]
fn filename_known_answer() {
    let name = txt(artifact_filename(&s("hello"), 0));
    assert_eq!(
        name,
        "19700101T000000-2cf24dba5fb0a30e26e83b2ac5b9e29e1b161e5c1fa7425e73043362938b9824.epub"
    );
}

#[test]
fn filename_is_deterministic_and_date_sensitive() {
    let a = artifact_filename(&s("id-1"), 86400);
    let b = artifact_filename(&s("id-1"), 86400);
    assert_eq!(a, b);
    assert!(txt(a).starts_with("19700102T000000-"));
    let c = artifact_filename(&s("id-2"), 86400);
    assert_ne!(artifact_filename(&s("id-1"), 86400), c);
}

#[test]
fn rel_path_cases() {
    assert_eq!(rel_path(&s("root/a/b.epub"), &s("root")), Some(s("a/b.epub")));
    assert_eq!(rel_path(&s("root"), &s("root")), Some(s("")));
    assert_eq!(rel_path(&s("other/a"), &s("root")), None);
    assert_eq!(rel_path(&s("rootx/a"), &s("root")), None);
    assert_eq!(rel_path(&s("x"), &s("")), Some(s("x")));
}

#[test]
fn plan_entry_fields() {
    let e = FeedEntry {
        id: s("the-id"),
        title: None,
        summary: None,
        content_body: None,
        published: Some(0),
        updated: Some(999),
        authors: vec![s("Ann"), s(""), s("Ben")],
        links: Vec::new(),
    };
    let plan = plan_entry(&e, &None, &s("Pub"), 12345);
    assert_eq!(plan.authors, vec![s("Ann"), s("Ben")]);
    assert_eq!(plan.author_line, s("Ann, Ben"));
    assert_eq!(plan.date, 0);
    assert_eq!(plan.year, s("1970"));
    assert_eq!(plan.title, s("the-id"));
    // 15 bytes of date, dash, 64 hex digits, ".epub"
    assert_eq!(plan.filename.len(), 15 + 1 + 64 + 5);
    assert!(txt(plan.filename).starts_with("19700101T000000-"));
}

#[test]
fn ext_of_path_cases() {
    assert_eq!(ext_of_path(&s("/dir/a.jpg")), Some(s("jpg")));
    assert_eq!(ext_of_path(&s("/a.tar.gz")), Some(s("gz")));
    assert_eq!(ext_of_path(&s("a.b.cd")), Some(s("b.cd")));
    assert_eq!(ext_of_path(&s("/plain")), None);
    assert_eq!(ext_of_path(&s("/dot.")), None);
    assert_eq!(ext_of_path(&s("/x.toolong")), None);
    assert_eq!(ext_of_path(&s("/x.a")), None);
}

#[test]
fn url_resolution_absolute_and_relative() {
    let abs = resolve_img_url(&s("https://example.com/x/y.png"), &None).unwrap();
    assert_eq!(abs.0, s("https://example.com/x/y.png"));
    assert_eq!(abs.1, s("/x/y.png"));

    let rel = resolve_img_url(&s("a.jpg"), &Some(s("https://example.com/dir/"))).unwrap();
    assert_eq!(rel.0, s("https://example.com/dir/a.jpg"));
    assert_eq!(rel.1, s("/dir/a.jpg"));

    assert_eq!(resolve_img_url(&s("a.jpg"), &None), None);
    // a bare host name is not an absolute URL, so it cannot serve as a base
    assert_eq!(resolve_img_url(&s("a.jpg"), &Some(s("example.com"))), None);
}

#[test]
fn feed_base_host_extracts_domain() {
    assert_eq!(feed_base_host(&s("https://example.com/feed.xml")), Some(s("example.com")));
    assert_eq!(feed_base_host(&s("not a url")), None);
}

#[test]
fn mime_resolution_prefers_header() {
    assert_eq!(resolve_mime(&Some(s("image/png")), &Some(s("jpg"))), Some(s("image/png")));
    assert_eq!(resolve_mime(&None, &Some(s("jpg"))), Some(s("image/jpeg")));
    assert_eq!(resolve_mime(&None, &None), None);
}

#[test]
fn resource_path_uses_url_extension_first() {
    assert_eq!(resource_path(0, &Some(s("jpg")), &Some(s("image/png"))), s("0.jpg"));
    assert_eq!(resource_path(12, &Some(s("png")), &None), s("12.png"));
}

#[test]
fn prepare_article_without_images_collects_nothing() {
    let (_toks, srcs) = prepare_article(&s("<p><img src=\"a.jpg\"></p>"), false, &None, false);
    assert!(srcs.is_empty());
}

#[test]
fn build_embeds_assigns_ordinals_over_fetch_order() {
    let fetches = vec![
        FetchedImage { raw_src: s("bad.jpg"), ext: Some(s("jpg")), outcome: None },
        FetchedImage {
            raw_src: s("good.png"),
            ext: Some(s("png")),
            outcome: Some((vec![1, 2, 3], Some(s("image/png")))),
        },
    ];
    let (resources, map) = build_embeds(fetches);
    assert_eq!(resources.len(), 1);
    assert_eq!(resources[0].path, s("1.png"));
    assert_eq!(resources[0].data, vec![1, 2, 3]);
    assert_eq!(resources[0].mime, s("image/png"));
    assert_eq!(map, vec![(s("good.png"), s("1.png"))]);
}

#[test]
fn build_embeds_drops_image_without_media_type() {
    let fetches = vec![FetchedImage {
        raw_src: s("x"),
        ext: None,
        outcome: Some((vec![0], None)),
    }];
    let (resources, map) = build_embeds(fetches);
    assert!(resources.is_empty());
    assert!(map.is_empty());
}

// The concrete inline-content scenario: one entry whose markup holds an
// image and a script; the image fetch succeeds as image/jpeg. The body must
// hold the rewritten image, no script element, and the artifact embeds one
// resource named 0.jpg.
#[test]
fn inline_entry_with_image_and_script() {
    let html = s("<p>text<img src=\"a.jpg\"><script>evil()</script></p>");
    let (toks, srcs) = prepare_article(&html, false, &None, true);
    assert_eq!(srcs, vec![s("a.jpg")]);

    let fetches = vec![FetchedImage {
        raw_src: s("a.jpg"),
        ext: Some(s("jpg")),
        outcome: Some((vec![0xff, 0xd8], Some(s("image/jpeg")))),
    }];
    let (resources, map) = build_embeds(fetches);
    assert_eq!(resources.len(), 1);
    assert_eq!(resources[0].path, s("0.jpg"));

    let body = txt(rewrite_imgs(&toks, &map));
    assert!(body.contains("<img src=\"0.jpg\"/>"), "body was {body:?}");
    assert!(!body.contains("script"));
    assert!(!body.contains("a.jpg"));

    let meta = ArtifactMeta {
        title: s("T"),
        authors: vec![s("A")],
        pub_date: 0,
        description: Some(s("D")),
    };
    let page = title_page(&s("T"), &s("A"), &s("P"), &s(""), &s(""));
    let bytes = package_artifact(&meta, "plato-feed/1.0.0", &page, &body.into_bytes(), &resources)
        .expect("artifact packaging");
    assert!(bytes.len() > 0);
    // a zip archive starts with the local-file signature
    assert_eq!(&bytes[0..2], b"PK");
}

#[test]
fn completion_event_carries_plan_fields() {
    let e = FeedEntry {
        id: s("id"),
        title: Some(s("Title")),
        summary: None,
        content_body: None,
        published: Some(86400),
        updated: None,
        authors: vec![s("A")],
        links: Vec::new(),
    };
    let plan = plan_entry(&e, &None, &s("Pub"), 0);
    let ev = completion_event(&plan, &s("Pub"), &e.id, s("2024-01-01"), s("rel/x.epub"), 12);
    assert_eq!(ev.title, s("Title"));
    assert_eq!(ev.author, s("A"));
    assert_eq!(ev.year, s("1970"));
    assert_eq!(ev.publisher, s("Pub"));
    assert_eq!(ev.identifier, s("id"));
    assert_eq!(ev.added, s("2024-01-01"));
    assert_eq!(ev.path, s("rel/x.epub"));
    assert_eq!(ev.size, 12);
}

#[test]
fn prepare_article_narrows_with_user_selector() {
    let html = s(
        "<html><body><nav>skip<br></nav>\
         <div id=\"story\">keep<img src=\"i.png\"><script>no()</script></div>\
         <footer>skip</footer></body></html>",
    );
    let (toks, srcs) = prepare_article(&html, true, &Some(s("#story")), true);
    let text = txt(plato_feed::html::serialize_tokens(&toks));
    assert_eq!(text, "<div id=\"story\">keep<img src=\"i.png\"></div>");
    assert_eq!(srcs, vec![s("i.png")]);
}

#[test]
fn prepare_article_falls_back_to_default_selectors() {
    let html = s("<body><nav>n</nav><main>Main Content!</main></body>");
    let (toks, _) = prepare_article(&html, true, &None, false);
    assert_eq!(txt(plato_feed::html::serialize_tokens(&toks)), "<main>Main Content!</main>");
}

#[test]
fn prepare_article_unmatched_filter_keeps_whole_document() {
    let html = s("<p>a<br>b</p>");
    let (toks, _) = prepare_article(&html, true, &Some(s("#nothing-here")), false);
    assert_eq!(txt(plato_feed::html::serialize_tokens(&toks)), "<p>ab</p>");
}

#[test]
fn title_page_escapes_attribute_quotes() {
    let page = txt(title_page(&s("t"), &s("a"), &s("p"), &s("x\"y"), &s("")));
    assert!(page.contains("href=\"x&quot;y\""));
}

#[test]
fn user_selector_takes_precedence_over_fallback_list() {
    // both the caller's selector and a fallback selector match; the caller's
    // selector is tried first and wins
    let html = s("<article>fallback</article><div class=\"content\">mine</div>");
    let (toks, _) = prepare_article(&html, true, &Some(s(".content")), false);
    assert_eq!(
        txt(plato_feed::html::serialize_tokens(&toks)),
        "<div class=\"content\">mine</div>"
    );
}

#[test]
fn malformed_user_selector_falls_back() {
    let html = s("<article>fallback</article><div class=\"content\">mine</div>");
    let (toks, _) = prepare_article(&html, true, &Some(s("div > p")), false);
    assert_eq!(txt(plato_feed::html::serialize_tokens(&toks)), "<article>fallback</article>");
}
