use plato_feed::html::{
    collect_img_srcs, lookup_assoc, rewrite_imgs, serialize_tokens, strip_noise, tokenize,
};

fn s(x: &str) -> Vec<u8> {
    x.as_bytes().to_vec()
}

fn clean(x: &str) -> String {
    let toks = strip_noise(tokenize(&s(x)));
    String::from_utf8(serialize_tokens(&toks)).unwrap()
}

#[test]
fn tokenize_serializes_back_exactly() {
    for input in [
        "<p>hello</p>",
        "plain text only",
        "<!DOCTYPE html><html><body>x</body></html>",
        "<!-- comment --><p a=\"1\" b='2' c=3>t</p>",
        "broken <tag without end",
        "<img src=\"a.jpg\">",
        "<script>if(a<b){x()}</script>",
        "",
    ] {
        let toks = tokenize(&s(input));
        assert_eq!(serialize_tokens(&toks), s(input), "round trip failed for {input:?}");
    }
}

#[test]
fn noise_removal_drops_void_noise_tags() {
    assert_eq!(clean("<p>a<br>b</p>"), "<p>ab</p>");
    assert_eq!(clean("<p>a<hr/>b</p>"), "<p>ab</p>");
    assert_eq!(clean("a<input type=\"text\">b"), "ab");
    assert_eq!(clean("a<source src=\"x\">b"), "ab");
}

#[test]
fn noise_removal_drops_container_elements_with_content() {
    assert_eq!(clean("<div>keep<script>evil()</script>more</div>"), "<div>keepmore</div>");
    assert_eq!(clean("<div><style>p { color: red }</style>x</div>"), "<div>x</div>");
    assert_eq!(clean("a<iframe src=\"x\"><p>inner</p></iframe>b"), "ab");
    assert_eq!(clean("a<form><input name=\"q\"><button>go</button></form>b"), "ab");
}

#[test]
fn noise_removal_handles_markup_inside_script() {
    assert_eq!(clean("<div><script>if(a<b){document.write(\"<p>\")}</script>t</div>"), "<div>t</div>");
}

#[test]
fn noise_removal_is_unconditional_over_all_eight() {
    let input = "<p>x</p><br><hr><iframe>i</iframe><form>f</form><input><script>s</script><source><style>c</style><p>y</p>";
    assert_eq!(clean(input), "<p>x</p><p>y</p>");
}

#[test]
fn collect_imgs_in_document_order() {
    let toks = tokenize(&s("<p><img src=\"one.png\">text<img alt=\"no src\"><img src=\"two.gif\"/></p>"));
    let srcs = collect_img_srcs(&toks);
    assert_eq!(srcs, vec![s("one.png"), s("two.gif")]);
}

#[test]
fn rewrite_replaces_embedded_image() {
    let toks = tokenize(&s("<p><img src=\"a.jpg\"></p>"));
    let map = vec![(s("a.jpg"), s("0.jpg"))];
    let out = rewrite_imgs(&toks, &map);
    assert_eq!(String::from_utf8(out).unwrap(), "<p><img src=\"0.jpg\"/></p>");
}

// An image whose URL was never embedded is removed entirely, never left
// with its original remote reference.
#[test]
fn rewrite_drops_unembedded_image() {
    let toks = tokenize(&s("<p>a<img src=\"http://远.example/b.png\">c</p>"));
    let out = rewrite_imgs(&toks, &vec![]);
    let text = String::from_utf8(out).unwrap();
    assert_eq!(text, "<p>ac</p>");
    assert!(!text.contains("b.png"));
}

#[test]
fn rewrite_keeps_image_without_src() {
    let toks = tokenize(&s("<p><img alt=\"decorative\"></p>"));
    let out = rewrite_imgs(&toks, &vec![]);
    assert_eq!(String::from_utf8(out).unwrap(), "<p><img alt=\"decorative\"></p>");
}

#[test]
fn rewrite_mixed_document() {
    let toks = tokenize(&s("<img src=\"keep\"><img src=\"drop\"><p>t</p>"));
    let map = vec![(s("keep"), s("0.png"))];
    let out = rewrite_imgs(&toks, &map);
    assert_eq!(String::from_utf8(out).unwrap(), "<img src=\"0.png\"/><p>t</p>");
}

#[test]
fn lookup_assoc_returns_first_binding() {
    let ps = vec![(s("k"), s("v1")), (s("k"), s("v2")), (s("x"), s("y"))];
    assert_eq!(lookup_assoc(&ps, &s("k")), Some(s("v1")));
    assert_eq!(lookup_assoc(&ps, &s("x")), Some(s("y")));
    assert_eq!(lookup_assoc(&ps, &s("missing")), None);
}

#[test]
fn attribute_parsing_feeds_src_lookup() {
    // single quotes, spacing around '=', unquoted values
    let toks = tokenize(&s("<img  alt = plain src = 'spaced.png' >"));
    let srcs = collect_img_srcs(&toks);
    assert_eq!(srcs, vec![s("spaced.png")]);
}

#[test]
fn uppercase_tag_names_are_normalized() {
    assert_eq!(clean("<P>a<BR>b</P>"), "<P>ab</P>");
    let toks = tokenize(&s("<IMG SRC=\"up.png\">"));
    assert_eq!(collect_img_srcs(&toks), vec![s("up.png")]);
}
