//! Artifact packaging: trusted wrappers around the e-book builder, and the
//! verified assembly that records the artifact's metadata, its two chapter
//! documents, and every embedded resource under its assigned path.

use vstd::prelude::*;

use crate::error::FeedError;
use crate::feed::views_of;
use crate::timefmt::{clamp_epoch, clamp_epoch_spec, MAX_FORMAT_EPOCH};

verus! {

/// The package builder. It holds the outside crate's builder; the generic
/// zip trait of that crate is not public, so the type cannot be declared to
/// the verifier and is held opaque here instead.
#[verifier::external_body]
pub struct ArtifactBuilder {
    inner: epub_builder::EpubBuilder<epub_builder::ZipLibrary>,
}

/// The resources registered in a builder, in registration order, as
/// `(path, data, media type)` triples; what `add_resource` appends to and
/// `new` leaves empty.
pub uninterp spec fn builder_resources(b: ArtifactBuilder) -> Seq<(Seq<u8>, Seq<u8>, Seq<u8>)>;

/// The chapter documents added to a builder, in order; what `add_content`
/// appends to and `new` leaves empty.
pub uninterp spec fn builder_documents(b: ArtifactBuilder) -> Seq<Seq<u8>>;

/// The title recorded in the builder's metadata.
pub uninterp spec fn builder_title(b: ArtifactBuilder) -> Seq<u8>;

/// The author list recorded in the builder's metadata.
pub uninterp spec fn builder_authors(b: ArtifactBuilder) -> Seq<Seq<u8>>;

/// The generator recorded in the builder's metadata.
pub uninterp spec fn builder_generator(b: ArtifactBuilder) -> Seq<char>;

/// The publication date recorded in the builder's metadata, as an epoch
/// timestamp, `None` while unset.
pub uninterp spec fn builder_pub_date(b: ArtifactBuilder) -> Option<int>;

/// The descriptions recorded in the builder's metadata; what
/// `add_description` appends to and `new` leaves empty.
pub uninterp spec fn builder_description(b: ArtifactBuilder) -> Seq<Seq<u8>>;

/// What std's lossy UTF-8 decoding makes of given bytes, as the bytes of the
/// decoded text; a function of the bytes alone, the identity on valid UTF-8.
/// The metadata setters hand text through it.
pub uninterp spec fn lossy_utf8(s: Seq<u8>) -> Seq<u8>;

/// The lossy decoding of each byte string in a list.
pub open spec fn lossy_list(vs: Seq<Seq<u8>>) -> Seq<Seq<u8>> {
    Seq::new(vs.len(), |i: int| lossy_utf8(vs[i]))
}

/// Relies on epub_builder::EpubBuilder::new (with ZipLibrary::new): a fresh
/// builder holds no resources, no chapter documents and no descriptions.
#[verifier::external_body]
pub(crate) fn new_builder() -> (r: Result<ArtifactBuilder, FeedError>)
    ensures
        r matches Ok(b) ==> {
            &&& builder_resources(b) == Seq::<(Seq<u8>, Seq<u8>, Seq<u8>)>::empty()
            &&& builder_documents(b) == Seq::<Seq<u8>>::empty()
            &&& builder_description(b) == Seq::<Seq<u8>>::empty()
        },
{
    match epub_builder::ZipLibrary::new() {
        Ok(z) => match epub_builder::EpubBuilder::new(z) {
            Ok(b) => Ok(ArtifactBuilder { inner: b }),
            Err(_) => Err(FeedError::Persistence),
        },
        Err(_) => Err(FeedError::Persistence),
    }
}

/// Relies on EpubBuilder::set_authors: records the author list (decoded
/// lossily from bytes); everything else is untouched.
#[verifier::external_body]
pub(crate) fn set_authors(b: &mut ArtifactBuilder, authors: &Vec<Vec<u8>>)
    ensures
        builder_authors(*final(b)) == lossy_list(views_of(authors@)),
        builder_resources(*final(b)) == builder_resources(*old(b)),
        builder_documents(*final(b)) == builder_documents(*old(b)),
        builder_title(*final(b)) == builder_title(*old(b)),
        builder_generator(*final(b)) == builder_generator(*old(b)),
        builder_pub_date(*final(b)) == builder_pub_date(*old(b)),
        builder_description(*final(b)) == builder_description(*old(b)),
{
    b.inner.set_authors(authors.iter().map(|a| String::from_utf8_lossy(a).into_owned()).collect());
}

/// Relies on EpubBuilder::set_generator: records the generator; everything
/// else is untouched.
#[verifier::external_body]
pub(crate) fn set_generator(b: &mut ArtifactBuilder, generator: &str)
    ensures
        builder_generator(*final(b)) == generator@,
        builder_resources(*final(b)) == builder_resources(*old(b)),
        builder_documents(*final(b)) == builder_documents(*old(b)),
        builder_title(*final(b)) == builder_title(*old(b)),
        builder_authors(*final(b)) == builder_authors(*old(b)),
        builder_pub_date(*final(b)) == builder_pub_date(*old(b)),
        builder_description(*final(b)) == builder_description(*old(b)),
{
    b.inner.set_generator(generator);
}

/// Relies on EpubBuilder::set_title: records the title (decoded lossily
/// from bytes); everything else is untouched.
#[verifier::external_body]
pub(crate) fn set_title(b: &mut ArtifactBuilder, title: &Vec<u8>)
    ensures
        builder_title(*final(b)) == lossy_utf8(title@),
        builder_resources(*final(b)) == builder_resources(*old(b)),
        builder_documents(*final(b)) == builder_documents(*old(b)),
        builder_authors(*final(b)) == builder_authors(*old(b)),
        builder_generator(*final(b)) == builder_generator(*old(b)),
        builder_pub_date(*final(b)) == builder_pub_date(*old(b)),
        builder_description(*final(b)) == builder_description(*old(b)),
{
    b.inner.set_title(String::from_utf8_lossy(title).into_owned());
}

/// Relies on EpubBuilder::set_publication_date, with chrono's
/// `DateTime::from_timestamp` converting the epoch value — `Some` within the
/// admitted range, so the date is always recorded; everything else is
/// untouched.
#[verifier::external_body]
pub(crate) fn set_publication_date(b: &mut ArtifactBuilder, epoch: i64)
    requires
        0 <= epoch <= MAX_FORMAT_EPOCH,
    ensures
        builder_pub_date(*final(b)) == Some(epoch as int),
        builder_resources(*final(b)) == builder_resources(*old(b)),
        builder_documents(*final(b)) == builder_documents(*old(b)),
        builder_title(*final(b)) == builder_title(*old(b)),
        builder_authors(*final(b)) == builder_authors(*old(b)),
        builder_generator(*final(b)) == builder_generator(*old(b)),
        builder_description(*final(b)) == builder_description(*old(b)),
{
    if let Some(dt) = chrono::DateTime::<chrono::Utc>::from_timestamp(epoch, 0) {
        b.inner.set_publication_date(dt);
    }
}

/// Relies on EpubBuilder::add_description: appends a description (decoded
/// lossily from bytes); everything else is untouched.
#[verifier::external_body]
pub(crate) fn add_description(b: &mut ArtifactBuilder, description: &Vec<u8>)
    ensures
        builder_description(*final(b)) == builder_description(*old(b)).push(
            lossy_utf8(description@),
        ),
        builder_resources(*final(b)) == builder_resources(*old(b)),
        builder_documents(*final(b)) == builder_documents(*old(b)),
        builder_title(*final(b)) == builder_title(*old(b)),
        builder_authors(*final(b)) == builder_authors(*old(b)),
        builder_generator(*final(b)) == builder_generator(*old(b)),
        builder_pub_date(*final(b)) == builder_pub_date(*old(b)),
{
    b.inner.add_description(String::from_utf8_lossy(description).into_owned());
}

/// Relies on EpubBuilder::add_content: on success the chapter document is
/// appended with exactly the given bytes; on failure nothing was added.
/// Resources and metadata are untouched either way.
#[verifier::external_body]
pub(crate) fn add_content(b: &mut ArtifactBuilder, href: &str, data: &Vec<u8>) -> (r: Result<
    (),
    FeedError,
>)
    ensures
        r is Ok ==> builder_documents(*final(b)) == builder_documents(*old(b)).push(data@),
        r is Err ==> builder_documents(*final(b)) == builder_documents(*old(b)),
        builder_resources(*final(b)) == builder_resources(*old(b)),
        builder_title(*final(b)) == builder_title(*old(b)),
        builder_authors(*final(b)) == builder_authors(*old(b)),
        builder_generator(*final(b)) == builder_generator(*old(b)),
        builder_pub_date(*final(b)) == builder_pub_date(*old(b)),
        builder_description(*final(b)) == builder_description(*old(b)),
{
    match b.inner.add_content(epub_builder::EpubContent::new(href, std::io::Cursor::new(data.clone()))) {
        Ok(_) => Ok(()),
        Err(_) => Err(FeedError::Persistence),
    }
}

/// Relies on EpubBuilder::add_resource: on success the resource is appended
/// with exactly the given path, data and media type (path and media type
/// must decode as UTF-8, else the call fails without registering anything);
/// on failure nothing was registered. Documents and metadata are untouched.
#[verifier::external_body]
pub(crate) fn add_resource(
    b: &mut ArtifactBuilder,
    path: &Vec<u8>,
    data: &Vec<u8>,
    mime: &Vec<u8>,
) -> (r: Result<(), FeedError>)
    ensures
        r is Ok ==> builder_resources(*final(b)) == builder_resources(*old(b)).push(
            (path@, data@, mime@),
        ),
        r is Err ==> builder_resources(*final(b)) == builder_resources(*old(b)),
        builder_documents(*final(b)) == builder_documents(*old(b)),
        builder_title(*final(b)) == builder_title(*old(b)),
        builder_authors(*final(b)) == builder_authors(*old(b)),
        builder_generator(*final(b)) == builder_generator(*old(b)),
        builder_pub_date(*final(b)) == builder_pub_date(*old(b)),
        builder_description(*final(b)) == builder_description(*old(b)),
{
    let path_s = match String::from_utf8(path.clone()) {
        Ok(s) => s,
        Err(_) => return Err(FeedError::Resource),
    };
    let mime_s = match String::from_utf8(mime.clone()) {
        Ok(s) => s,
        Err(_) => return Err(FeedError::Resource),
    };
    match b.inner.add_resource(&path_s, data.as_slice(), mime_s) {
        Ok(_) => Ok(()),
        Err(_) => Err(FeedError::Resource),
    }
}

/// Relies on EpubBuilder::generate: renders the package into bytes. The zip
/// stream is opaque; nothing is stated of the bytes.
#[verifier::external_body]
pub(crate) fn generate_bytes(b: ArtifactBuilder) -> (r: Result<Vec<u8>, FeedError>) {
    let mut out: Vec<u8> = Vec::new();
    match b.inner.generate(&mut out) {
        Ok(()) => Ok(out),
        Err(_) => Err(FeedError::Persistence),
    }
}

/// One embedded image, ready for packaging.
pub struct EmbeddedResource {
    pub path: Vec<u8>,
    pub data: Vec<u8>,
    pub mime: Vec<u8>,
}

/// The artifact metadata recorded in the package.
pub struct ArtifactMeta {
    pub title: Vec<u8>,
    pub authors: Vec<Vec<u8>>,
    pub pub_date: i64,
    pub description: Option<Vec<u8>>,
}

/// The `(path, data, media type)` triples of a resource list.
pub open spec fn resource_triples(rs: Seq<EmbeddedResource>) -> Seq<(Seq<u8>, Seq<u8>, Seq<u8>)> {
    Seq::new(rs.len(), |i: int| (rs[i].path@, rs[i].data@, rs[i].mime@))
}

/// Everything the package is owed to hold for the given inputs: the
/// metadata, the title page and article as its two chapter documents, and
/// every embedded resource with its path, fetched bytes and media type, in
/// collection order.
pub open spec fn packaged_post(
    b: ArtifactBuilder,
    meta: ArtifactMeta,
    generator: Seq<char>,
    title_page: Seq<u8>,
    article: Seq<u8>,
    resources: Seq<EmbeddedResource>,
) -> bool {
    &&& builder_resources(b) == resource_triples(resources)
    &&& builder_documents(b) == seq![title_page, article]
    &&& builder_title(b) == lossy_utf8(meta.title@)
    &&& builder_authors(b) == lossy_list(views_of(meta.authors@))
    &&& builder_generator(b) == generator
    &&& builder_pub_date(b) == Some(clamp_epoch_spec(meta.pub_date as int))
    &&& builder_description(b) == (match meta.description {
        Some(d) => seq![lossy_utf8(d@)],
        None => Seq::<Seq<u8>>::empty(),
    })
}

/// Build the package; on success the builder holds exactly what
/// `packaged_post` states.
pub fn build_artifact(
    meta: &ArtifactMeta,
    generator: &str,
    title_page: &Vec<u8>,
    article: &Vec<u8>,
    resources: &Vec<EmbeddedResource>,
) -> (r: Result<ArtifactBuilder, FeedError>)
    ensures
        r matches Ok(b) ==> packaged_post(
            b,
            *meta,
            generator@,
            title_page@,
            article@,
            resources@,
        ),
{
    let mut b = match new_builder() {
        Ok(b) => b,
        Err(e) => {
            return Err(e);
        },
    };
    set_authors(&mut b, &meta.authors);
    set_generator(&mut b, generator);
    set_title(&mut b, &meta.title);
    set_publication_date(&mut b, clamp_epoch(meta.pub_date));
    match &meta.description {
        Some(d) => add_description(&mut b, d),
        None => {},
    }
    match add_content(&mut b, "title.html", title_page) {
        Ok(()) => {},
        Err(e) => {
            return Err(e);
        },
    }
    match add_content(&mut b, "article.html", article) {
        Ok(()) => {},
        Err(e) => {
            return Err(e);
        },
    }
    proof {
        assert(builder_documents(b) =~= seq![title_page@, article@]);
    }
    let n = resources.len();
    let mut i: usize = 0;
    proof {
        assert(builder_resources(b) =~= resource_triples(resources@.subrange(0, 0)));
    }
    while i < n
        invariant
            i <= n,
            n == resources@.len(),
            builder_resources(b) == resource_triples(resources@.subrange(0, i as int)),
            builder_documents(b) == seq![title_page@, article@],
            builder_title(b) == lossy_utf8(meta.title@),
            builder_authors(b) == lossy_list(views_of(meta.authors@)),
            builder_generator(b) == generator@,
            builder_pub_date(b) == Some(clamp_epoch_spec(meta.pub_date as int)),
            builder_description(b) == (match meta.description {
                Some(d) => seq![lossy_utf8(d@)],
                None => Seq::<Seq<u8>>::empty(),
            }),
        decreases n - i,
    {
        match add_resource(&mut b, &resources[i].path, &resources[i].data, &resources[i].mime) {
            Ok(()) => {},
            Err(e) => {
                return Err(e);
            },
        }
        proof {
            assert(resource_triples(resources@.subrange(0, i + 1)) =~= resource_triples(
                resources@.subrange(0, i as int),
            ).push(
                (
                    resources@[i as int].path@,
                    resources@[i as int].data@,
                    resources@[i as int].mime@,
                ),
            ));
        }
        i = i + 1;
    }
    proof {
        assert(resources@.subrange(0, n as int) =~= resources@);
        assert(resource_triples(resources@.subrange(0, n as int)) =~= resource_triples(
            resources@,
        ));
    }
    Ok(b)
}

/// Package the artifact into its final bytes: assemble it and render the
/// container. On success, a builder holding exactly what `packaged_post`
/// states — the metadata, the two chapter documents, and every embedded
/// resource with its path, data and media type — was rendered; the container
/// bytes themselves are opaque.
pub fn package_artifact(
    meta: &ArtifactMeta,
    generator: &str,
    title_page: &Vec<u8>,
    article: &Vec<u8>,
    resources: &Vec<EmbeddedResource>,
) -> (r: Result<Vec<u8>, FeedError>)
    ensures
        r is Ok ==> exists|b: ArtifactBuilder|
            #[trigger] packaged_post(b, *meta, generator@, title_page@, article@, resources@),
{
    match build_artifact(meta, generator, title_page, article, resources) {
        Ok(b) => {
            let ghost gb = b;
            let out = generate_bytes(b);
            proof {
                assert(packaged_post(gb, *meta, generator@, title_page@, article@, resources@));
            }
            out
        },
        Err(e) => Err(e),
    }
}

} // verus!
