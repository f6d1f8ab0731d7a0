//! Media-type resolution for fetched images, and artifact-local resource
//! paths.

use vstd::prelude::*;

use crate::bytestr::{append_bytes, clone_bytes, dec_spec, u64_to_dec};

verus! {

/// The canonical serialization of a parsed media type, a function of the
/// header bytes alone; `None` when they do not parse as a media type.
pub uninterp spec fn canonical_mime(header: Seq<u8>) -> Option<Seq<u8>>;

/// The first media type guessed for a file extension, a function of the
/// extension alone (a static table).
pub uninterp spec fn mime_of_ext(ext: Seq<u8>) -> Option<Seq<u8>>;

/// The first file extension registered for a media type, a function of the
/// media type alone (a static table).
pub uninterp spec fn ext_of_mime(mime: Seq<u8>) -> Option<Seq<u8>>;

/// Relies on mime_guess::Mime::from_str: parses a media type header and
/// serializes the parsed value back.
#[verifier::external_body]
pub(crate) fn parse_mime(header: &Vec<u8>) -> (r: Option<Vec<u8>>)
    ensures
        match r {
            Some(v) => canonical_mime(header@) == Some(v@),
            None => canonical_mime(header@) is None,
        },
{
    match std::str::from_utf8(header.as_slice()) {
        Ok(t) => match <mime_guess::Mime as std::str::FromStr>::from_str(t) {
            Ok(m) => Some(m.to_string().into_bytes()),
            Err(_) => None,
        },
        Err(_) => None,
    }
}

/// Relies on mime_guess::from_ext: the first guess for a file extension.
#[verifier::external_body]
pub(crate) fn mime_from_ext(ext: &Vec<u8>) -> (r: Option<Vec<u8>>)
    ensures
        match r {
            Some(v) => mime_of_ext(ext@) == Some(v@),
            None => mime_of_ext(ext@) is None,
        },
{
    match std::str::from_utf8(ext.as_slice()) {
        Ok(t) => mime_guess::from_ext(t).first().map(|m| m.to_string().into_bytes()),
        Err(_) => None,
    }
}

/// Relies on mime_guess::get_mime_extensions: the first extension registered
/// for a media type.
#[verifier::external_body]
pub(crate) fn ext_from_mime(mime: &Vec<u8>) -> (r: Option<Vec<u8>>)
    ensures
        match r {
            Some(v) => ext_of_mime(mime@) == Some(v@),
            None => ext_of_mime(mime@) is None,
        },
{
    match std::str::from_utf8(mime.as_slice()) {
        Ok(t) => match <mime_guess::Mime as std::str::FromStr>::from_str(t) {
            Ok(m) => mime_guess::get_mime_extensions(&m).and_then(|e| e.first()).map(
                |x| x.as_bytes().to_vec(),
            ),
            Err(_) => None,
        },
        Err(_) => None,
    }
}

/// The media type of a fetched image: the server-reported content type where
/// it parses, else the guess from the URL's file extension, else nothing —
/// and an image without a media type fails, without failing its entry.
pub open spec fn resolve_mime_spec(header: Option<Seq<u8>>, ext: Option<Seq<u8>>) -> Option<
    Seq<u8>,
> {
    let from_header = match header {
        Some(h) => canonical_mime(h),
        None => None,
    };
    match from_header {
        Some(m) => Some(m),
        None => match ext {
            Some(e) => mime_of_ext(e),
            None => None,
        },
    }
}

/// Resolve a fetched image's media type; see `resolve_mime_spec`.
pub fn resolve_mime(header: &Option<Vec<u8>>, ext: &Option<Vec<u8>>) -> (r: Option<Vec<u8>>)
    ensures
        match r {
            Some(v) => resolve_mime_spec(opt_view(header), opt_view(ext)) == Some(v@),
            None => resolve_mime_spec(opt_view(header), opt_view(ext)) is None,
        },
{
    let from_header = match header {
        Some(h) => parse_mime(h),
        None => None,
    };
    match from_header {
        Some(m) => Some(m),
        None => match ext {
            Some(e) => mime_from_ext(e),
            None => None,
        },
    }
}

pub open spec fn opt_view(o: &Option<Vec<u8>>) -> Option<Seq<u8>> {
    match o {
        Some(v) => Some(v@),
        None => None,
    }
}

/// The artifact-local path of the embedded image at this position of the
/// collection order: the ordinal in decimal, a dot, and an extension — the
/// URL's own, else the media type's first registered one, else empty.
pub open spec fn resource_path_spec(
    ordinal: nat,
    ext: Option<Seq<u8>>,
    mime: Option<Seq<u8>>,
) -> Seq<u8> {
    dec_spec(ordinal) + seq![46u8] + (match ext {
        Some(e) => e,
        None => match mime {
            Some(m) => match ext_of_mime(m) {
                Some(e) => e,
                None => Seq::empty(),
            },
            None => Seq::empty(),
        },
    })
}

/// Assign the artifact-local path of an embedded image; see
/// `resource_path_spec`.
pub fn resource_path(ordinal: u64, ext: &Option<Vec<u8>>, mime: &Option<Vec<u8>>) -> (r: Vec<u8>)
    ensures
        r@ == resource_path_spec(ordinal as nat, opt_view(ext), opt_view(mime)),
{
    let mut out = u64_to_dec(ordinal);
    out.push(46);
    proof {
        assert(out@ =~= dec_spec(ordinal as nat) + seq![46u8]);
    }
    match ext {
        Some(e) => {
            append_bytes(&mut out, e);
        },
        None => match mime {
            Some(m) => match ext_from_mime(m) {
                Some(e) => {
                    append_bytes(&mut out, &e);
                },
                None => {
                    proof {
                        assert(out@ + Seq::<u8>::empty() =~= out@);
                    }
                },
            },
            None => {
                proof {
                    assert(out@ + Seq::<u8>::empty() =~= out@);
                }
            },
        },
    }
    out
}

} // verus!
