//! URL resolution for image references, and extension extraction from URL
//! paths.

use vstd::prelude::*;

verus! {

#[verifier::external_type_specification]
#[verifier::external_body]
pub struct ExUrl(url::Url);

/// What parsing yields for given bytes: the parsed URL value, `None` when
/// the bytes are not UTF-8 or not an absolute URL. A function of the bytes
/// alone.
pub uninterp spec fn url_of(s: Seq<u8>) -> Option<url::Url>;

/// The serialization of a parsed URL; ASCII, as the URL standard requires
/// of every serialized URL.
pub uninterp spec fn url_serialization(u: url::Url) -> Seq<u8>;

/// The path component of a parsed URL; ASCII for the same reason.
pub uninterp spec fn url_path_of(u: url::Url) -> Seq<u8>;

/// The host of a parsed URL, when it is a domain name.
pub uninterp spec fn url_host_of(u: url::Url) -> Option<Seq<u8>>;

/// What joining a reference against a base yields; a function of the two
/// alone.
pub uninterp spec fn url_join_of(u: url::Url, rel: Seq<u8>) -> Option<url::Url>;

/// Relies on url::Url::parse: `Some` exactly when the bytes are UTF-8 and an
/// absolute URL; deterministic in the bytes.
#[verifier::external_body]
pub(crate) fn url_parse(s: &Vec<u8>) -> (r: Option<url::Url>)
    ensures
        r == url_of(s@),
{
    match std::str::from_utf8(s.as_slice()) {
        Ok(t) => url::Url::parse(t).ok(),
        Err(_) => None,
    }
}

/// Relies on url::Url::join: resolves a reference against a base;
/// deterministic in the base and the reference.
#[verifier::external_body]
pub(crate) fn url_join(base: &url::Url, rel: &Vec<u8>) -> (r: Option<url::Url>)
    ensures
        r == url_join_of(*base, rel@),
{
    match std::str::from_utf8(rel.as_slice()) {
        Ok(t) => base.join(t).ok(),
        Err(_) => None,
    }
}

/// Relies on url::Url::as_str: the URL's serialization, always ASCII.
#[verifier::external_body]
pub(crate) fn url_to_bytes(u: &url::Url) -> (r: Vec<u8>)
    ensures
        r@ == url_serialization(*u),
        forall|i: int| 0 <= i < r@.len() ==> r@[i] < 128,
{
    u.as_str().as_bytes().to_vec()
}

/// Relies on url::Url::path: the URL's path component, always ASCII.
#[verifier::external_body]
pub(crate) fn url_path_bytes(u: &url::Url) -> (r: Vec<u8>)
    ensures
        r@ == url_path_of(*u),
        forall|i: int| 0 <= i < r@.len() ==> r@[i] < 128,
{
    u.path().as_bytes().to_vec()
}

/// Relies on url::Url::host: the host, only when it is a domain name.
#[verifier::external_body]
pub(crate) fn url_host_domain(u: &url::Url) -> (r: Option<Vec<u8>>)
    ensures
        match r {
            Some(h) => url_host_of(*u) == Some(h@),
            None => url_host_of(*u) is None,
        },
{
    match u.host() {
        Some(url::Host::Domain(d)) => Some(d.as_bytes().to_vec()),
        _ => None,
    }
}

/// The base for resolving an entry's relative image references: the feed
/// URL's domain host, `None` when the URL does not parse or its host is not
/// a domain name.
pub open spec fn feed_base_host_spec(feed_url: Seq<u8>) -> Option<Seq<u8>> {
    match url_of(feed_url) {
        Some(u) => url_host_of(u),
        None => None,
    }
}

/// The feed URL's domain host; see `feed_base_host_spec`.
pub fn feed_base_host(feed_url: &Vec<u8>) -> (r: Option<Vec<u8>>)
    ensures
        match r {
            Some(h) => feed_base_host_spec(feed_url@) == Some(h@),
            None => feed_base_host_spec(feed_url@) is None,
        },
{
    match url_parse(feed_url) {
        Some(u) => url_host_domain(&u),
        None => None,
    }
}

/// What resolving one image reference yields: an absolute reference stands
/// on its own; otherwise it is joined to the base, where one is known; the
/// result is the resolved URL's serialization and its path. `None` exactly
/// when neither way resolves.
pub open spec fn resolve_img_spec(raw: Seq<u8>, base: Option<Seq<u8>>) -> Option<(Seq<u8>, Seq<u8>)> {
    match url_of(raw) {
        Some(u) => Some((url_serialization(u), url_path_of(u))),
        None => match base {
            Some(b) => match url_of(b) {
                Some(bu) => match url_join_of(bu, raw) {
                    Some(u) => Some((url_serialization(u), url_path_of(u))),
                    None => None,
                },
                None => None,
            },
            None => None,
        },
    }
}

/// Resolve one image reference; see `resolve_img_spec`. An unresolvable
/// image is dropped from the fetch set, and the final rewrite removes its
/// tag.
pub fn resolve_img_url(raw: &Vec<u8>, base: &Option<Vec<u8>>) -> (r: Option<(Vec<u8>, Vec<u8>)>)
    ensures
        match r {
            Some(p) => resolve_img_spec(raw@, crate::mimetype::opt_view(base)) == Some(
                (p.0@, p.1@),
            ),
            None => resolve_img_spec(raw@, crate::mimetype::opt_view(base)) is None,
        },
{
    match url_parse(raw) {
        Some(u) => {
            let s = url_to_bytes(&u);
            let p = url_path_bytes(&u);
            Some((s, p))
        },
        None => match base {
            Some(b) => match url_parse(b) {
                Some(bu) => match url_join(&bu, raw) {
                    Some(u) => {
                        let s = url_to_bytes(&u);
                        let p = url_path_bytes(&u);
                        Some((s, p))
                    },
                    None => None,
                },
                None => None,
            },
            None => None,
        },
    }
}

/// A space byte; the extension pattern admits only bytes that are not these.
pub open spec fn sp_byte(b: u8) -> bool {
    b == 32 || b == 9 || b == 10 || b == 13 || b == 12 || b == 11
}

/// A file extension sits at position `j` of the path: a dot followed by two
/// to five non-space bytes that run to the end.
pub open spec fn ext_at(p: Seq<u8>, j: int) -> bool {
    &&& 0 <= j < p.len()
    &&& p[j] == 46
    &&& 2 <= p.len() - 1 - j <= 5
    &&& (forall|k: int| j < k < p.len() ==> !sp_byte(#[trigger] p[k]))
}

fn suffix_non_space(p: &Vec<u8>, from: usize) -> (r: bool)
    requires
        from <= p@.len(),
    ensures
        r == (forall|k: int| from <= k < p@.len() ==> !sp_byte(#[trigger] p@[k])),
{
    let n = p.len();
    let mut k = from;
    while k < n
        invariant
            from <= k <= n,
            n == p@.len(),
            forall|j: int| from <= j < k ==> !sp_byte(#[trigger] p@[j]),
        decreases n - k,
    {
        let b = p[k];
        if b == 32 || b == 9 || b == 10 || b == 13 || b == 12 || b == 11 {
            return false;
        }
        k = k + 1;
    }
    true
}

/// The extension of a URL path: the leftmost dot whose suffix is two to five
/// non-space bytes running to the end of the path.
pub fn ext_of_path(p: &Vec<u8>) -> (r: Option<Vec<u8>>)
    ensures
        match r {
            Some(e) => exists|j: int|
                #![auto]
                {
                    &&& ext_at(p@, j)
                    &&& e@ == p@.subrange(j + 1, p@.len() as int)
                    &&& (forall|j2: int| 0 <= j2 < j ==> !ext_at(p@, j2))
                },
            None => forall|j: int| !ext_at(p@, j),
        },
{
    let n = p.len();
    let mut j: usize = 0;
    while j < n
        invariant
            j <= n,
            n == p@.len(),
            forall|j2: int| 0 <= j2 < j ==> !ext_at(p@, j2),
        decreases n - j,
    {
        let is_dot = p[j] == 46;
        let tail_len_ok = n - 1 - j >= 2 && n - 1 - j <= 5;
        if is_dot && tail_len_ok {
            if suffix_non_space(p, j + 1) {
                let e = crate::bytestr::slice_bytes(p, j + 1, n);
                proof {
                    assert(ext_at(p@, j as int));
                }
                return Some(e);
            } else {
                proof {
                    assert(!ext_at(p@, j as int));
                }
            }
        } else {
            proof {
                assert(!ext_at(p@, j as int));
            }
        }
        j = j + 1;
    }
    proof {
        assert forall|j2: int| !ext_at(p@, j2) by {
            if 0 <= j2 < p@.len() {
                assert(!ext_at(p@, j2));
            }
        }
    }
    None
}

} // verus!
