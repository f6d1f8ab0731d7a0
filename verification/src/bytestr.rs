//! Verified helpers over byte strings.
//!
//! All textual data in this library (identifiers, titles, URLs, markup) is
//! carried as `Vec<u8>`, so equality, search and formatting are stated over
//! `Seq<u8>` views.

use vstd::prelude::*;

verus! {

/// True when `nd` occurs in `hay` starting at index `i`.
pub open spec fn is_match_at(hay: Seq<u8>, nd: Seq<u8>, i: int) -> bool {
    0 <= i && i + nd.len() <= hay.len() && hay.subrange(i, i + nd.len() as int) == nd
}

/// True when `nd` occurs anywhere in `hay`.
pub open spec fn spec_contains(hay: Seq<u8>, nd: Seq<u8>) -> bool {
    exists|i: int| is_match_at(hay, nd, i)
}

/// Byte-string equality, decided in one pass.
pub fn bytes_eq(a: &Vec<u8>, b: &Vec<u8>) -> (r: bool)
    ensures
        r == (a@ == b@),
{
    if a.len() != b.len() {
        assert(a@ != b@) by {
            assert(a@.len() != b@.len());
        }
        return false;
    }
    let n = a.len();
    for i in 0..n
        invariant
            n == a.len() == b.len(),
            forall|j: int| 0 <= j < i ==> a@[j] == b@[j],
    {
        if a[i] != b[i] {
            return false;
        }
    }
    proof {
        assert(a@ =~= b@);
    }
    true
}

/// True when `nd` occurs in `hay` starting at `i`; `i` must leave room for `nd`.
fn match_at(hay: &Vec<u8>, nd: &Vec<u8>, i: usize) -> (r: bool)
    requires
        i + nd@.len() <= hay@.len(),
    ensures
        r == is_match_at(hay@, nd@, i as int),
{
    let m = nd.len();
    let hn = hay.len();
    for j in 0..m
        invariant
            m == nd@.len(),
            hn == hay@.len(),
            i + m <= hay@.len(),
            forall|k: int| 0 <= k < j ==> hay@[i + k] == nd@[k],
    {
        if hay[i + j] != nd[j] {
            assert(hay@.subrange(i as int, i + nd@.len() as int)[j as int] != nd@[j as int]);
            return false;
        }
    }
    proof {
        assert(hay@.subrange(i as int, i + nd@.len() as int) =~= nd@);
    }
    true
}

/// Substring search: does `nd` occur anywhere in `hay`?
pub fn contains_bytes(hay: &Vec<u8>, nd: &Vec<u8>) -> (r: bool)
    ensures
        r == spec_contains(hay@, nd@),
{
    if nd.len() > hay.len() {
        return false;
    }
    if nd.len() == 0 {
        assert(is_match_at(hay@, nd@, 0)) by {
            assert(hay@.subrange(0, 0) =~= nd@);
        }
        return true;
    }
    let last = hay.len() - nd.len();
    for i in 0..last + 1
        invariant
            nd@.len() <= hay@.len(),
            last == hay@.len() - nd@.len(),
            forall|j: int| 0 <= j < i ==> !is_match_at(hay@, nd@, j),
    {
        if match_at(hay, nd, i) {
            return true;
        }
    }
    false
}

/// The decimal digits of `n`, most significant first.
pub open spec fn dec_spec(n: nat) -> Seq<u8>
    decreases n,
{
    if n < 10 {
        seq![(48 + n) as u8]
    } else {
        dec_spec(n / 10).push((48 + n % 10) as u8)
    }
}

/// Decimal formatting of an unsigned number.
pub fn u64_to_dec(n: u64) -> (r: Vec<u8>)
    ensures
        r@ == dec_spec(n as nat),
    decreases n,
{
    if n < 10 {
        let mut out: Vec<u8> = Vec::new();
        out.push(48 + (n as u8));
        proof {
            assert(out@ =~= dec_spec(n as nat));
        }
        out
    } else {
        let mut out = u64_to_dec(n / 10);
        out.push(48 + ((n % 10) as u8));
        proof {
            assert(out@ =~= dec_spec(n as nat));
        }
        out
    }
}

/// Copy out the byte range `[a, b)` of `v`.
pub fn slice_bytes(v: &Vec<u8>, a: usize, b: usize) -> (r: Vec<u8>)
    requires
        a <= b <= v@.len(),
    ensures
        r@ == v@.subrange(a as int, b as int),
{
    let mut out: Vec<u8> = Vec::new();
    let mut i = a;
    while i < b
        invariant
            a <= i <= b <= v@.len(),
            out@ == v@.subrange(a as int, i as int),
        decreases b - i,
    {
        proof {
            assert(v@.subrange(a as int, i + 1) =~= v@.subrange(a as int, i as int).push(
                v@[i as int],
            ));
        }
        out.push(v[i]);
        i = i + 1;
    }
    out
}

/// Append `src` to `dst`.
pub fn append_bytes(dst: &mut Vec<u8>, src: &Vec<u8>)
    ensures
        final(dst)@ == old(dst)@ + src@,
{
    let n = src.len();
    let mut i: usize = 0;
    while i < n
        invariant
            n == src@.len(),
            i <= n,
            dst@ == old(dst)@ + src@.subrange(0, i as int),
        decreases n - i,
    {
        proof {
            assert(src@.subrange(0, i + 1) =~= src@.subrange(0, i as int).push(src@[i as int]));
            assert(old(dst)@ + src@.subrange(0, i + 1) =~= (old(dst)@ + src@.subrange(
                0,
                i as int,
            )).push(src@[i as int]));
        }
        dst.push(src[i]);
        i = i + 1;
    }
    proof {
        assert(src@.subrange(0, n as int) =~= src@);
    }
}

/// Byte-string cloning, with the view preserved.
pub fn clone_bytes(v: &Vec<u8>) -> (r: Vec<u8>)
    ensures
        r@ == v@,
{
    let r = v.clone();
    proof {
        assert forall|i: int| 0 <= i < v@.len() implies r@[i] == v@[i] by {
            assert(cloned::<u8>(v[i], r[i]));
        }
        assert(v@ =~= r@);
    }
    r
}

/// True when `p` is a prefix of `s`.
pub fn starts_with(s: &Vec<u8>, p: &Vec<u8>) -> (r: bool)
    ensures
        r == p@.is_prefix_of(s@),
{
    if p.len() > s.len() {
        assert(!p@.is_prefix_of(s@));
        return false;
    }
    let m = p.len();
    for i in 0..m
        invariant
            m == p@.len() <= s@.len(),
            forall|j: int| 0 <= j < i ==> s@[j] == p@[j],
    {
        if s[i] != p[i] {
            assert(s@.subrange(0, p@.len() as int)[i as int] != p@[i as int]);
            return false;
        }
    }
    proof {
        assert(s@.subrange(0, p@.len() as int) =~= p@);
    }
    true
}

} // verus!
