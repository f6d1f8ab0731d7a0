use plato_feed::bytestr::{
    bytes_eq, clone_bytes, contains_bytes, slice_bytes, starts_with, u64_to_dec,
};

fn s(x: &str) -> Vec<u8> {
    x.as_bytes().to_vec()
}

#[test]
fn equality_and_clone() {
    assert!(bytes_eq(&s("abc"), &s("abc")));
    assert!(!bytes_eq(&s("abc"), &s("abd")));
    assert!(!bytes_eq(&s("abc"), &s("ab")));
    assert_eq!(clone_bytes(&s("xyz")), s("xyz"));
}

#[test]
fn substring_search() {
    assert!(contains_bytes(&s("application/xhtml+xml"), &s("html")));
    assert!(!contains_bytes(&s("application/json"), &s("html")));
    assert!(contains_bytes(&s("x"), &s("")));
    assert!(!contains_bytes(&s(""), &s("x")));
}

#[test]
fn decimal_rendering() {
    assert_eq!(u64_to_dec(0), s("0"));
    assert_eq!(u64_to_dec(7), s("7"));
    assert_eq!(u64_to_dec(10), s("10"));
    assert_eq!(u64_to_dec(987654321), s("987654321"));
    assert_eq!(u64_to_dec(u64::MAX), s("18446744073709551615"));
}

#[test]
fn prefix_and_slices() {
    assert!(starts_with(&s("root/file"), &s("root")));
    assert!(!starts_with(&s("roo"), &s("root")));
    assert_eq!(slice_bytes(&s("abcdef"), 2, 5), s("cde"));
}
