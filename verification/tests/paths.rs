use littlefs2::path::Path;

#[test]
fn from_slice_keeps_the_bytes() {
    let p = Path::from_slice(b"/fido/sec");
    assert_eq!(p.as_slice(), b"/fido/sec");
    assert_eq!(p.len(), 9);
    assert_eq!(p.get(0), b'/');
    assert_eq!(p.get(1), b'f');
}

#[test]
fn empty_path() {
    let p = Path::from_slice(b"");
    assert_eq!(p.len(), 0);
    assert_eq!(p.as_slice(), b"");
}

#[test]
fn prefix_takes_the_first_bytes() {
    let p = Path::from_slice(b"/a/b/c");
    assert_eq!(p.prefix(0).as_slice(), b"");
    assert_eq!(p.prefix(2).as_slice(), b"/a");
    assert_eq!(p.prefix(4).as_slice(), b"/a/b");
    assert_eq!(p.prefix(6).as_slice(), b"/a/b/c");
}
