use littlefs2::fs::{
    OpenOptions, FLAG_APPEND, FLAG_CREATE, FLAG_EXCL, FLAG_READ, FLAG_READWRITE, FLAG_TRUNCATE,
    FLAG_WRITE,
};

#[test]
fn new_options_are_empty() {
    assert_eq!(OpenOptions::new().bits(), 0);
}

#[test]
fn readwrite_is_read_or_write() {
    assert_eq!(FLAG_READWRITE, FLAG_READ | FLAG_WRITE);
    let o = OpenOptions::new().read(true).write(true);
    assert_eq!(o.bits(), FLAG_READWRITE);
}

#[test]
fn flags_match_the_posix_like_values() {
    assert_eq!(FLAG_READ, 0x1);
    assert_eq!(FLAG_WRITE, 0x2);
    assert_eq!(FLAG_CREATE, 0x100);
    assert_eq!(FLAG_EXCL, 0x200);
    assert_eq!(FLAG_TRUNCATE, 0x400);
    assert_eq!(FLAG_APPEND, 0x800);
}

#[test]
fn builders_set_and_clear_bits() {
    let o = OpenOptions::new()
        .read(true)
        .write(true)
        .create(true)
        .create_new(true)
        .truncate(true)
        .append(true);
    assert_eq!(
        o.bits(),
        FLAG_READ | FLAG_WRITE | FLAG_CREATE | FLAG_EXCL | FLAG_TRUNCATE | FLAG_APPEND
    );
    let o = o.write(false).truncate(false);
    assert_eq!(o.bits(), FLAG_READ | FLAG_CREATE | FLAG_EXCL | FLAG_APPEND);
}
