use littlefs2::io::{error_code, error_code_from, result_from, Error};

#[test]
fn non_negative_codes_succeed() {
    assert_eq!(result_from(7u32, 0), Ok(7u32));
    assert_eq!(result_from((), 1), Ok(()));
    assert_eq!(result_from((), i32::MAX), Ok(()));
}

#[test]
fn known_codes_translate_exactly() {
    assert_eq!(result_from((), -5), Err(Error::Io));
    assert_eq!(result_from((), -84), Err(Error::Corruption));
    assert_eq!(result_from((), -2), Err(Error::NoSuchEntry));
    assert_eq!(result_from((), -17), Err(Error::EntryAlreadyExisted));
    assert_eq!(result_from((), -20), Err(Error::PathNotDir));
    assert_eq!(result_from((), -21), Err(Error::PathIsDir));
    assert_eq!(result_from((), -39), Err(Error::DirNotEmpty));
    assert_eq!(result_from((), -9), Err(Error::BadFileDescriptor));
    assert_eq!(result_from((), -27), Err(Error::FileTooBig));
    assert_eq!(result_from((), -22), Err(Error::Invalid));
    assert_eq!(result_from((), -28), Err(Error::NoSpace));
    assert_eq!(result_from((), -12), Err(Error::NoMemory));
    assert_eq!(result_from((), -61), Err(Error::NoAttribute));
    assert_eq!(result_from((), -36), Err(Error::FilenameTooLong));
}

#[test]
fn unknown_negative_code_is_io() {
    assert_eq!(result_from((), -1), Err(Error::Io));
    assert_eq!(result_from((), -1000), Err(Error::Io));
}

#[test]
fn codes_round_trip() {
    let errors = [
        Error::Io,
        Error::Corruption,
        Error::NoSuchEntry,
        Error::EntryAlreadyExisted,
        Error::PathNotDir,
        Error::PathIsDir,
        Error::DirNotEmpty,
        Error::BadFileDescriptor,
        Error::FileTooBig,
        Error::Invalid,
        Error::NoSpace,
        Error::NoMemory,
        Error::NoAttribute,
        Error::FilenameTooLong,
    ];
    for e in errors {
        let code = error_code(e);
        assert!(code < 0);
        assert_eq!(result_from((), code), Err(e));
    }
}

#[test]
fn error_code_from_results() {
    assert_eq!(error_code_from(&Ok::<u8, Error>(3)), 0);
    assert_eq!(error_code_from(&Err::<u8, Error>(Error::NoSpace)), -28);
    assert_eq!(
        error_code_from(&Err::<u8, Error>(Error::EntryAlreadyExisted)),
        -17
    );
}
