//! Typed results for the engine's integer status convention: zero or positive
//! means success, each negative code names one failure.

use vstd::prelude::*;

verus! {

/// The closed set of errors the native engine and the storage layer report.
#[derive(Clone, Copy, Debug, PartialEq, Eq, Structural)]
pub enum Error {
    /// Input or output failure below the filesystem.
    Io,
    /// On-device data failed the engine's integrity checks.
    Corruption,
    /// No entry at the given path.
    NoSuchEntry,
    /// An entry at the given path already exists.
    EntryAlreadyExisted,
    /// A non-final path component is not a directory.
    PathNotDir,
    /// The final path component is a directory.
    PathIsDir,
    /// The directory is not empty.
    DirNotEmpty,
    /// The file handle is not valid for this operation.
    BadFileDescriptor,
    /// The file would grow past the largest representable size.
    FileTooBig,
    /// An argument was out of range.
    Invalid,
    /// No free blocks are left.
    NoSpace,
    /// The engine ran out of working memory.
    NoMemory,
    /// No attribute with the given id.
    NoAttribute,
    /// A path component is longer than the filename limit.
    FilenameTooLong,
}

/// The status code the engine uses for each error.
pub open spec fn code_of_error(e: Error) -> int {
    match e {
        Error::Io => -5,
        Error::Corruption => -84,
        Error::NoSuchEntry => -2,
        Error::EntryAlreadyExisted => -17,
        Error::PathNotDir => -20,
        Error::PathIsDir => -21,
        Error::DirNotEmpty => -39,
        Error::BadFileDescriptor => -9,
        Error::FileTooBig => -27,
        Error::Invalid => -22,
        Error::NoSpace => -28,
        Error::NoMemory => -12,
        Error::NoAttribute => -61,
        Error::FilenameTooLong => -36,
    }
}

/// The error a negative status code names. A negative code outside the known
/// set is surfaced as a generic I/O failure.
pub open spec fn error_of_code(code: int) -> Error {
    if code == -84 {
        Error::Corruption
    } else if code == -2 {
        Error::NoSuchEntry
    } else if code == -17 {
        Error::EntryAlreadyExisted
    } else if code == -20 {
        Error::PathNotDir
    } else if code == -21 {
        Error::PathIsDir
    } else if code == -39 {
        Error::DirNotEmpty
    } else if code == -9 {
        Error::BadFileDescriptor
    } else if code == -27 {
        Error::FileTooBig
    } else if code == -22 {
        Error::Invalid
    } else if code == -28 {
        Error::NoSpace
    } else if code == -12 {
        Error::NoMemory
    } else if code == -61 {
        Error::NoAttribute
    } else if code == -36 {
        Error::FilenameTooLong
    } else {
        Error::Io
    }
}

/// Translates an engine status: a non-negative code keeps `t`, a negative one
/// becomes the error it names.
pub fn result_from<T>(t: T, return_code: i32) -> (r: Result<T, Error>)
    ensures
        return_code >= 0 ==> r == Ok::<T, Error>(t),
        return_code < 0 ==> r == Err::<T, Error>(error_of_code(return_code as int)),
{
    if return_code >= 0 {
        Ok(t)
    } else if return_code == -84 {
        Err(Error::Corruption)
    } else if return_code == -2 {
        Err(Error::NoSuchEntry)
    } else if return_code == -17 {
        Err(Error::EntryAlreadyExisted)
    } else if return_code == -20 {
        Err(Error::PathNotDir)
    } else if return_code == -21 {
        Err(Error::PathIsDir)
    } else if return_code == -39 {
        Err(Error::DirNotEmpty)
    } else if return_code == -9 {
        Err(Error::BadFileDescriptor)
    } else if return_code == -27 {
        Err(Error::FileTooBig)
    } else if return_code == -22 {
        Err(Error::Invalid)
    } else if return_code == -28 {
        Err(Error::NoSpace)
    } else if return_code == -12 {
        Err(Error::NoMemory)
    } else if return_code == -61 {
        Err(Error::NoAttribute)
    } else if return_code == -36 {
        Err(Error::FilenameTooLong)
    } else {
        Err(Error::Io)
    }
}

/// The (always negative) code of one error.
pub fn error_code(e: Error) -> (code: i32)
    ensures
        code == code_of_error(e),
        code < 0,
{
    match e {
        Error::Io => -5,
        Error::Corruption => -84,
        Error::NoSuchEntry => -2,
        Error::EntryAlreadyExisted => -17,
        Error::PathNotDir => -20,
        Error::PathIsDir => -21,
        Error::DirNotEmpty => -39,
        Error::BadFileDescriptor => -9,
        Error::FileTooBig => -27,
        Error::Invalid => -22,
        Error::NoSpace => -28,
        Error::NoMemory => -12,
        Error::NoAttribute => -61,
        Error::FilenameTooLong => -36,
    }
}

/// Translates a result back into the engine's convention: success is zero, an
/// error is its (always negative) code.
pub fn error_code_from<T>(r: &Result<T, Error>) -> (code: i32)
    ensures
        r.is_ok() ==> code == 0,
        r matches Err(e) ==> code == code_of_error(*e) && code < 0,
{
    match r {
        Ok(_) => 0,
        Err(e) => error_code(*e),
    }
}

/// Each error's code names that error again, and every code is negative.
pub proof fn lemma_error_code_exact(e: Error)
    ensures
        error_of_code(code_of_error(e)) == e,
        code_of_error(e) < 0,
{
}

} // verus!
