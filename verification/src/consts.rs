use vstd::prelude::*;

verus! {

/// Longest filename the engine's fixed-width name field can hold, plus one.
pub const FILENAME_MAX_PLUS_ONE: u32 = 256;

/// Longest path accepted anywhere in the crate, plus one.
pub const PATH_MAX_PLUS_ONE: u32 = 256;

/// Largest file size the engine's signed 32-bit size field can express.
pub const FILEBYTES_MAX: u32 = 2147483647;

/// Largest per-entry attribute the engine's attribute field can hold.
pub const ATTRBYTES_MAX: u32 = 1022;

/// The byte that separates path components (ASCII '/').
pub const PATH_SEPARATOR: u8 = 47;

} // verus!
