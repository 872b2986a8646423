//! A safe resource-binding layer for a block-storage-backed filesystem.
//!
//! The wear-leveling, copy-on-write filesystem engine itself is an opaque
//! collaborator: it is reached through a narrow, C-ABI-shaped boundary (the
//! [`ll::Engine`] trait) and calls back into the pluggable block device (the
//! [`driver::Storage`] trait) through the four bridge callbacks. This crate
//! owns everything in between: validation of the device geometry, assembly of
//! the engine's configuration record, the scratch buffers the record points
//! at, the mount/format/create-dir/open-file lifecycle of a [`fs::Filesystem`]
//! and the open/close lifecycle of a [`fs::RawFile`], and the translation of
//! the engine's integer statuses into typed errors.

pub mod consts;
pub mod driver;
pub mod fs;
pub mod io;
pub mod ll;
pub mod path;
