//! The native engine's boundary: the configuration records handed to it by
//! address, the entry points this crate consumes, and the ghost record of the
//! calls made through that boundary.
//!
//! The engine itself — directory layout, block allocation, wear leveling,
//! crash consistency — is an opaque collaborator. Nothing is assumed of its
//! answers: every contract in this crate holds for every status an `Engine`
//! implementation may return.

use vstd::prelude::*;

use crate::driver::Storage;
use crate::path::Path;

verus! {

/// The engine's configuration record. The native record carries the device
/// geometry, four callback slots, and raw addresses for its context and the
/// three cache buffers; the callback slots always hold the four bridge
/// functions, and each address is modelled by a flag that tells a wired
/// address from the null it starts as.
#[derive(Clone, Copy, Debug, PartialEq, Eq, Structural)]
pub struct LfsConfig {
    /// Whether the context slot points at the owning filesystem's storage.
    pub context_set: bool,
    pub read_size: u32,
    pub prog_size: u32,
    pub block_size: u32,
    pub block_count: u32,
    pub block_cycles: i32,
    pub cache_size: u32,
    /// Lookahead window size in bytes (eight per word of the buffer).
    pub lookahead_size: u32,
    /// Whether the read-cache slot points at the allocation's read buffer.
    pub read_buffer_set: bool,
    /// Whether the program-cache slot points at the allocation's write buffer.
    pub prog_buffer_set: bool,
    /// Whether the lookahead slot points at the allocation's lookahead buffer.
    pub lookahead_buffer_set: bool,
    pub name_max: u32,
    pub file_max: u32,
    pub attr_max: u32,
}

/// The per-file configuration record: in the native record, the address of
/// the file's own cache buffer.
#[derive(Clone, Copy, Debug, PartialEq, Eq, Structural)]
pub struct FileConfig {
    /// Whether the buffer slot points at the file's cache.
    pub buffer_set: bool,
}

/// The entry points this crate consumes from the native engine. An
/// implementation answers each call with the engine's status convention:
/// zero or positive for success, negative for an error. No behaviour is
/// assumed; the callbacks it may make land on the bridge functions, which
/// carry their own contracts.
pub trait Engine: Sized {
    /// The engine's opaque per-file state.
    type File;

    /// A zero-initialized engine state, not yet bound to any device.
    fn fresh() -> Self;

    /// A zero-initialized per-file state.
    fn fresh_file() -> Self::File;

    /// Mounts the filesystem described by `config` on `storage`.
    fn lfs_mount<S: Storage>(&mut self, storage: &mut S, config: &LfsConfig) -> i32;

    /// Writes a fresh filesystem layout onto `storage`.
    fn lfs_format<S: Storage>(&mut self, storage: &mut S, config: &LfsConfig) -> i32;

    /// Creates the directory named by `path`.
    fn lfs_mkdir<S: Storage>(&mut self, storage: &mut S, path: &Path) -> i32;

    /// Opens the file named by `path` with the given flag bits, using the
    /// buffer named by `config`.
    fn lfs_file_opencfg<S: Storage>(
        &mut self,
        storage: &mut S,
        file: &mut Self::File,
        path: &Path,
        flags: u32,
        config: &FileConfig,
    ) -> i32;

    /// Closes an opened file.
    fn lfs_file_close<S: Storage>(&mut self, storage: &mut S, file: &mut Self::File) -> i32;
}

/// One call into the engine, as the ghost history records it.
pub enum LfsCall {
    Mount { config: LfsConfig },
    Format { config: LfsConfig },
    Mkdir { path: Seq<u8> },
    FileOpen { path: Seq<u8>, flags: u32, file_config: FileConfig },
    FileClose,
}

/// A recorded engine call together with the status it returned.
pub struct Event {
    pub call: LfsCall,
    pub code: i32,
}

} // verus!
