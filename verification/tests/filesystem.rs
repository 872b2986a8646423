use littlefs2::driver::{Geometry, Storage};
use littlefs2::fs::{AnyStorage, Filesystem, OpenOptions, RawFile};
use littlefs2::io::Error;
use littlefs2::ll::{Engine, FileConfig, LfsConfig};
use littlefs2::path::Path;

// ---------------------------------------------------------------------------
// A RAM-backed block device: 16 blocks of 512 bytes.
// ---------------------------------------------------------------------------

struct RamStorage {
    data: Vec<u8>,
}

impl RamStorage {
    fn new() -> Self {
        RamStorage {
            data: vec![0xFF; 8192],
        }
    }
}

impl Storage for RamStorage {
    // Ghost items; never called at run time.
    fn geometry_spec() -> Geometry {
        unreachable!()
    }

    fn erased_byte() -> u8 {
        unreachable!()
    }

    fn device(&self) -> vstd::seq::Seq<u8> {
        unreachable!()
    }

    fn geometry() -> Geometry {
        Geometry {
            read_size: 16,
            write_size: 16,
            block_size: 512,
            block_count: 16,
            block_cycles: -1,
            cache_size: 512,
            lookahead_size: 1,
        }
    }

    fn read(&mut self, off: usize, len: usize) -> Result<Vec<u8>, Error> {
        Ok(self.data[off..off + len].to_vec())
    }

    fn write(&mut self, off: usize, data: &[u8]) -> Result<usize, Error> {
        self.data[off..off + data.len()].copy_from_slice(data);
        Ok(data.len())
    }

    fn erase(&mut self, off: usize, len: usize) -> Result<usize, Error> {
        for b in &mut self.data[off..off + len] {
            *b = 0xFF;
        }
        Ok(len)
    }
}

// ---------------------------------------------------------------------------
// A recording device: remembers every operation with its absolute offset.
// ---------------------------------------------------------------------------

struct RecordingStorage {
    data: Vec<u8>,
    reads: Vec<(usize, usize)>,
    writes: Vec<(usize, usize)>,
    erases: Vec<(usize, usize)>,
}

impl RecordingStorage {
    fn new() -> Self {
        let mut data = vec![0u8; 8192];
        for (i, b) in data.iter_mut().enumerate() {
            *b = (i % 251) as u8;
        }
        RecordingStorage {
            data,
            reads: Vec::new(),
            writes: Vec::new(),
            erases: Vec::new(),
        }
    }
}

impl Storage for RecordingStorage {
    // Ghost items; never called at run time.
    fn geometry_spec() -> Geometry {
        unreachable!()
    }

    fn erased_byte() -> u8 {
        unreachable!()
    }

    fn device(&self) -> vstd::seq::Seq<u8> {
        unreachable!()
    }

    fn geometry() -> Geometry {
        RamStorage::geometry()
    }

    fn read(&mut self, off: usize, len: usize) -> Result<Vec<u8>, Error> {
        self.reads.push((off, len));
        Ok(self.data[off..off + len].to_vec())
    }

    fn write(&mut self, off: usize, data: &[u8]) -> Result<usize, Error> {
        self.writes.push((off, data.len()));
        self.data[off..off + data.len()].copy_from_slice(data);
        Ok(data.len())
    }

    fn erase(&mut self, off: usize, len: usize) -> Result<usize, Error> {
        self.erases.push((off, len));
        for b in &mut self.data[off..off + len] {
            *b = 0xFF;
        }
        Ok(len)
    }
}

// ---------------------------------------------------------------------------
// A fake engine: tracks directories and files by name and counts its calls.
// ---------------------------------------------------------------------------

struct FakeEngine {
    mount_count: usize,
    format_count: usize,
    close_count: usize,
    mkdir_paths: Vec<Vec<u8>>,
    dirs: Vec<Vec<u8>>,
    files: Vec<Vec<u8>>,
}

impl Engine for FakeEngine {
    type File = ();

    fn fresh() -> Self {
        FakeEngine {
            mount_count: 0,
            format_count: 0,
            close_count: 0,
            mkdir_paths: Vec::new(),
            dirs: Vec::new(),
            files: Vec::new(),
        }
    }

    fn fresh_file() -> () {}

    fn lfs_mount<S: Storage>(&mut self, _storage: &mut S, config: &LfsConfig) -> i32 {
        assert!(config.context_set);
        assert!(config.read_buffer_set);
        assert!(config.prog_buffer_set);
        assert!(config.lookahead_buffer_set);
        self.mount_count += 1;
        0
    }

    fn lfs_format<S: Storage>(&mut self, _storage: &mut S, config: &LfsConfig) -> i32 {
        assert!(config.context_set);
        self.format_count += 1;
        0
    }

    fn lfs_mkdir<S: Storage>(&mut self, _storage: &mut S, path: &Path) -> i32 {
        let p = path.as_slice().to_vec();
        self.mkdir_paths.push(p.clone());
        if p.is_empty() || self.dirs.contains(&p) {
            -17
        } else {
            self.dirs.push(p);
            0
        }
    }

    fn lfs_file_opencfg<S: Storage>(
        &mut self,
        _storage: &mut S,
        _file: &mut (),
        path: &Path,
        flags: u32,
        config: &FileConfig,
    ) -> i32 {
        assert!(config.buffer_set);
        let p = path.as_slice().to_vec();
        if self.files.contains(&p) {
            0
        } else if flags & 0x100 != 0 {
            self.files.push(p);
            0
        } else {
            -2
        }
    }

    fn lfs_file_close<S: Storage>(&mut self, _storage: &mut S, _file: &mut ()) -> i32 {
        self.close_count += 1;
        0
    }
}

/// An engine whose mount always fails with an I/O error.
struct BrokenEngine;

impl Engine for BrokenEngine {
    type File = ();

    fn fresh() -> Self {
        BrokenEngine
    }

    fn fresh_file() -> () {}

    fn lfs_mount<S: Storage>(&mut self, _storage: &mut S, _config: &LfsConfig) -> i32 {
        -5
    }

    fn lfs_format<S: Storage>(&mut self, _storage: &mut S, _config: &LfsConfig) -> i32 {
        -28
    }

    fn lfs_mkdir<S: Storage>(&mut self, _storage: &mut S, _path: &Path) -> i32 {
        -5
    }

    fn lfs_file_opencfg<S: Storage>(
        &mut self,
        _storage: &mut S,
        _file: &mut (),
        _path: &Path,
        _flags: u32,
        _config: &FileConfig,
    ) -> i32 {
        -5
    }

    fn lfs_file_close<S: Storage>(&mut self, _storage: &mut S, _file: &mut ()) -> i32 {
        -9
    }
}

type Fs = Filesystem<RamStorage, FakeEngine>;

// ---------------------------------------------------------------------------
// Lifecycle
// ---------------------------------------------------------------------------

#[test]
fn mount_performs_no_engine_call() {
    let fs = Fs::mount(RamStorage::new());
    assert_eq!(fs.allocation.state.mount_count, 0);
    assert!(!fs.initialized);
}

#[test]
fn ensure_initialized_mounts_exactly_once() {
    let mut fs = Fs::mount(RamStorage::new());
    assert_eq!(fs.ensure_initialized(), Ok(()));
    assert!(fs.initialized);
    assert_eq!(fs.allocation.state.mount_count, 1);
    // The second initialization is a no-op: still exactly one mount call.
    assert_eq!(fs.ensure_initialized(), Ok(()));
    assert!(fs.initialized);
    assert_eq!(fs.allocation.state.mount_count, 1);
}

#[test]
fn operations_share_the_single_mount() {
    let mut fs = Fs::mount(RamStorage::new());
    assert_eq!(fs.create_dir(&Path::from_slice(b"/a")), Ok(()));
    assert_eq!(fs.create_dir(&Path::from_slice(b"/b")), Ok(()));
    assert_eq!(fs.allocation.state.mount_count, 1);
}

#[test]
fn failed_mount_is_reported_and_retried() {
    let mut fs: Filesystem<RamStorage, BrokenEngine> = Filesystem::mount(RamStorage::new());
    assert_eq!(fs.create_dir(&Path::from_slice(b"/a")), Err(Error::Io));
    assert!(!fs.initialized);
    assert_eq!(fs.ensure_initialized(), Err(Error::Io));
    assert!(!fs.initialized);
}

#[test]
fn format_storage_issues_one_format_call() {
    let mut storage = RamStorage::new();
    assert_eq!(Fs::format_storage(&mut storage).0, Ok(()));
    let mut storage = RamStorage::new();
    assert_eq!(
        Filesystem::<RamStorage, BrokenEngine>::format_storage(&mut storage).0,
        Err(Error::NoSpace)
    );
}

#[test]
fn format_leaves_mounted_state_alone() {
    let mut fs = Fs::mount(RamStorage::new());
    assert_eq!(fs.format(), Ok(()));
    assert!(!fs.initialized);
    assert_eq!(fs.allocation.state.format_count, 1);
    assert_eq!(fs.allocation.state.mount_count, 0);
}

#[test]
fn allocation_wires_nothing_until_mount() {
    let fs = Fs::mount(RamStorage::new());
    let c = &fs.allocation.config;
    assert!(!c.context_set);
    assert!(!c.read_buffer_set);
    assert!(!c.prog_buffer_set);
    assert!(!c.lookahead_buffer_set);
    assert_eq!(c.read_size, 16);
    assert_eq!(c.prog_size, 16);
    assert_eq!(c.block_size, 512);
    assert_eq!(c.block_count, 16);
    assert_eq!(c.block_cycles, -1);
    assert_eq!(c.cache_size, 512);
    // Eight bytes per lookahead word.
    assert_eq!(c.lookahead_size, 8);
    assert_eq!(c.name_max, 255);
    assert_eq!(c.file_max, 2147483647);
    assert_eq!(c.attr_max, 1022);
    assert_eq!(fs.allocation.cache.read.len(), 512);
    assert_eq!(fs.allocation.cache.write.len(), 512);
    assert_eq!(fs.allocation.cache.lookahead.len(), 1);
    assert!(fs.allocation.cache.read.iter().all(|&b| b == 0));
}

// ---------------------------------------------------------------------------
// Directories
// ---------------------------------------------------------------------------

#[test]
fn create_dir_surfaces_already_existed() {
    let mut fs = Fs::mount(RamStorage::new());
    let p = Path::from_slice(b"/twice");
    assert_eq!(fs.create_dir(&p), Ok(()));
    assert_eq!(fs.create_dir(&p), Err(Error::EntryAlreadyExisted));
}

#[test]
fn create_dir_all_is_idempotent() {
    let mut fs = Fs::mount(RamStorage::new());
    let p = Path::from_slice(b"/some/dir");
    assert_eq!(fs.create_dir_all(&p), Ok(()));
    assert_eq!(fs.create_dir_all(&p), Ok(()));
}

#[test]
fn create_dir_all_walks_every_prefix() {
    let mut fs = Fs::mount(RamStorage::new());
    assert_eq!(fs.create_dir_all(&Path::from_slice(b"/a/b/c")), Ok(()));
    let expected: Vec<Vec<u8>> = vec![
        b"".to_vec(),
        b"/a".to_vec(),
        b"/a/b".to_vec(),
        b"/a/b/c".to_vec(),
    ];
    assert_eq!(fs.allocation.state.mkdir_paths, expected);
    assert!(fs.allocation.state.dirs.contains(&b"/a".to_vec()));
    assert!(fs.allocation.state.dirs.contains(&b"/a/b".to_vec()));
    assert!(fs.allocation.state.dirs.contains(&b"/a/b/c".to_vec()));
}

#[test]
fn create_dir_all_absorbs_existing_parents() {
    let mut fs = Fs::mount(RamStorage::new());
    assert_eq!(fs.create_dir(&Path::from_slice(b"/a")), Ok(()));
    assert_eq!(fs.create_dir_all(&Path::from_slice(b"/a/b/c")), Ok(()));
    assert!(fs.allocation.state.dirs.contains(&b"/a/b".to_vec()));
    assert!(fs.allocation.state.dirs.contains(&b"/a/b/c".to_vec()));
}

// ---------------------------------------------------------------------------
// Files
// ---------------------------------------------------------------------------

#[test]
fn open_file_wires_the_buffer_and_close_calls_the_engine() {
    let mut fs = Fs::mount(RamStorage::new());
    let mut file: RawFile<FakeEngine> = RawFile::new_uninit::<RamStorage>();
    assert_eq!(file.cache.len(), 512);
    assert!(file.cache.iter().all(|&b| b == 0));
    assert!(!file.config.buffer_set);

    let p = Path::from_slice(b"/data.bin");
    let opts = OpenOptions::new().write(true).create(true);
    assert_eq!(fs.open_file(&p, &mut file, opts), Ok(()));
    assert!(file.config.buffer_set);

    assert_eq!(file.close(&mut fs), Ok(()));
    assert_eq!(fs.allocation.state.close_count, 1);
}

#[test]
fn open_without_create_fails_on_missing_file() {
    let mut fs = Fs::mount(RamStorage::new());
    let mut file: RawFile<FakeEngine> = RawFile::new_uninit::<RamStorage>();
    let p = Path::from_slice(b"/missing");
    let opts = OpenOptions::new().read(true);
    assert_eq!(fs.open_file(&p, &mut file, opts), Err(Error::NoSuchEntry));
}

#[test]
fn open_file_and_then_runs_the_callback_on_success_only() {
    let mut fs = Fs::mount(RamStorage::new());
    let mut file: RawFile<FakeEngine> = RawFile::new_uninit::<RamStorage>();
    let p = Path::from_slice(b"/cb");
    let r = fs.open_file_and_then(&p, &mut file, OpenOptions::new().create(true), |f| {
        assert!(f.config.buffer_set);
        Ok(41 + 1)
    });
    assert_eq!(r, Ok(42));

    let mut fs: Filesystem<RamStorage, BrokenEngine> = Filesystem::mount(RamStorage::new());
    let mut file: RawFile<BrokenEngine> = RawFile::new_uninit::<RamStorage>();
    let r: Result<u32, Error> =
        fs.open_file_and_then(&p, &mut file, OpenOptions::new().read(true), |_f| {
            panic!("callback must not run after a failed open");
        });
    assert_eq!(r, Err(Error::Io));
}

// ---------------------------------------------------------------------------
// Callback bridge addressing
// ---------------------------------------------------------------------------

#[test]
fn read_callback_addresses_block_times_block_size_plus_offset() {
    let mut st = RecordingStorage::new();
    let mut buf = vec![0u8; 16];
    let code =
        Filesystem::<RecordingStorage, FakeEngine>::lfs_config_read(&mut st, 3, 17, &mut buf);
    assert_eq!(code, 0);
    assert_eq!(st.reads, vec![(3 * 512 + 17, 16)]);
    let expected: Vec<u8> = (0..16).map(|i| (((3 * 512 + 17) + i) % 251) as u8).collect();
    assert_eq!(buf, expected);
}

#[test]
fn prog_callback_addresses_block_times_block_size_plus_offset() {
    let mut st = RecordingStorage::new();
    let data = [0x42u8; 16];
    let code =
        Filesystem::<RecordingStorage, FakeEngine>::lfs_config_prog(&mut st, 5, 32, &data);
    assert_eq!(code, 0);
    assert_eq!(st.writes, vec![(5 * 512 + 32, 16)]);
    assert_eq!(&st.data[5 * 512 + 32..5 * 512 + 48], &data);
}

#[test]
fn erase_callback_addresses_whole_blocks() {
    let mut st = RecordingStorage::new();
    let code = Filesystem::<RecordingStorage, FakeEngine>::lfs_config_erase(&mut st, 7);
    assert_eq!(code, 0);
    assert_eq!(st.erases, vec![(7 * 512, 512)]);
    assert!(st.data[7 * 512..8 * 512].iter().all(|&b| b == 0xFF));
    assert_eq!(st.data[7 * 512 - 1], ((7 * 512 - 1) % 251) as u8);
}

/// A device whose every operation fails.
struct FailingStorage;

impl Storage for FailingStorage {
    // Ghost items; never called at run time.
    fn geometry_spec() -> Geometry {
        unreachable!()
    }

    fn erased_byte() -> u8 {
        unreachable!()
    }

    fn device(&self) -> vstd::seq::Seq<u8> {
        unreachable!()
    }

    fn geometry() -> Geometry {
        RamStorage::geometry()
    }

    fn read(&mut self, _off: usize, _len: usize) -> Result<Vec<u8>, Error> {
        Err(Error::Corruption)
    }

    fn write(&mut self, _off: usize, _data: &[u8]) -> Result<usize, Error> {
        Err(Error::NoSpace)
    }

    fn erase(&mut self, _off: usize, _len: usize) -> Result<usize, Error> {
        Err(Error::Io)
    }
}

#[test]
fn callbacks_surface_storage_errors_as_generic_io() {
    let mut st = FailingStorage;
    let mut buf = vec![7u8; 16];
    let code = Filesystem::<FailingStorage, FakeEngine>::lfs_config_read(&mut st, 0, 0, &mut buf);
    assert_eq!(code, -5);
    assert_eq!(buf, vec![7u8; 16]);
    let code = Filesystem::<FailingStorage, FakeEngine>::lfs_config_prog(&mut st, 0, 0, &[1, 2]);
    assert_eq!(code, -5);
    let code = Filesystem::<FailingStorage, FakeEngine>::lfs_config_erase(&mut st, 0);
    assert_eq!(code, -5);
}

#[test]
fn sync_callback_is_a_success_no_op() {
    assert_eq!(
        Filesystem::<RecordingStorage, FakeEngine>::lfs_config_sync(),
        0
    );
}

// ---------------------------------------------------------------------------
// AnyStorage
// ---------------------------------------------------------------------------

struct Wrapper {
    inner: RamStorage,
}

impl AnyStorage for Wrapper {
    type RealStorage = RamStorage;

    fn storage_mut(&mut self) -> &mut RamStorage {
        &mut self.inner
    }
}

#[test]
fn any_storage_lends_the_wrapped_device() {
    let mut w = Wrapper {
        inner: RamStorage::new(),
    };
    let st = w.storage_mut();
    st.data[0] = 1;
    assert_eq!(w.inner.data[0], 1);
}

// ---------------------------------------------------------------------------
// End-to-end scenario on the 8192-byte RAM-backed volume
// ---------------------------------------------------------------------------

#[test]
fn end_to_end_scenario() {
    let mut storage = RamStorage::new();
    assert_eq!(Fs::format_storage(&mut storage).0, Ok(()));

    let mut fs = Fs::mount(storage);
    for dir in [
        &b"/opcard"[..],
        &b"/opcard/sec"[..],
        &b"/fido"[..],
        &b"/fido/sec"[..],
        &b"/fido/pub"[..],
    ] {
        assert_eq!(fs.create_dir_all(&Path::from_slice(dir)), Ok(()));
    }

    let names = [
        &b"/opcard/sec/d80635e987f6828d6309ee74430440d2"[..],
        &b"fido/sec/86db44e50171fb3689a9d67064e81834"[..],
        &b"fido/sec/26ca1024e1888c083e1f30d04ecb2dbc"[..],
    ];
    for name in names {
        let p = Path::from_slice(name);
        let mut file: RawFile<FakeEngine> = RawFile::new_uninit::<RamStorage>();
        let opts = OpenOptions::new().write(true).create(true);
        assert_eq!(fs.open_file(&p, &mut file, opts), Ok(()));
        assert_eq!(file.close(&mut fs), Ok(()));
    }

    // Reopen each file read-only: they exist now, so every open succeeds.
    for name in names {
        let p = Path::from_slice(name);
        let mut file: RawFile<FakeEngine> = RawFile::new_uninit::<RamStorage>();
        let opts = OpenOptions::new().read(true);
        assert_eq!(fs.open_file(&p, &mut file, opts), Ok(()));
        assert_eq!(file.close(&mut fs), Ok(()));
    }

    assert_eq!(fs.allocation.state.mount_count, 1);
    assert_eq!(fs.allocation.state.close_count, 6);
}
