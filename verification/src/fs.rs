//! The filesystem lifecycle: buffers and configuration assembled once and
//! never implicitly rebuilt, exactly one mount per filesystem, every
//! operation wired through the configuration record, and a ghost history
//! that pins which engine calls each operation makes.

use vstd::prelude::*;

use crate::consts::{
    ATTRBYTES_MAX, FILEBYTES_MAX, FILENAME_MAX_PLUS_ONE, PATH_MAX_PLUS_ONE, PATH_SEPARATOR,
};
use crate::driver::{Geometry, Storage};
use crate::io::{code_of_error, error_code, error_of_code, result_from, Error};
use crate::ll::{Engine, Event, FileConfig, LfsCall, LfsConfig};
use crate::path::Path;

verus! {

// --------------------------------------------------------------------------
// Open flags
// --------------------------------------------------------------------------

/// Open for reading.
pub const FLAG_READ: u32 = 0x1;

/// Open for writing.
pub const FLAG_WRITE: u32 = 0x2;

/// Open for reading and writing.
pub const FLAG_READWRITE: u32 = 0x3;

/// Create the file if it does not exist.
pub const FLAG_CREATE: u32 = 0x100;

/// Fail if creating a file that already exists.
pub const FLAG_EXCL: u32 = 0x200;

/// Truncate the file if it already exists.
pub const FLAG_TRUNCATE: u32 = 0x400;

/// Open in append-only mode.
pub const FLAG_APPEND: u32 = 0x800;

/// Reading and writing together are exactly the union of the two flags.
pub proof fn lemma_readwrite_is_read_or_write()
    ensures
        FLAG_READWRITE == FLAG_READ | FLAG_WRITE,
{
    assert(0x3u32 == 0x1u32 | 0x2u32) by (bit_vector);
}

/// A set of open flags, reminiscent of the POSIX ones.
#[derive(Clone, Copy, Debug, PartialEq, Eq, Structural)]
pub struct OpenOptions(u32);

impl OpenOptions {
    /// The raw flag bits.
    pub closed spec fn bits_spec(&self) -> u32 {
        self.0
    }

    /// No flags set.
    pub fn new() -> (o: OpenOptions)
        ensures
            o.bits_spec() == 0u32,
    {
        OpenOptions(0)
    }

    /// The raw flag bits, as the engine's open call takes them.
    pub fn bits(&self) -> (b: u32)
        ensures
            b == self.bits_spec(),
    {
        self.0
    }

    /// Sets or clears the read flag.
    pub fn read(self, set: bool) -> (o: OpenOptions)
        ensures
            o.bits_spec() == if set {
                self.bits_spec() | FLAG_READ
            } else {
                self.bits_spec() & !FLAG_READ
            },
    {
        if set {
            OpenOptions(self.0 | FLAG_READ)
        } else {
            OpenOptions(self.0 & !FLAG_READ)
        }
    }

    /// Sets or clears the write flag.
    pub fn write(self, set: bool) -> (o: OpenOptions)
        ensures
            o.bits_spec() == if set {
                self.bits_spec() | FLAG_WRITE
            } else {
                self.bits_spec() & !FLAG_WRITE
            },
    {
        if set {
            OpenOptions(self.0 | FLAG_WRITE)
        } else {
            OpenOptions(self.0 & !FLAG_WRITE)
        }
    }

    /// Sets or clears the create flag.
    pub fn create(self, set: bool) -> (o: OpenOptions)
        ensures
            o.bits_spec() == if set {
                self.bits_spec() | FLAG_CREATE
            } else {
                self.bits_spec() & !FLAG_CREATE
            },
    {
        if set {
            OpenOptions(self.0 | FLAG_CREATE)
        } else {
            OpenOptions(self.0 & !FLAG_CREATE)
        }
    }

    /// Sets or clears the fail-if-existing flag.
    pub fn create_new(self, set: bool) -> (o: OpenOptions)
        ensures
            o.bits_spec() == if set {
                self.bits_spec() | FLAG_EXCL
            } else {
                self.bits_spec() & !FLAG_EXCL
            },
    {
        if set {
            OpenOptions(self.0 | FLAG_EXCL)
        } else {
            OpenOptions(self.0 & !FLAG_EXCL)
        }
    }

    /// Sets or clears the truncate flag.
    pub fn truncate(self, set: bool) -> (o: OpenOptions)
        ensures
            o.bits_spec() == if set {
                self.bits_spec() | FLAG_TRUNCATE
            } else {
                self.bits_spec() & !FLAG_TRUNCATE
            },
    {
        if set {
            OpenOptions(self.0 | FLAG_TRUNCATE)
        } else {
            OpenOptions(self.0 & !FLAG_TRUNCATE)
        }
    }

    /// Sets or clears the append flag.
    pub fn append(self, set: bool) -> (o: OpenOptions)
        ensures
            o.bits_spec() == if set {
                self.bits_spec() | FLAG_APPEND
            } else {
                self.bits_spec() & !FLAG_APPEND
            },
    {
        if set {
            OpenOptions(self.0 | FLAG_APPEND)
        } else {
            OpenOptions(self.0 & !FLAG_APPEND)
        }
    }
}

// --------------------------------------------------------------------------
// Cache buffers
// --------------------------------------------------------------------------

/// A zeroed byte buffer of length `n`.
fn zero_bytes(n: usize) -> (v: Vec<u8>)
    ensures
        v@.len() == n,
        forall|i: int| 0 <= i < n ==> v@[i] == 0u8,
{
    let mut v: Vec<u8> = Vec::new();
    let mut i: usize = 0;
    while i < n
        invariant
            i <= n,
            v@.len() == i,
            forall|j: int| 0 <= j < i ==> v@[j] == 0u8,
        decreases n - i,
    {
        v.push(0);
        i += 1;
    }
    v
}

/// A zeroed word buffer of length `n`.
fn zero_words(n: usize) -> (v: Vec<u64>)
    ensures
        v@.len() == n,
        forall|i: int| 0 <= i < n ==> v@[i] == 0u64,
{
    let mut v: Vec<u64> = Vec::new();
    let mut i: usize = 0;
    while i < n
        invariant
            i <= n,
            v@.len() == i,
            forall|j: int| 0 <= j < i ==> v@[j] == 0u64,
        decreases n - i,
    {
        v.push(0);
        i += 1;
    }
    v
}

/// The three scratch buffers the engine works in, sized from the storage
/// geometry. Their addresses go into the configuration record and must stay
/// stable for the mounted lifetime; the buffers are therefore owned here and
/// never reallocated.
pub struct Cache {
    pub read: Vec<u8>,
    pub write: Vec<u8>,
    pub lookahead: Vec<u64>,
}

impl Cache {
    /// Buffers sized as the geometry demands.
    pub open spec fn wf(&self, g: Geometry) -> bool {
        &&& self.read@.len() == g.cache_size
        &&& self.write@.len() == g.cache_size
        &&& self.lookahead@.len() == g.lookahead_size
    }

    /// Every byte and word of the three buffers is zero.
    pub open spec fn zeroed(&self) -> bool {
        &&& forall|i: int| 0 <= i < self.read@.len() ==> self.read@[i] == 0u8
        &&& forall|i: int| 0 <= i < self.write@.len() ==> self.write@[i] == 0u8
        &&& forall|i: int| 0 <= i < self.lookahead@.len() ==> self.lookahead@[i] == 0u64
    }

    /// Three zeroed buffers for storage type `S`.
    pub fn new<S: Storage>() -> (c: Cache)
        ensures
            c.wf(S::geometry_spec()),
            c.zeroed(),
    {
        let g = S::geometry();
        Cache {
            read: zero_bytes(g.cache_size as usize),
            write: zero_bytes(g.cache_size as usize),
            lookahead: zero_words(g.lookahead_size as usize),
        }
    }
}

// --------------------------------------------------------------------------
// Configuration records
// --------------------------------------------------------------------------

/// The configuration record as `Allocation::new` builds it: geometry copied
/// in, context and buffer slots still null.
pub open spec fn config_template(g: Geometry) -> LfsConfig {
    LfsConfig {
        context_set: false,
        read_size: g.read_size,
        prog_size: g.write_size,
        block_size: g.block_size,
        block_count: g.block_count,
        block_cycles: g.block_cycles,
        cache_size: g.cache_size,
        lookahead_size: (8 * g.lookahead_size) as u32,
        read_buffer_set: false,
        prog_buffer_set: false,
        lookahead_buffer_set: false,
        name_max: (FILENAME_MAX_PLUS_ONE - 1) as u32,
        file_max: FILEBYTES_MAX,
        attr_max: ATTRBYTES_MAX,
    }
}

/// The record after `configure` wired the context and buffer slots; this is
/// the only shape in which the record ever reaches the engine.
pub open spec fn config_wired(g: Geometry) -> LfsConfig {
    LfsConfig {
        context_set: true,
        read_buffer_set: true,
        prog_buffer_set: true,
        lookahead_buffer_set: true,
        ..config_template(g)
    }
}

// --------------------------------------------------------------------------
// Allocation
// --------------------------------------------------------------------------

/// The cache buffers, the configuration record and the engine's opaque state,
/// owned as one unit. In the native setting this unit is pinned — the engine
/// keeps its address for the whole mounted lifetime — so it lives exactly as
/// long as the filesystem that owns it and is only ever handed out by
/// reference.
pub struct Allocation<E: Engine> {
    pub cache: Cache,
    pub config: LfsConfig,
    pub state: E,
}

impl<E: Engine> Allocation<E> {
    /// Buffers sized to the geometry and a record that is either still
    /// unwired or fully wired.
    pub open spec fn wf(&self, g: Geometry) -> bool {
        &&& self.cache.wf(g)
        &&& (self.config == config_template(g) || self.config == config_wired(g))
    }

    /// Validates the geometry-derived sizes once and assembles the unit; the
    /// context and buffer slots stay null until mount time.
    pub fn new<S: Storage>() -> (a: Allocation<E>)
        requires
            S::geometry_spec().valid(),
        ensures
            a.wf(S::geometry_spec()),
            a.cache.zeroed(),
            a.config == config_template(S::geometry_spec()),
    {
        let g = S::geometry();

        // The engine's fixed-width field limits, checked once at construction.
        assert(FILENAME_MAX_PLUS_ONE > 1);
        assert(FILENAME_MAX_PLUS_ONE <= 1022 + 1);
        assert(PATH_MAX_PLUS_ONE >= FILENAME_MAX_PLUS_ONE);
        assert(FILEBYTES_MAX > 0 && FILEBYTES_MAX <= 2147483647);
        assert(ATTRBYTES_MAX > 0 && ATTRBYTES_MAX <= 1022);

        let cache = Cache::new::<S>();
        let config = LfsConfig {
            context_set: false,
            read_size: g.read_size,
            prog_size: g.write_size,
            block_size: g.block_size,
            block_count: g.block_count,
            block_cycles: g.block_cycles,
            cache_size: g.cache_size,
            lookahead_size: 8 * g.lookahead_size,
            read_buffer_set: false,
            prog_buffer_set: false,
            lookahead_buffer_set: false,
            name_max: FILENAME_MAX_PLUS_ONE - 1,
            file_max: FILEBYTES_MAX,
            attr_max: ATTRBYTES_MAX,
        };
        Allocation { cache, config, state: E::fresh() }
    }
}

// --------------------------------------------------------------------------
// Ghost history of engine calls
// --------------------------------------------------------------------------

/// A mount call, always made with the wired record.
pub open spec fn mount_event(g: Geometry, code: i32) -> Event {
    Event { call: LfsCall::Mount { config: config_wired(g) }, code }
}

/// A format call, always made with the wired record.
pub open spec fn format_event(g: Geometry, code: i32) -> Event {
    Event { call: LfsCall::Format { config: config_wired(g) }, code }
}

/// A mkdir call for the directory named by `p`.
pub open spec fn mkdir_event(p: Seq<u8>, code: i32) -> Event {
    Event { call: LfsCall::Mkdir { path: p }, code }
}

/// An open call, always made with the file's buffer wired.
pub open spec fn open_event(p: Seq<u8>, flags: u32, code: i32) -> Event {
    Event {
        call: LfsCall::FileOpen { path: p, flags, file_config: FileConfig { buffer_set: true } },
        code,
    }
}

/// A close call.
pub open spec fn close_event(code: i32) -> Event {
    Event { call: LfsCall::FileClose, code }
}

/// How a single engine status decides a unit result.
pub open spec fn code_result(code: i32, r: Result<(), Error>) -> bool {
    if code >= 0 {
        r == Ok::<(), Error>(())
    } else {
        r == Err::<(), Error>(error_of_code(code as int))
    }
}

/// The transition of the initialization step: on an already-mounted
/// filesystem it is a no-op that succeeds; otherwise exactly one mount call
/// is issued and its status decides the result and the new state.
pub open spec fn init_step(
    g: Geometry,
    pre_init: bool,
    post_init: bool,
    h0: Seq<Event>,
    h1: Seq<Event>,
    r: Result<(), Error>,
) -> bool {
    if pre_init {
        &&& post_init
        &&& h1 == h0
        &&& r == Ok::<(), Error>(())
    } else {
        &&& h1.len() == h0.len() + 1
        &&& h1.drop_last() == h0
        &&& h1.last() == mount_event(g, h1.last().code)
        &&& post_init == (h1.last().code >= 0)
        &&& code_result(h1.last().code, r)
    }
}

/// `h1` extends `h0` with the engine calls of one successful initialization
/// step: none when already mounted, one successful mount otherwise.
pub open spec fn mounted_events(g: Geometry, pre_init: bool, h0: Seq<Event>, h1: Seq<Event>) -> bool {
    if pre_init {
        h1 == h0
    } else {
        &&& h1.len() == h0.len() + 1
        &&& h1.drop_last() == h0
        &&& h1.last() == mount_event(g, h1.last().code)
        &&& h1.last().code >= 0
    }
}

/// `h1` extends `h0` with one failed mount call whose error is `r`; this can
/// only happen on a filesystem that was not yet mounted.
pub open spec fn failed_mount_events(
    g: Geometry,
    pre_init: bool,
    h0: Seq<Event>,
    h1: Seq<Event>,
    r: Result<(), Error>,
) -> bool {
    &&& !pre_init
    &&& h1.len() == h0.len() + 1
    &&& h1.drop_last() == h0
    &&& h1.last() == mount_event(g, h1.last().code)
    &&& h1.last().code < 0
    &&& r == Err::<(), Error>(error_of_code(h1.last().code as int))
}

/// One `create_dir`: the initialization step, then — once mounted — a single
/// mkdir call whose status decides the result.
pub open spec fn mkdir_op(
    g: Geometry,
    pre_init: bool,
    post_init: bool,
    h0: Seq<Event>,
    h1: Seq<Event>,
    p: Seq<u8>,
    r: Result<(), Error>,
) -> bool {
    ||| (failed_mount_events(g, pre_init, h0, h1, r) && !post_init)
    ||| {
        &&& post_init
        &&& h1.len() >= 1
        &&& mounted_events(g, pre_init, h0, h1.drop_last())
        &&& h1.last() == mkdir_event(p, h1.last().code)
        &&& code_result(h1.last().code, r)
    }
}

/// One `open_file`: the initialization step, then — once mounted — a single
/// open call, made with the file's buffer wired, whose status decides the
/// result.
pub open spec fn open_op(
    g: Geometry,
    pre_init: bool,
    post_init: bool,
    h0: Seq<Event>,
    h1: Seq<Event>,
    p: Seq<u8>,
    flags: u32,
    r: Result<(), Error>,
) -> bool {
    ||| (failed_mount_events(g, pre_init, h0, h1, r) && !post_init)
    ||| {
        &&& post_init
        &&& h1.len() >= 1
        &&& mounted_events(g, pre_init, h0, h1.drop_last())
        &&& h1.last() == open_event(p, flags, h1.last().code)
        &&& code_result(h1.last().code, r)
    }
}

/// Mount idempotence: an initialization step on a mounted filesystem issues
/// no engine call, changes nothing and succeeds; in particular a mount
/// followed by a second initialization step has issued exactly one mount
/// call in total.
pub proof fn lemma_mount_idempotent(
    g: Geometry,
    i0: bool,
    i1: bool,
    i2: bool,
    h0: Seq<Event>,
    h1: Seq<Event>,
    h2: Seq<Event>,
    r1: Result<(), Error>,
    r2: Result<(), Error>,
)
    requires
        init_step(g, i0, i1, h0, h1, r1),
        i1,
        init_step(g, i1, i2, h1, h2, r2),
    ensures
        h2 == h1,
        i2,
        r2 == Ok::<(), Error>(()),
        i0 ==> h2 == h0,
        !i0 ==> h2.len() == h0.len() + 1 && h2.last() == mount_event(g, h2.last().code),
{
}

/// The directories `create_dir_all` walks for `p`: one for each prefix that
/// ends at a separator, in order, then `p` itself.
pub open spec fn dir_sequence(p: Seq<u8>) -> Seq<Seq<u8>> {
    slash_prefixes(p, p.len() as int).push(p)
}

/// The prefixes of `p` that end just before a separator among its first `n`
/// bytes, shortest first.
pub open spec fn slash_prefixes(p: Seq<u8>, n: int) -> Seq<Seq<u8>>
    decreases n,
{
    if n <= 0 {
        Seq::empty()
    } else if p[n - 1] == PATH_SEPARATOR {
        slash_prefixes(p, n - 1).push(p.take(n - 1))
    } else {
        slash_prefixes(p, n - 1)
    }
}

proof fn lemma_slash_prefixes_prefix(p: Seq<u8>, i: int, j: int)
    requires
        0 <= i <= j <= p.len(),
    ensures
        slash_prefixes(p, i).len() <= slash_prefixes(p, j).len(),
        forall|k: int|
            0 <= k < slash_prefixes(p, i).len() ==> #[trigger] slash_prefixes(p, j)[k]
                == slash_prefixes(p, i)[k],
    decreases j - i,
{
    if i < j {
        lemma_slash_prefixes_prefix(p, i, j - 1);
    }
}

/// A status `create_dir_all` absorbs: success, or "the entry already
/// existed".
pub open spec fn absorbed(code: i32) -> bool {
    code >= 0 || error_of_code(code as int) == Error::EntryAlreadyExisted
}

/// A run of mkdir calls over the directories `dirs`, in order, every status
/// absorbed.
pub open spec fn mkdir_all_run(a: Seq<Event>, dirs: Seq<Seq<u8>>) -> bool {
    &&& a.len() == dirs.len()
    &&& forall|i: int|
        0 <= i < a.len() ==> #[trigger] a[i] == mkdir_event(dirs[i], a[i].code) && absorbed(
            a[i].code,
        )
}

/// The mkdir calls of one `create_dir_all` over the directory list `dirs`:
/// one call per directory in order, every status before the last absorbed,
/// and the result decided by the last status — success exactly when the walk
/// reached the end with an absorbed status.
pub open spec fn mkdir_trace(a: Seq<Event>, dirs: Seq<Seq<u8>>, r: Result<(), Error>) -> bool {
    &&& a.len() <= dirs.len()
    &&& forall|i: int| 0 <= i < a.len() ==> #[trigger] a[i] == mkdir_event(dirs[i], a[i].code)
    &&& forall|i: int| 0 <= i < a.len() - 1 ==> absorbed(#[trigger] a[i].code)
    &&& match r {
        Ok(()) => a.len() == dirs.len() && (a.len() > 0 ==> absorbed(a.last().code)),
        Err(e) => {
            &&& a.len() > 0
            &&& !absorbed(a.last().code)
            &&& a.last().code < 0
            &&& error_of_code(a.last().code as int) == e
        },
    }
}

/// Directory idempotence: when every status the engine answered was success
/// or "entry already existed" — as when every directory already exists —
/// `create_dir_all` succeeds.
pub proof fn lemma_create_dir_all_absorbs_existing(
    a: Seq<Event>,
    dirs: Seq<Seq<u8>>,
    r: Result<(), Error>,
)
    requires
        mkdir_trace(a, dirs, r),
        forall|i: int| 0 <= i < a.len() ==> absorbed(#[trigger] a[i].code),
    ensures
        r is Ok,
{
    if r is Err {
        assert(absorbed(a[a.len() - 1].code));
        assert(!absorbed(a.last().code));
    }
}

// --------------------------------------------------------------------------
// Filesystem
// --------------------------------------------------------------------------

/// Wires a configuration record: in the native setting this re-derives the
/// context and buffer addresses from the owner's current location, which is
/// why it runs before every operation; the record's values never change once
/// wired.
fn wire_config(config: &mut LfsConfig, Ghost(g): Ghost<Geometry>)
    requires
        *old(config) == config_template(g) || *old(config) == config_wired(g),
    ensures
        *final(config) == config_wired(g),
{
    config.context_set = true;
    config.read_buffer_set = true;
    config.prog_buffer_set = true;
    config.lookahead_buffer_set = true;
}

/// A filesystem: one allocation, one storage instance, and whether the single
/// mount call has happened. The ghost `history` records every call made into
/// the engine on its behalf.
pub struct Filesystem<S: Storage, E: Engine> {
    pub allocation: Allocation<E>,
    pub storage: S,
    pub initialized: bool,
    pub history: Ghost<Seq<Event>>,
}

impl<S: Storage, E: Engine> Filesystem<S, E> {
    /// The geometry is valid, the buffers fit it, and once mounted the record
    /// is wired.
    pub open spec fn wf(&self) -> bool {
        &&& S::geometry_spec().valid()
        &&& self.allocation.wf(S::geometry_spec())
        &&& (self.initialized ==> self.allocation.config == config_wired(S::geometry_spec()))
    }

    /// Constructs the filesystem around `storage`, unmounted; performs no
    /// engine call.
    pub fn mount(storage: S) -> (fs: Self)
        requires
            S::geometry_spec().valid(),
        ensures
            fs.wf(),
            !fs.initialized,
            fs.storage == storage,
            fs.history@ == Seq::<Event>::empty(),
            fs.allocation.cache.zeroed(),
            fs.allocation.config == config_template(S::geometry_spec()),
    {
        Filesystem {
            allocation: Allocation::<E>::new::<S>(),
            storage,
            initialized: false,
            history: Ghost(Seq::empty()),
        }
    }

    /// Rewires the context and buffer slots; runs before every operation.
    fn configure(&mut self)
        requires
            old(self).wf(),
        ensures
            final(self).wf(),
            final(self).allocation.config == config_wired(S::geometry_spec()),
            final(self).allocation.cache == old(self).allocation.cache,
            final(self).allocation.state == old(self).allocation.state,
            final(self).storage == old(self).storage,
            final(self).initialized == old(self).initialized,
            final(self).history == old(self).history,
    {
        wire_config(&mut self.allocation.config, Ghost(S::geometry_spec()));
    }

    /// Rewires the record and, only on a filesystem that is not yet mounted,
    /// issues the single mount call; mounted state and result follow the
    /// engine's status. Idempotent after the first success.
    pub fn ensure_initialized(&mut self) -> (r: Result<(), Error>)
        requires
            old(self).wf(),
        ensures
            final(self).wf(),
            init_step(
                S::geometry_spec(),
                old(self).initialized,
                final(self).initialized,
                old(self).history@,
                final(self).history@,
                r,
            ),
            final(self).allocation.config == config_wired(S::geometry_spec()),
            final(self).allocation.cache == old(self).allocation.cache,
            old(self).initialized ==> final(self).allocation.state == old(self).allocation.state
                && final(self).storage == old(self).storage,
    {
        self.configure();
        if self.initialized {
            return Ok(());
        }
        let code = self.allocation.state.lfs_mount(&mut self.storage, &self.allocation.config);
        proof {
            let h0 = self.history@;
            let ev = mount_event(S::geometry_spec(), code);
            assert(h0.push(ev).drop_last() =~= h0);
        }
        self.history = Ghost(self.history@.push(mount_event(S::geometry_spec(), code)));
        if code >= 0 {
            self.initialized = true;
        }
        result_from((), code)
    }

    /// Wires the record and issues one format call; the filesystem's mounted
    /// state does not change.
    pub fn format(&mut self) -> (r: Result<(), Error>)
        requires
            old(self).wf(),
        ensures
            final(self).wf(),
            final(self).initialized == old(self).initialized,
            final(self).history@.len() == old(self).history@.len() + 1,
            final(self).history@.drop_last() == old(self).history@,
            final(self).history@.last() == format_event(
                S::geometry_spec(),
                final(self).history@.last().code,
            ),
            code_result(final(self).history@.last().code, r),
    {
        self.configure();
        let code = self.allocation.state.lfs_format(&mut self.storage, &self.allocation.config);
        proof {
            let h0 = self.history@;
            let ev = format_event(S::geometry_spec(), code);
            assert(h0.push(ev).drop_last() =~= h0);
        }
        self.history = Ghost(self.history@.push(format_event(S::geometry_spec(), code)));
        result_from((), code)
    }

    /// One-shot: builds a throwaway allocation, wires it as `configure`
    /// would, issues a single format call to lay out the on-device
    /// structures, and discards the allocation again. The discarded unit
    /// leaves no history behind, so the single format call comes back as a
    /// ghost event: it was made with the wired record, and its status decides
    /// the result.
    pub fn format_storage(storage: &mut S) -> (r: (Result<(), Error>, Ghost<Event>))
        requires
            S::geometry_spec().valid(),
        ensures
            r.1@ == format_event(S::geometry_spec(), r.1@.code),
            code_result(r.1@.code, r.0),
    {
        let mut alloc = Allocation::<E>::new::<S>();
        wire_config(&mut alloc.config, Ghost(S::geometry_spec()));
        let code = alloc.state.lfs_format(storage, &alloc.config);
        (result_from((), code), Ghost(format_event(S::geometry_spec(), code)))
    }

    /// Creates a new, empty directory at `path`: the initialization step,
    /// then one mkdir call. "Entry already existed" is surfaced, not
    /// absorbed.
    pub fn create_dir(&mut self, path: &Path) -> (r: Result<(), Error>)
        requires
            old(self).wf(),
            path.wf(),
        ensures
            final(self).wf(),
            mkdir_op(
                S::geometry_spec(),
                old(self).initialized,
                final(self).initialized,
                old(self).history@,
                final(self).history@,
                path@,
                r,
            ),
            final(self).allocation.cache == old(self).allocation.cache,
            final(self).allocation.config == config_wired(S::geometry_spec()),
    {
        let r_init = self.ensure_initialized();
        if let Err(e) = r_init {
            return Err(e);
        }
        let code = self.allocation.state.lfs_mkdir(&mut self.storage, path);
        proof {
            let h0 = self.history@;
            let ev = mkdir_event(path@, code);
            assert(h0.push(ev).drop_last() =~= h0);
        }
        self.history = Ghost(self.history@.push(mkdir_event(path@, code)));
        result_from((), code)
    }

    /// Creates the directory at `path` and every missing ancestor: one mkdir
    /// call per prefix ending at a separator, in order, then one for `path`
    /// itself. "Entry already existed" counts as success at every step; the
    /// first other error is returned and stops the walk.
    #[verifier::loop_isolation(false)]
    pub fn create_dir_all(&mut self, path: &Path) -> (r: Result<(), Error>)
        requires
            old(self).wf(),
            path.wf(),
        ensures
            final(self).wf(),
            ({
                let g = S::geometry_spec();
                let h0 = old(self).history@;
                let h1 = final(self).history@;
                let m = if old(self).initialized {
                    h0.len() as int
                } else {
                    h0.len() as int + 1
                };
                ||| (failed_mount_events(g, old(self).initialized, h0, h1, r)
                    && !final(self).initialized)
                ||| {
                    &&& final(self).initialized
                    &&& m <= h1.len()
                    &&& mounted_events(g, old(self).initialized, h0, h1.take(m))
                    &&& mkdir_trace(h1.skip(m), dir_sequence(path@), r)
                }
            }),
    {
        let ghost g = S::geometry_spec();
        let ghost pre_init = old(self).initialized;
        let ghost h0 = old(self).history@;

        let r_init = self.ensure_initialized();
        if let Err(e) = r_init {
            return Err(e);
        }

        let ghost hb = self.history@;
        let ghost m = hb.len() as int;
        let ghost dirs = dir_sequence(path@);
        proof {
            assert(mounted_events(g, pre_init, h0, hb));
            assert(hb.take(m) =~= hb);
            assert(hb.skip(m) =~= Seq::<Event>::empty());
        }

        let n = path.len();
        let mut i: usize = 0;
        while i < n
            invariant
                self.wf(),
                self.initialized,
                path.wf(),
                n == path@.len(),
                i <= n,
                m == hb.len(),
                mounted_events(g, pre_init, h0, hb),
                m <= self.history@.len(),
                self.history@.take(m) == hb,
                mkdir_all_run(self.history@.skip(m), slash_prefixes(path@, i as int)),
            decreases n - i,
        {
            if path.get(i) == PATH_SEPARATOR {
                let dir = path.prefix(i);
                let ghost h_pre = self.history@;
                let ghost run_pre = h_pre.skip(m);
                let ghost prefs = slash_prefixes(path@, i as int);
                let res = self.create_dir(&dir);
                let ghost h_new = self.history@;
                let ghost code = h_new.last().code;
                proof {
                    assert(h_new =~= h_pre.push(mkdir_event(dir@, code)));
                    assert(h_new.take(m) =~= h_pre.take(m));
                    assert(h_new.skip(m) =~= run_pre.push(mkdir_event(dir@, code)));
                    assert(slash_prefixes(path@, i + 1) == prefs.push(path@.take(i as int)));
                }
                match res {
                    Ok(()) => {
                        proof {
                            assert(code >= 0);
                            lemma_run_extend(h_new.skip(m), run_pre, prefs, path@.take(i as int), code);
                        }
                    },
                    Err(Error::EntryAlreadyExisted) => {
                        proof {
                            assert(code < 0 && error_of_code(code as int)
                                == Error::EntryAlreadyExisted);
                            lemma_run_extend(h_new.skip(m), run_pre, prefs, path@.take(i as int), code);
                        }
                    },
                    Err(e) => {
                        proof {
                            lemma_slash_prefixes_prefix(path@, i as int + 1, n as int);
                            let lp = slash_prefixes(path@, n as int);
                            assert(prefs.len() < dirs.len());
                            assert(lp[prefs.len() as int] == slash_prefixes(
                                path@,
                                i as int + 1,
                            )[prefs.len() as int]);
                            assert(dirs[prefs.len() as int] == path@.take(i as int));
                            assert forall|k: int| 0 <= k < prefs.len() implies #[trigger] dirs[k]
                                == prefs[k] by {
                                assert(lp[k] == slash_prefixes(path@, i as int + 1)[k]);
                                assert(slash_prefixes(path@, i as int + 1)[k] == prefs[k]);
                                assert(dirs[k] == lp[k]);
                            }
                            lemma_trace_from_run(
                                h_new.skip(m),
                                run_pre,
                                prefs,
                                dirs,
                                path@.take(i as int),
                                code,
                                Err(e),
                            );
                        }
                        return Err(e);
                    },
                }
            } else {
                proof {
                    assert(slash_prefixes(path@, i + 1) == slash_prefixes(path@, i as int));
                }
            }
            i += 1;
        }

        let ghost h_pre = self.history@;
        let ghost run_pre = h_pre.skip(m);
        let ghost prefs = slash_prefixes(path@, n as int);
        let res = self.create_dir(path);
        let ghost h_new = self.history@;
        let ghost code = h_new.last().code;
        proof {
            assert(h_new =~= h_pre.push(mkdir_event(path@, code)));
            assert(h_new.take(m) =~= h_pre.take(m));
            assert(h_new.skip(m) =~= run_pre.push(mkdir_event(path@, code)));
            assert(dirs == prefs.push(path@));
        }
        match res {
            Ok(()) => {
                proof {
                    lemma_trace_from_run(h_new.skip(m), run_pre, prefs, dirs, path@, code, Ok(()));
                }
                Ok(())
            },
            Err(Error::EntryAlreadyExisted) => {
                proof {
                    lemma_trace_from_run(h_new.skip(m), run_pre, prefs, dirs, path@, code, Ok(()));
                }
                Ok(())
            },
            Err(e) => {
                proof {
                    lemma_trace_from_run(h_new.skip(m), run_pre, prefs, dirs, path@, code, Err(e));
                }
                Err(e)
            },
        }
    }
}

// --------------------------------------------------------------------------
// File handles
// --------------------------------------------------------------------------

/// Per-file state: the file's own cache buffer, the engine's opaque per-file
/// state, and the per-file configuration record that points at the buffer.
/// Like the allocation, this unit is address-stable for as long as the engine
/// holds it: from a successful open until `close`.
pub struct RawFile<E: Engine> {
    pub cache: Vec<u8>,
    pub state: E::File,
    pub config: FileConfig,
}

impl<E: Engine> RawFile<E> {
    /// An explicitly uninitialized file for storage type `S`: zeroed cache and
    /// state, buffer slot still null. It must be initialized through
    /// `open_file` before any other use, and closed before it is discarded.
    pub fn new_uninit<S: Storage>() -> (f: RawFile<E>)
        requires
            S::geometry_spec().valid(),
        ensures
            f.cache@.len() == S::geometry_spec().cache_size,
            forall|i: int| 0 <= i < f.cache@.len() ==> f.cache@[i] == 0u8,
            f.config == (FileConfig { buffer_set: false }),
    {
        let g = S::geometry();
        RawFile {
            cache: zero_bytes(g.cache_size as usize),
            state: E::fresh_file(),
            config: FileConfig { buffer_set: false },
        }
    }

    /// Closes the file against the filesystem it was opened on — closing needs
    /// the live owner, which the file itself does not hold — with exactly one
    /// engine close call.
    pub fn close<S: Storage>(&mut self, fs: &mut Filesystem<S, E>) -> (r: Result<(), Error>)
        requires
            old(fs).wf(),
        ensures
            final(fs).wf(),
            final(fs).initialized == old(fs).initialized,
            final(fs).history@.len() == old(fs).history@.len() + 1,
            final(fs).history@.drop_last() == old(fs).history@,
            final(fs).history@.last() == close_event(final(fs).history@.last().code),
            code_result(final(fs).history@.last().code, r),
            final(fs).allocation.cache == old(fs).allocation.cache,
            final(fs).allocation.config == old(fs).allocation.config,
    {
        let code = fs.allocation.state.lfs_file_close(&mut fs.storage, &mut self.state);
        proof {
            let h0 = fs.history@;
            assert(h0.push(close_event(code)).drop_last() =~= h0);
        }
        fs.history = Ghost(fs.history@.push(close_event(code)));
        result_from((), code)
    }
}

impl<S: Storage, E: Engine> Filesystem<S, E> {
    /// Opens the file at `path` with the given options: the initialization
    /// step, then the file's buffer is wired into its record and one engine
    /// open call is issued with the requested flag bits.
    pub fn open_file(&mut self, path: &Path, file: &mut RawFile<E>, options: OpenOptions) -> (r:
        Result<(), Error>)
        requires
            old(self).wf(),
            path.wf(),
        ensures
            final(self).wf(),
            open_op(
                S::geometry_spec(),
                old(self).initialized,
                final(self).initialized,
                old(self).history@,
                final(self).history@,
                path@,
                options.bits_spec(),
                r,
            ),
            final(file).cache@ == old(file).cache@,
            final(self).allocation.cache == old(self).allocation.cache,
            final(self).initialized ==> final(file).config == (FileConfig { buffer_set: true }),
            !final(self).initialized ==> *final(file) == *old(file),
    {
        let r_init = self.ensure_initialized();
        if let Err(e) = r_init {
            return Err(e);
        }
        file.config = FileConfig { buffer_set: true };
        let code = self.allocation.state.lfs_file_opencfg(
            &mut self.storage,
            &mut file.state,
            path,
            options.bits(),
            &file.config,
        );
        proof {
            let h0 = self.history@;
            assert(h0.push(open_event(path@, options.bits_spec(), code)).drop_last() =~= h0);
        }
        self.history = Ghost(self.history@.push(open_event(path@, options.bits_spec(), code)));
        result_from((), code)
    }

    /// Opens the file at `path` and, if that succeeds, hands the opened file
    /// to `f` and returns `f`'s result; an open failure is returned unchanged
    /// and `f` is not called — the result is then the open error and the file
    /// holds whatever the failed open left (untouched when the mount failed,
    /// its buffer wired otherwise). On success the result is a possible
    /// answer of `f` on the opened file — zeroed-cache, buffer wired — and
    /// the file ends as `f` left it.
    pub fn open_file_and_then<R, F: FnOnce(&mut RawFile<E>) -> Result<R, Error>>(
        &mut self,
        path: &Path,
        file: &mut RawFile<E>,
        options: OpenOptions,
        f: F,
    ) -> (r: Result<R, Error>)
        requires
            old(self).wf(),
            path.wf(),
            forall|fi: &mut RawFile<E>| call_requires(f, (fi,)),
        ensures
            final(self).wf(),
            exists|ro: Result<(), Error>|
                {
                    &&& #[trigger] open_op(
                        S::geometry_spec(),
                        old(self).initialized,
                        final(self).initialized,
                        old(self).history@,
                        final(self).history@,
                        path@,
                        options.bits_spec(),
                        ro,
                    )
                    &&& (ro matches Err(e) ==> {
                        &&& r == Err::<R, Error>(e)
                        &&& final(file).cache@ == old(file).cache@
                        &&& (!final(self).initialized ==> *final(file) == *old(file))
                        &&& (final(self).initialized ==> final(file).config == (FileConfig {
                            buffer_set: true,
                        }))
                    })
                    &&& (ro is Ok ==> exists|fi: &mut RawFile<E>|
                        {
                            &&& #[trigger] call_ensures(f, (fi,), r)
                            &&& (*fi).cache@ == old(file).cache@
                            &&& (*fi).config == (FileConfig { buffer_set: true })
                            &&& *final(fi) == *final(file)
                        })
                },
    {
        let r_open = self.open_file(path, file, options);
        if let Err(e) = r_open {
            let ghost ro = r_open;
            proof {
                assert(open_op(
                    S::geometry_spec(),
                    old(self).initialized,
                    self.initialized,
                    old(self).history@,
                    self.history@,
                    path@,
                    options.bits_spec(),
                    ro,
                ));
            }
            return Err(e);
        }
        let out = f(file);
        proof {
            let ro = Ok::<(), Error>(());
            assert(open_op(
                S::geometry_spec(),
                old(self).initialized,
                self.initialized,
                old(self).history@,
                self.history@,
                path@,
                options.bits_spec(),
                ro,
            ));
        }
        out
    }
}

// --------------------------------------------------------------------------
// Callback bridge
// --------------------------------------------------------------------------

/// A block index and intra-block window name bytes inside the device.
proof fn lemma_block_addressing(g: Geometry, block: u32, within: int)
    requires
        g.valid(),
        block < g.block_count,
        0 <= within <= g.block_size,
    ensures
        block * g.block_size + within <= g.device_size(),
{
    assert(block as int * g.block_size as int + within <= g.block_size as int
        * g.block_count as int) by (nonlinear_arith)
        requires
            block as int <= g.block_count as int - 1,
            0 <= within <= g.block_size as int,
            0 < g.block_size as int,
            0 < g.block_count as int,
    ;
}

impl<S: Storage, E: Engine> Filesystem<S, E> {
    /// Engine read callback: a read of block `block` at intra-block offset
    /// `off` lands at absolute byte offset `block * block_size + off` on the
    /// storage; `buffer.len()` bytes are read. A storage error is surfaced as
    /// the engine's generic I/O code — the storage error's detail is lost at
    /// this boundary.
    pub fn lfs_config_read(storage: &mut S, block: u32, off: u32, buffer: &mut Vec<u8>) -> (code:
        i32)
        requires
            S::geometry_spec().valid(),
            old(storage).device().len() == S::geometry_spec().device_size(),
            block < S::geometry_spec().block_count,
            off + old(buffer)@.len() <= S::geometry_spec().block_size,
        ensures
            final(storage).device() == old(storage).device(),
            final(buffer)@.len() == old(buffer)@.len(),
            code == 0 ==> final(buffer)@ == old(storage).device().subrange(
                block * S::geometry_spec().block_size + off,
                block * S::geometry_spec().block_size + off + old(buffer)@.len(),
            ),
            code != 0 ==> code == code_of_error(Error::Io) && final(buffer)@ == old(buffer)@,
    {
        let g = S::geometry();
        let len = buffer.len();
        proof {
            lemma_block_addressing(g, block, off as int + len as int);
        }
        let abs: usize = (block as usize) * (g.block_size as usize) + (off as usize);
        match storage.read(abs, len) {
            Ok(data) => {
                *buffer = data;
                0
            },
            Err(_) => error_code(Error::Io),
        }
    }

    /// Engine program callback: same addressing as the read callback, writing
    /// all of `data` at `block * block_size + off`. A storage error is
    /// surfaced as the engine's generic I/O code.
    pub fn lfs_config_prog(storage: &mut S, block: u32, off: u32, data: &[u8]) -> (code: i32)
        requires
            S::geometry_spec().valid(),
            old(storage).device().len() == S::geometry_spec().device_size(),
            block < S::geometry_spec().block_count,
            off + data@.len() <= S::geometry_spec().block_size,
        ensures
            final(storage).device().len() == old(storage).device().len(),
            code == 0 ==> final(storage).device() == old(storage).device().subrange(
                0,
                block * S::geometry_spec().block_size + off,
            ) + data@ + old(storage).device().subrange(
                block * S::geometry_spec().block_size + off + data@.len(),
                old(storage).device().len() as int,
            ),
            code != 0 ==> code == code_of_error(Error::Io),
    {
        let g = S::geometry();
        proof {
            lemma_block_addressing(g, block, off as int + data@.len() as int);
        }
        let abs: usize = (block as usize) * (g.block_size as usize) + (off as usize);
        match storage.write(abs, data) {
            Ok(_) => 0,
            Err(_) => error_code(Error::Io),
        }
    }

    /// Engine erase callback: resets exactly the block `block` — the bytes at
    /// absolute offsets `block * block_size` up to the next block — to the
    /// device's erased value, leaving every other block untouched. A storage
    /// error is surfaced as the engine's generic I/O code.
    pub fn lfs_config_erase(storage: &mut S, block: u32) -> (code: i32)
        requires
            S::geometry_spec().valid(),
            old(storage).device().len() == S::geometry_spec().device_size(),
            block < S::geometry_spec().block_count,
        ensures
            final(storage).device().len() == old(storage).device().len(),
            code == 0 ==> forall|i: int|
                0 <= i < old(storage).device().len()
                    ==> #[trigger] final(storage).device()[i] == if block
                    * S::geometry_spec().block_size <= i < block * S::geometry_spec().block_size
                    + S::geometry_spec().block_size {
                    S::erased_byte()
                } else {
                    old(storage).device()[i]
                },
            code != 0 ==> code == code_of_error(Error::Io),
    {
        let g = S::geometry();
        proof {
            lemma_block_addressing(g, block, g.block_size as int);
        }
        let abs: usize = (block as usize) * (g.block_size as usize);
        match storage.erase(abs, g.block_size as usize) {
            Ok(_) => 0,
            Err(_) => error_code(Error::Io),
        }
    }

    /// Engine sync callback: `Storage::write` and `Storage::erase` are taken
    /// as synchronous and durable, so there is nothing to flush; always
    /// succeeds.
    pub fn lfs_config_sync() -> (code: i32)
        ensures
            code == 0,
    {
        0
    }
}

/// Anything that can lend out the concrete storage it wraps.
pub trait AnyStorage {
    /// The wrapped block device type.
    type RealStorage: Storage;

    /// The wrapped device.
    fn storage_mut(&mut self) -> &mut Self::RealStorage;
}

/// Extending an absorbed mkdir run by one absorbed call keeps it a run.
proof fn lemma_run_extend(
    a_new: Seq<Event>,
    a_old: Seq<Event>,
    dirs_old: Seq<Seq<u8>>,
    dir: Seq<u8>,
    code: i32,
)
    requires
        mkdir_all_run(a_old, dirs_old),
        a_new == a_old.push(mkdir_event(dir, code)),
        absorbed(code),
    ensures
        mkdir_all_run(a_new, dirs_old.push(dir)),
{
    let dirs_new = dirs_old.push(dir);
    assert forall|j: int| 0 <= j < a_new.len() implies #[trigger] a_new[j] == mkdir_event(
        dirs_new[j],
        a_new[j].code,
    ) && absorbed(a_new[j].code) by {
        if j < a_old.len() {
            assert(a_new[j] == a_old[j]);
            assert(dirs_new[j] == dirs_old[j]);
        } else {
            assert(a_new[j] == mkdir_event(dir, code));
        }
    }
}

/// An absorbed run over a prefix of `dirs`, extended with one more call for
/// the next directory, is a full `create_dir_all` trace whose result follows
/// that call's status.
proof fn lemma_trace_from_run(
    a: Seq<Event>,
    run: Seq<Event>,
    prefs: Seq<Seq<u8>>,
    dirs: Seq<Seq<u8>>,
    dir: Seq<u8>,
    code: i32,
    r: Result<(), Error>,
)
    requires
        mkdir_all_run(run, prefs),
        a == run.push(mkdir_event(dir, code)),
        prefs.len() < dirs.len() || (prefs.len() <= dirs.len() && r is Ok),
        prefs.len() < dirs.len() ==> dirs[prefs.len() as int] == dir,
        forall|k: int| 0 <= k < prefs.len() ==> #[trigger] dirs[k] == prefs[k],
        match r {
            Ok(()) => absorbed(code) && prefs.len() + 1 == dirs.len() && dirs[prefs.len() as int]
                == dir,
            Err(e) => {
                &&& !absorbed(code)
                &&& code < 0
                &&& error_of_code(code as int) == e
            },
        },
    ensures
        mkdir_trace(a, dirs, r),
{
    assert forall|j: int| 0 <= j < a.len() implies #[trigger] a[j] == mkdir_event(
        dirs[j],
        a[j].code,
    ) by {
        if j < run.len() {
            assert(a[j] == run[j]);
            assert(run[j] == mkdir_event(prefs[j], run[j].code));
        } else {
            assert(a[j] == mkdir_event(dir, code));
        }
    }
    assert forall|j: int| 0 <= j < a.len() - 1 implies absorbed(#[trigger] a[j].code) by {
        assert(a[j] == run[j]);
        assert(run[j] == mkdir_event(prefs[j], run[j].code) && absorbed(run[j].code));
    }
    assert(a.last() == mkdir_event(dir, code));
}

} // verus!
