//! The pluggability seam: any block device that honours this capability
//! contract can carry the filesystem.

use vstd::prelude::*;

use crate::io::Error;

verus! {

/// A block device's geometry, fixed per `Storage` implementation.
#[derive(Clone, Copy, Debug, PartialEq, Eq, Structural)]
pub struct Geometry {
    /// Smallest readable unit, in bytes.
    pub read_size: u32,
    /// Smallest programmable unit, in bytes.
    pub write_size: u32,
    /// Erase unit, in bytes.
    pub block_size: u32,
    /// Number of blocks on the device.
    pub block_count: u32,
    /// Erase-cycle budget per block before the engine relocates data;
    /// -1 disables wear leveling.
    pub block_cycles: i32,
    /// Size of each cache buffer, in bytes.
    pub cache_size: u32,
    /// Size of the lookahead window, in eight-byte words.
    pub lookahead_size: u32,
}

impl Geometry {
    /// Total device size in bytes.
    pub open spec fn device_size(self) -> int {
        self.block_size * self.block_count
    }

    /// The conditions the engine's configuration demands: all sizes positive,
    /// blocks at least 128 bytes, the cache a common multiple of the read and
    /// write sizes and a divisor of the block size, and totals that fit the
    /// configuration record's 32-bit fields.
    pub open spec fn valid(self) -> bool {
        &&& 0 < self.read_size
        &&& 0 < self.write_size
        &&& 128 <= self.block_size
        &&& 0 < self.cache_size
        &&& 0 < self.lookahead_size
        &&& 0 < self.block_count
        &&& (self.block_cycles == -1 || self.block_cycles > 0)
        &&& self.read_size <= self.cache_size
        &&& self.cache_size % self.read_size == 0
        &&& self.write_size <= self.cache_size
        &&& self.cache_size % self.write_size == 0
        &&& self.cache_size <= self.block_size
        &&& self.block_size % self.cache_size == 0
        &&& self.block_size * self.block_count <= u32::MAX
        &&& 8 * self.lookahead_size <= u32::MAX
    }

    /// Runtime check that mirrors `valid`; construction around a storage type
    /// whose geometry this rejects must not go ahead.
    pub fn is_valid(&self) -> (b: bool)
        ensures
            b == self.valid(),
    {
        proof {
            assert((self.block_size as int) * (self.block_count as int) <= 0xFFFF_FFFF
                * 0xFFFF_FFFF) by (nonlinear_arith)
                requires
                    0 <= self.block_size as int <= 0xFFFF_FFFF,
                    0 <= self.block_count as int <= 0xFFFF_FFFF,
            ;
        }
        self.read_size > 0 && self.write_size > 0 && self.block_size >= 128
            && self.cache_size > 0 && self.lookahead_size > 0 && self.block_count > 0
            && (self.block_cycles == -1 || self.block_cycles > 0)
            && self.read_size <= self.cache_size && self.cache_size % self.read_size == 0
            && self.write_size <= self.cache_size && self.cache_size % self.write_size == 0
            && self.cache_size <= self.block_size && self.block_size % self.cache_size == 0
            && (self.block_size as u64) * (self.block_count as u64) <= 0xFFFF_FFFFu64
            && (self.lookahead_size as u64) * 8 <= 0xFFFF_FFFFu64
    }
}

/// For every valid geometry the cache size is a positive common multiple of
/// the read and write sizes and a divisor of the block size.
pub proof fn lemma_cache_size_common_multiple(g: Geometry)
    requires
        g.valid(),
    ensures
        0 < g.cache_size,
        g.cache_size % g.read_size == 0,
        g.cache_size % g.write_size == 0,
        g.block_size % g.cache_size == 0,
{
}

/// A block device. Implementations guarantee that `read` and `write` move
/// exactly the requested bytes at the requested byte offset, that `erase`
/// resets exactly the given range to the device's defined erased value, and
/// that every operation either completes fully or reports an error; no
/// partial completion is signalled as success.
pub trait Storage: Sized {
    /// The device type's geometry.
    spec fn geometry_spec() -> Geometry;

    /// The device's defined erased value: the byte every erased cell holds.
    spec fn erased_byte() -> u8;

    /// The device's current byte content.
    spec fn device(&self) -> Seq<u8>;

    /// The geometry, as a value.
    fn geometry() -> (g: Geometry)
        ensures
            g == Self::geometry_spec(),
    ;

    /// Reads `len` bytes starting at byte offset `off`.
    fn read(&mut self, off: usize, len: usize) -> (r: Result<Vec<u8>, Error>)
        requires
            off + len <= old(self).device().len(),
        ensures
            final(self).device() == old(self).device(),
            r matches Ok(data) ==> data@ == old(self).device().subrange(
                off as int,
                off + len,
            ),
    ;

    /// Writes all of `data` starting at byte offset `off`.
    fn write(&mut self, off: usize, data: &[u8]) -> (r: Result<usize, Error>)
        requires
            off + data@.len() <= old(self).device().len(),
        ensures
            final(self).device().len() == old(self).device().len(),
            r matches Ok(n) ==> {
                &&& n == data@.len()
                &&& final(self).device() == old(self).device().subrange(0, off as int)
                    + data@
                    + old(self).device().subrange(
                        off + data@.len(),
                        old(self).device().len() as int,
                    )
            },
    ;

    /// Erases `len` bytes starting at byte offset `off`: on success the range
    /// holds the erased value and the rest of the device is untouched.
    fn erase(&mut self, off: usize, len: usize) -> (r: Result<usize, Error>)
        requires
            off + len <= old(self).device().len(),
        ensures
            final(self).device().len() == old(self).device().len(),
            r matches Ok(n) ==> n == len && forall|i: int|
                0 <= i < old(self).device().len()
                    ==> #[trigger] final(self).device()[i] == if off <= i < off + len {
                    Self::erased_byte()
                } else {
                    old(self).device()[i]
                },
    ;
}

} // verus!
