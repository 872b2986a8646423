//! Bounded, NUL-free byte strings naming filesystem entries. The native
//! engine takes paths as NUL-terminated C strings; the terminator is implied
//! here and the invariant keeps the stored bytes free of interior NULs.

use vstd::prelude::*;

use crate::consts::PATH_MAX_PLUS_ONE;

verus! {

/// A path: an owned, length-bounded byte string without NUL bytes.
#[derive(Clone, Debug, PartialEq, Eq)]
pub struct Path {
    bytes: Vec<u8>,
}

/// The owned variant; in this crate the two representations coincide.
pub type PathBuf = Path;

impl View for Path {
    type V = Seq<u8>;

    closed spec fn view(&self) -> Seq<u8> {
        self.bytes@
    }
}

impl Path {
    /// The bytes fit the engine's path field and leave the C terminator
    /// unambiguous.
    pub open spec fn wf(&self) -> bool {
        &&& self@.len() < PATH_MAX_PLUS_ONE
        &&& forall|i: int| 0 <= i < self@.len() ==> self@[i] != 0
    }

    /// Copies a byte slice into an owned path.
    pub fn from_slice(s: &[u8]) -> (p: Path)
        requires
            s@.len() < PATH_MAX_PLUS_ONE,
            forall|i: int| 0 <= i < s@.len() ==> s@[i] != 0,
        ensures
            p@ == s@,
            p.wf(),
    {
        let mut bytes: Vec<u8> = Vec::new();
        let n = s.len();
        let mut i: usize = 0;
        while i < n
            invariant
                n == s@.len(),
                i <= n,
                bytes@ == s@.take(i as int),
            decreases n - i,
        {
            bytes.push(s[i]);
            proof {
                assert(s@.take(i + 1 as int) =~= s@.take(i as int).push(s@[i as int]));
            }
            i += 1;
        }
        proof {
            assert(bytes@ =~= s@);
        }
        Path { bytes }
    }

    /// The path made of the first `end` bytes of this one.
    pub fn prefix(&self, end: usize) -> (p: Path)
        requires
            self.wf(),
            end <= self@.len(),
        ensures
            p@ == self@.take(end as int),
            p.wf(),
    {
        let mut bytes: Vec<u8> = Vec::new();
        let mut i: usize = 0;
        while i < end
            invariant
                self.wf(),
                end <= self@.len(),
                i <= end,
                bytes@ == self@.take(i as int),
            decreases end - i,
        {
            bytes.push(self.bytes[i]);
            proof {
                assert(self@.take(i + 1 as int) =~= self@.take(i as int).push(self@[i as int]));
            }
            i += 1;
        }
        Path { bytes }
    }

    /// The stored bytes, without the implied terminator.
    pub fn as_slice(&self) -> (s: &[u8])
        ensures
            s@ == self@,
    {
        self.bytes.as_slice()
    }

    /// How many bytes the path holds.
    pub fn len(&self) -> (n: usize)
        ensures
            n == self@.len(),
    {
        self.bytes.len()
    }

    /// The byte at position `i`.
    pub fn get(&self, i: usize) -> (b: u8)
        requires
            i < self@.len(),
        ensures
            b == self@[i as int],
    {
        self.bytes[i]
    }
}

} // verus!
