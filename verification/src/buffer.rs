//! The invocation buffer.
//!
//! The host hands the program exactly one byte buffer per invocation;
//! every account record, the instruction payload and the program
//! identifier live inside it. `HostBuffer` owns those bytes for the
//! invocation's lifetime and offers byte-level access to them; account
//! handles are offsets into it.

use vstd::prelude::*;
use vstd::bytes::{spec_u32_from_le_bytes, spec_u64_from_le_bytes, spec_u64_to_le_bytes};
use vstd::bytes::{u32_from_le_bytes, u64_from_le_bytes, u64_to_le_bytes};
use vstd::bytes::lemma_auto_spec_u64_to_from_le_bytes;
use vstd::slice::{slice_subrange, slice_to_vec};
use crate::layout::eq_except;

verus! {

broadcast use vstd::std_specs::vec::axiom_spec_len;

/// The single host-supplied input buffer of one invocation.
pub struct HostBuffer {
    buf: Vec<u8>,
}

impl View for HostBuffer {
    type V = Seq<u8>;

    closed spec fn view(&self) -> Seq<u8> {
        self.buf@
    }
}

impl HostBuffer {
    /// Wraps the raw bytes the host passed in.
    pub(crate) fn from_vec(v: Vec<u8>) -> (b: HostBuffer)
        ensures
            b@ == v@,
    {
        HostBuffer { buf: v }
    }

    /// Number of bytes in the buffer.
    pub fn len(&self) -> (n: usize)
        ensures
            n == self@.len(),
    {
        self.buf.len()
    }

    /// The buffer is an actual allocation, so its length fits a machine
    /// word.
    pub proof fn lemma_len_bound(&self)
        ensures
            self@.len() <= usize::MAX,
    {
        assert(self.buf@.len() == vstd::std_specs::vec::spec_vec_len(&self.buf));
    }

    /// The byte at offset `i`.
    pub(crate) fn byte_at(&self, i: usize) -> (x: u8)
        requires
            i < self@.len(),
        ensures
            x == self@[i as int],
    {
        self.buf[i]
    }

    /// Overwrites the byte at offset `i`.
    pub(crate) fn set_byte(&mut self, i: usize, v: u8)
        requires
            i < old(self)@.len(),
        ensures
            final(self)@ == old(self)@.update(i as int, v),
    {
        self.buf[i] = v;
    }

    /// Reads the little-endian 64-bit value at offset `off`.
    pub(crate) fn read_u64(&self, off: usize) -> (x: u64)
        requires
            off + 8 <= self@.len(),
        ensures
            x == spec_u64_from_le_bytes(self@.subrange(off as int, off + 8)),
    {
        let _len = self.buf.len();
        u64_from_le_bytes(slice_subrange(self.buf.as_slice(), off, off + 8))
    }

    /// Reads the little-endian 32-bit value at offset `off`.
    pub(crate) fn read_u32(&self, off: usize) -> (x: u32)
        requires
            off + 4 <= self@.len(),
        ensures
            x == spec_u32_from_le_bytes(self@.subrange(off as int, off + 4)),
    {
        let _len = self.buf.len();
        u32_from_le_bytes(slice_subrange(self.buf.as_slice(), off, off + 4))
    }

    /// Writes `x` at offset `off` as 8 little-endian bytes.
    pub(crate) fn write_u64(&mut self, off: usize, x: u64)
        requires
            off + 8 <= old(self)@.len(),
        ensures
            final(self)@.len() == old(self)@.len(),
            eq_except(final(self)@, old(self)@, off as int, off + 8),
            final(self)@.subrange(off as int, off + 8) == spec_u64_to_le_bytes(x),
            spec_u64_from_le_bytes(final(self)@.subrange(off as int, off + 8)) == x,
    {
        proof {
            lemma_auto_spec_u64_to_from_le_bytes();
        }
        let _len = self.buf.len();
        let bytes = u64_to_le_bytes(x);
        let ghost prior = self.buf@;
        let mut j: usize = 0;
        while j < 8
            invariant
                bytes@ == spec_u64_to_le_bytes(x),
                bytes@.len() == 8,
                off + 8 <= prior.len() <= usize::MAX,
                self.buf@.len() == prior.len(),
                0 <= j <= 8,
                forall|k: int| 0 <= k < prior.len() && !(off <= k < off + j) ==> self.buf@[k]
                    == prior[k],
                forall|k: int| 0 <= k < j ==> self.buf@[off + k] == bytes@[k],
            decreases 8 - j,
        {
            self.buf[off + j] = bytes[j];
            j += 1;
        }
        proof {
            assert(self.buf@.subrange(off as int, off + 8) =~= bytes@);
        }
    }

    /// Copies `n` bytes starting at offset `off` out of the buffer.
    pub(crate) fn copy_range(&self, off: usize, n: usize) -> (v: Vec<u8>)
        requires
            off + n <= self@.len(),
        ensures
            v@ == self@.subrange(off as int, off + n),
    {
        let _len = self.buf.len();
        slice_to_vec(slice_subrange(self.buf.as_slice(), off, off + n))
    }

    /// Borrows the `n` bytes starting at offset `off`.
    pub(crate) fn slice_range(&self, off: usize, n: usize) -> (s: &[u8])
        requires
            off + n <= self@.len(),
        ensures
            s@ == self@.subrange(off as int, off + n),
    {
        let _len = self.buf.len();
        slice_subrange(self.buf.as_slice(), off, off + n)
    }
}

} // verus!
