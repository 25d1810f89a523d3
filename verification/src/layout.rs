//! The fixed record layout.
//!
//! Each account record lives inside the host input buffer at some offset
//! `rec` and starts with an 88-byte header, immediately followed by the
//! record's data region. The functions here read the header fields of a
//! record straight out of a byte sequence, so that every contract in the
//! crate can speak about the buffer's contents at the byte level.

use vstd::prelude::*;
use vstd::bytes::{spec_u32_from_le_bytes, spec_u64_from_le_bytes};

verus! {

/// Size in bytes of a record header.
pub const HEADER_LEN: usize = 88;

/// Host-imposed ceiling on how much an account's data region may grow
/// within one invocation. The host serializes this many reserve bytes
/// after every record's data.
pub const GROWTH_CEILING: usize = 10240;

/// Marker byte introducing a full record entry in the input buffer. Any
/// other marker value names an earlier slot that this slot duplicates.
pub const NON_DUP_MARKER: u8 = 255;

/// Record entries are padded so that the bytes after the growth reserve
/// end at a multiple of this alignment.
pub const ENTRY_ALIGNMENT: usize = 16;

/// Offset of the access-grant status byte within a record header.
pub const BORROW_STATE_OFFSET: usize = 0;

/// Offset of the is-signer flag byte.
pub const IS_SIGNER_OFFSET: usize = 1;

/// Offset of the is-writable flag byte.
pub const IS_WRITABLE_OFFSET: usize = 2;

/// Offset of the executable flag byte.
pub const EXECUTABLE_OFFSET: usize = 3;

/// Offset of the 32-bit original data length.
pub const ORIGINAL_LEN_OFFSET: usize = 4;

/// Offset of the 32-byte account key.
pub const KEY_OFFSET: usize = 8;

/// Offset of the 32-byte owner identifier.
pub const OWNER_OFFSET: usize = 40;

/// Offset of the 64-bit balance field.
pub const LAMPORTS_OFFSET: usize = 72;

/// Offset of the 64-bit current data length.
pub const DATA_LEN_OFFSET: usize = 80;

/// The access-grant status byte of the record at `rec`.
pub open spec fn rec_borrow_state(b: Seq<u8>, rec: int) -> u8 {
    b[rec + BORROW_STATE_OFFSET]
}

/// Whether the transaction was signed by the record at `rec`.
pub open spec fn rec_is_signer(b: Seq<u8>, rec: int) -> bool {
    b[rec + IS_SIGNER_OFFSET] != 0
}

/// Whether the record at `rec` is writable.
pub open spec fn rec_is_writable(b: Seq<u8>, rec: int) -> bool {
    b[rec + IS_WRITABLE_OFFSET] != 0
}

/// Whether the record at `rec` holds a loaded program.
pub open spec fn rec_executable(b: Seq<u8>, rec: int) -> bool {
    b[rec + EXECUTABLE_OFFSET] != 0
}

/// The data length of the record at `rec` as serialized at invocation
/// start; growth is bounded relative to this value.
pub open spec fn rec_original_len(b: Seq<u8>, rec: int) -> u32 {
    spec_u32_from_le_bytes(b.subrange(rec + ORIGINAL_LEN_OFFSET, rec + KEY_OFFSET))
}

/// The 32-byte key of the record at `rec`.
pub open spec fn rec_key(b: Seq<u8>, rec: int) -> Seq<u8> {
    b.subrange(rec + KEY_OFFSET, rec + OWNER_OFFSET)
}

/// The 32-byte owner identifier of the record at `rec`.
pub open spec fn rec_owner(b: Seq<u8>, rec: int) -> Seq<u8> {
    b.subrange(rec + OWNER_OFFSET, rec + LAMPORTS_OFFSET)
}

/// The balance of the record at `rec`.
pub open spec fn rec_lamports(b: Seq<u8>, rec: int) -> u64 {
    spec_u64_from_le_bytes(b.subrange(rec + LAMPORTS_OFFSET, rec + DATA_LEN_OFFSET))
}

/// The current data length of the record at `rec`.
pub open spec fn rec_data_len(b: Seq<u8>, rec: int) -> u64 {
    spec_u64_from_le_bytes(b.subrange(rec + DATA_LEN_OFFSET, rec + HEADER_LEN))
}

/// The data region of the record at `rec`: the `rec_data_len` bytes that
/// immediately follow the header.
pub open spec fn rec_data(b: Seq<u8>, rec: int) -> Seq<u8> {
    b.subrange(rec + HEADER_LEN, rec + HEADER_LEN + rec_data_len(b, rec))
}

/// A record at `rec` is well formed inside buffer `b` when its header,
/// its original data and the growth reserve all lie inside the buffer,
/// and its current data length never exceeds the original length plus
/// the growth ceiling, so the data region stays inside the reserve.
pub open spec fn record_wf(b: Seq<u8>, rec: int) -> bool {
    &&& 0 <= rec
    &&& rec + HEADER_LEN + rec_original_len(b, rec) + GROWTH_CEILING <= b.len()
    &&& rec_data_len(b, rec) <= rec_original_len(b, rec) + GROWTH_CEILING
}

/// Two byte strings of equal length that agree everywhere outside
/// `[lo, hi)`.
pub open spec fn eq_except(b1: Seq<u8>, b2: Seq<u8>, lo: int, hi: int) -> bool {
    &&& b1.len() == b2.len()
    &&& forall|k: int| 0 <= k < b1.len() && !(lo <= k < hi) ==> b1[k] == b2[k]
}

/// A subrange that avoids the changed span `[lo, hi)` is unchanged.
pub proof fn lemma_subrange_outside_unchanged(
    b1: Seq<u8>,
    b2: Seq<u8>,
    lo: int,
    hi: int,
    x: int,
    y: int,
)
    requires
        eq_except(b1, b2, lo, hi),
        0 <= x <= y <= b1.len(),
        y <= lo || hi <= x,
    ensures
        b1.subrange(x, y) == b2.subrange(x, y),
{
    assert(b1.subrange(x, y) =~= b2.subrange(x, y));
}

/// All header fields, and the data region, of a record whose span avoids
/// the changed span `[lo, hi)` are unchanged.
pub proof fn lemma_record_fields_unchanged(b1: Seq<u8>, b2: Seq<u8>, rec: int, lo: int, hi: int)
    requires
        eq_except(b1, b2, lo, hi),
        0 <= rec,
        rec + HEADER_LEN + rec_data_len(b1, rec) <= b1.len(),
        hi <= rec || rec + HEADER_LEN + rec_data_len(b1, rec) <= lo,
    ensures
        rec_borrow_state(b2, rec) == rec_borrow_state(b1, rec),
        rec_is_signer(b2, rec) == rec_is_signer(b1, rec),
        rec_is_writable(b2, rec) == rec_is_writable(b1, rec),
        rec_executable(b2, rec) == rec_executable(b1, rec),
        rec_original_len(b2, rec) == rec_original_len(b1, rec),
        rec_key(b2, rec) == rec_key(b1, rec),
        rec_owner(b2, rec) == rec_owner(b1, rec),
        rec_lamports(b2, rec) == rec_lamports(b1, rec),
        rec_data_len(b2, rec) == rec_data_len(b1, rec),
        rec_data(b2, rec) == rec_data(b1, rec),
{
    lemma_subrange_outside_unchanged(
        b1,
        b2,
        lo,
        hi,
        rec + ORIGINAL_LEN_OFFSET,
        rec + KEY_OFFSET,
    );
    lemma_subrange_outside_unchanged(b1, b2, lo, hi, rec + KEY_OFFSET, rec + OWNER_OFFSET);
    lemma_subrange_outside_unchanged(b1, b2, lo, hi, rec + OWNER_OFFSET, rec + LAMPORTS_OFFSET);
    lemma_subrange_outside_unchanged(b1, b2, lo, hi, rec + LAMPORTS_OFFSET, rec + DATA_LEN_OFFSET);
    lemma_subrange_outside_unchanged(b1, b2, lo, hi, rec + DATA_LEN_OFFSET, rec + HEADER_LEN);
    lemma_subrange_outside_unchanged(
        b1,
        b2,
        lo,
        hi,
        rec + HEADER_LEN,
        rec + HEADER_LEN + rec_data_len(b1, rec),
    );
}

/// All header fields other than the status byte, and the data region,
/// are unchanged when only the record's own status byte was rewritten.
pub proof fn lemma_nonstate_fields_unchanged(b1: Seq<u8>, b2: Seq<u8>, rec: int)
    requires
        eq_except(b2, b1, rec, rec + 1),
        0 <= rec,
        rec + HEADER_LEN + rec_data_len(b1, rec) <= b1.len(),
    ensures
        rec_is_signer(b2, rec) == rec_is_signer(b1, rec),
        rec_is_writable(b2, rec) == rec_is_writable(b1, rec),
        rec_executable(b2, rec) == rec_executable(b1, rec),
        rec_original_len(b2, rec) == rec_original_len(b1, rec),
        rec_key(b2, rec) == rec_key(b1, rec),
        rec_owner(b2, rec) == rec_owner(b1, rec),
        rec_lamports(b2, rec) == rec_lamports(b1, rec),
        rec_data_len(b2, rec) == rec_data_len(b1, rec),
        rec_data(b2, rec) == rec_data(b1, rec),
{
    lemma_subrange_outside_unchanged(
        b2,
        b1,
        rec,
        rec + 1,
        rec + ORIGINAL_LEN_OFFSET,
        rec + KEY_OFFSET,
    );
    lemma_subrange_outside_unchanged(b2, b1, rec, rec + 1, rec + KEY_OFFSET, rec + OWNER_OFFSET);
    lemma_subrange_outside_unchanged(b2, b1, rec, rec + 1, rec + OWNER_OFFSET, rec + LAMPORTS_OFFSET);
    lemma_subrange_outside_unchanged(
        b2,
        b1,
        rec,
        rec + 1,
        rec + LAMPORTS_OFFSET,
        rec + DATA_LEN_OFFSET,
    );
    lemma_subrange_outside_unchanged(b2, b1, rec, rec + 1, rec + DATA_LEN_OFFSET, rec + HEADER_LEN);
    lemma_subrange_outside_unchanged(
        b2,
        b1,
        rec,
        rec + 1,
        rec + HEADER_LEN,
        rec + HEADER_LEN + rec_data_len(b1, rec),
    );
}

/// Rounds `x` up to the next multiple of the entry alignment.
pub open spec fn align_up(x: int) -> int {
    if x % (ENTRY_ALIGNMENT as int) == 0 {
        x
    } else {
        x + ENTRY_ALIGNMENT - x % (ENTRY_ALIGNMENT as int)
    }
}

/// Alignment rounds up by less than one alignment unit.
pub proof fn lemma_align_up(x: int)
    requires
        x >= 0,
    ensures
        x <= align_up(x) < x + ENTRY_ALIGNMENT,
        align_up(x) % (ENTRY_ALIGNMENT as int) == 0,
{
}

/// Rounds a buffer offset up to the next multiple of the entry alignment.
pub fn align_offset_up(x: usize) -> (r: usize)
    requires
        align_up(x as int) <= usize::MAX,
    ensures
        r == align_up(x as int),
{
    let rem = x % ENTRY_ALIGNMENT;
    if rem == 0 {
        x
    } else {
        x + (ENTRY_ALIGNMENT - rem)
    }
}

} // verus!
