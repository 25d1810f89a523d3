//! The buffer deserializer.
//!
//! The host serializes one invocation as: a 64-bit account count; one
//! entry per account slot, which is either a full record (marker byte
//! `NON_DUP_MARKER`, header, data, growth reserve, alignment padding and
//! an 8-byte reserved field) or an 8-byte duplicate entry whose marker
//! names the earlier slot it aliases; a length-prefixed instruction
//! payload; and the invoking program's 32-byte identifier. `deserialize`
//! walks that buffer once, materializes up to a caller-declared maximum
//! of account handles, resets each materialized record's status byte, and
//! hands back the payload and program identifier.
//!
//! The walk trusts the host's format: `input_wf` states that trust
//! boundary, and malformed buffers are a host contract violation rather
//! than a reported error.

use vstd::prelude::*;
use vstd::bytes::spec_u64_from_le_bytes;
use crate::account_info::AccountInfo;
use crate::buffer::HostBuffer;
use crate::layout::{
    align_offset_up, align_up, eq_except, lemma_align_up, lemma_record_fields_unchanged,
    rec_borrow_state, rec_data, rec_data_len, rec_executable, rec_is_signer, rec_is_writable,
    rec_key, rec_lamports, rec_original_len, rec_owner, record_wf, DATA_LEN_OFFSET,
    GROWTH_CEILING, HEADER_LEN, KEY_OFFSET, LAMPORTS_OFFSET, NON_DUP_MARKER, ORIGINAL_LEN_OFFSET,
    OWNER_OFFSET,
};

verus! {

/// End offset of the account entry that starts at `off`: a record entry
/// spans its header, data, the growth reserve, padding up to the entry
/// alignment and an 8-byte reserved field; a duplicate entry spans 8
/// bytes.
pub open spec fn entry_end(b: Seq<u8>, off: int) -> int {
    if b[off] == NON_DUP_MARKER {
        align_up(off + HEADER_LEN + rec_data_len(b, off) + GROWTH_CEILING) + 8
    } else {
        off + 8
    }
}

/// Offset of account slot `k`; slot 0 begins right after the 8-byte
/// account count.
pub open spec fn slot_offset(b: Seq<u8>, k: int) -> int
    decreases k,
{
    if k <= 0 {
        8
    } else {
        entry_end(b, slot_offset(b, k - 1))
    }
}

/// Well-formedness of the entry at offset `off` for slot `i`: a record
/// entry lies inside the buffer and its serialized data length equals its
/// original length; a duplicate entry lies inside the buffer and names an
/// earlier slot.
pub open spec fn entry_wf(b: Seq<u8>, off: int, i: int) -> bool {
    &&& 0 <= off < b.len()
    &&& if b[off] == NON_DUP_MARKER {
        &&& off + HEADER_LEN <= b.len()
        &&& rec_data_len(b, off) == rec_original_len(b, off)
        &&& entry_end(b, off) <= b.len()
    } else {
        &&& (b[off] as int) < i
        &&& off + 8 <= b.len()
    }
}

/// Number of account slots the host serialized, read from offset 0.
pub open spec fn total_accounts(b: Seq<u8>) -> int {
    spec_u64_from_le_bytes(b.subrange(0, 8)) as int
}

/// Offset just past the account section.
pub open spec fn accounts_end(b: Seq<u8>) -> int {
    slot_offset(b, total_accounts(b))
}

/// Length of the instruction payload, read right after the account
/// section.
pub open spec fn payload_len(b: Seq<u8>) -> int {
    spec_u64_from_le_bytes(b.subrange(accounts_end(b), accounts_end(b) + 8)) as int
}

/// Offset of the first instruction payload byte.
pub open spec fn payload_start(b: Seq<u8>) -> int {
    accounts_end(b) + 8
}

/// Offset of the invoking program's 32-byte identifier.
pub open spec fn program_id_offset(b: Seq<u8>) -> int {
    payload_start(b) + payload_len(b)
}

/// The host buffer contract that `deserialize` trusts: every slot entry
/// is well formed and the payload and program identifier that follow the
/// account section lie inside the buffer.
pub open spec fn input_wf(b: Seq<u8>) -> bool {
    &&& 8 <= b.len()
    &&& forall|k: int| 0 <= k < total_accounts(b) ==> entry_wf(b, #[trigger] slot_offset(b, k), k)
    &&& program_id_offset(b) + 32 <= b.len()
}

/// Number of handles materialized: all serialized slots, truncated to
/// the caller-declared maximum.
pub open spec fn materialized_count(b: Seq<u8>, max_accounts: int) -> int {
    if total_accounts(b) <= max_accounts {
        total_accounts(b)
    } else {
        max_accounts
    }
}

/// What deserialization guarantees for materialized slot `i`: a record
/// slot yields a handle at the slot's offset, with the status byte reset
/// and every other serialized field intact; a duplicate slot yields the
/// same handle as the slot it names.
pub open spec fn slot_deserialized(
    b0: Seq<u8>,
    b: Seq<u8>,
    hs: Seq<AccountInfo>,
    i: int,
) -> bool {
    let off = slot_offset(b0, i);
    if b0[off] == NON_DUP_MARKER {
        &&& hs[i].rec_offset() == off
        &&& record_wf(b, off)
        &&& rec_borrow_state(b, off) == 0
        &&& rec_is_signer(b, off) == rec_is_signer(b0, off)
        &&& rec_is_writable(b, off) == rec_is_writable(b0, off)
        &&& rec_executable(b, off) == rec_executable(b0, off)
        &&& rec_original_len(b, off) == rec_original_len(b0, off)
        &&& rec_key(b, off) == rec_key(b0, off)
        &&& rec_owner(b, off) == rec_owner(b0, off)
        &&& rec_lamports(b, off) == rec_lamports(b0, off)
        &&& rec_data_len(b, off) == rec_data_len(b0, off)
        &&& rec_data(b, off) == rec_data(b0, off)
    } else {
        hs[i] == hs[b0[off] as int]
    }
}

/// Whether `k` is the status-byte position of one of the first `n`
/// materialized record slots; these are the only buffer positions the
/// deserializer rewrites.
pub open spec fn reset_position(b0: Seq<u8>, n: int, k: int) -> bool {
    exists|i: int| 0 <= i < n && b0[#[trigger] slot_offset(b0, i)] == NON_DUP_MARKER && k
        == slot_offset(b0, i)
}

/// Every entry occupies at least 8 bytes.
pub proof fn lemma_entry_end_min(b: Seq<u8>, off: int)
    requires
        0 <= off,
    ensures
        entry_end(b, off) >= off + 8,
{
    if b[off] == NON_DUP_MARKER {
        lemma_align_up(off + HEADER_LEN + rec_data_len(b, off) + GROWTH_CEILING);
    }
}

/// Slot offsets start at 8 and grow by at least 8 per slot.
pub proof fn lemma_slot_offset_lower(b: Seq<u8>, k: int)
    requires
        k >= 0,
    ensures
        slot_offset(b, k) >= 8 + 8 * k,
    decreases k,
{
    if k > 0 {
        lemma_slot_offset_lower(b, k - 1);
        lemma_entry_end_min(b, slot_offset(b, k - 1));
    }
}

/// An earlier slot's whole entry ends at or before a later slot's
/// offset, so distinct slots never overlap.
pub proof fn lemma_slots_disjoint(b: Seq<u8>, j: int, i: int)
    requires
        0 <= j < i,
    ensures
        slot_offset(b, i) >= entry_end(b, slot_offset(b, j)),
    decreases i,
{
    if i == j + 1 {
    } else {
        lemma_slots_disjoint(b, j, i - 1);
        lemma_slot_offset_lower(b, i - 1);
        lemma_entry_end_min(b, slot_offset(b, i - 1));
    }
}

/// Everything the deserializer hands to the program for one invocation.
pub struct Deserialized {
    /// The invocation buffer, which now owns the host's bytes for this
    /// call's lifetime.
    pub buffer: HostBuffer,
    /// One handle per materialized account slot, in host order.
    pub accounts: Vec<AccountInfo>,
    /// The instruction payload.
    pub instruction_data: Vec<u8>,
    /// The invoking program's 32-byte identifier.
    pub program_id: Vec<u8>,
}

/// Walks the host input buffer once: reads the account count,
/// materializes up to `max_accounts` handles in host order (resolving a
/// duplicate slot to the handle of the slot it names and resetting each
/// materialized record's status byte exactly once), keeps walking past
/// any excess slots so the offset stays in step with the format, and
/// returns the instruction payload and the program identifier that
/// follow the account section.
pub fn deserialize(input: Vec<u8>, max_accounts: usize) -> (r: Deserialized)
    requires
        input_wf(input@),
    ensures
        ({
            let b0 = input@;
            let n = materialized_count(b0, max_accounts as int);
            &&& r.accounts@.len() == n
            &&& r.buffer@.len() == b0.len()
            &&& forall|i: int| 0 <= i < n ==> slot_deserialized(b0, r.buffer@, r.accounts@, i)
            &&& forall|k: int| 0 <= k < b0.len() && !reset_position(b0, n, k) ==> r.buffer@[k]
                == b0[k]
            &&& r.instruction_data@ == b0.subrange(payload_start(b0), program_id_offset(b0))
            &&& r.program_id@ == b0.subrange(program_id_offset(b0), program_id_offset(b0) + 32)
        }),
{
    let ghost b0 = input@;
    let mut buf = HostBuffer::from_vec(input);
    proof {
        buf.lemma_len_bound();
    }
    let total64 = buf.read_u64(0);
    proof {
        assert(buf@.subrange(0, 8) =~= b0.subrange(0, 8));
        lemma_slot_offset_lower(b0, total_accounts(b0));
        assert(payload_len(b0) >= 0);
        assert(accounts_end(b0) <= b0.len());
    }
    let total = total64 as usize;
    let count: usize = if total <= max_accounts {
        total
    } else {
        max_accounts
    };
    let mut accounts: Vec<AccountInfo> = Vec::new();
    let mut offset: usize = 8;
    let mut i: usize = 0;
    while i < total
        invariant
            input_wf(b0),
            buf@.len() == b0.len() <= usize::MAX,
            total == total_accounts(b0),
            count == materialized_count(b0, max_accounts as int),
            count <= total,
            0 <= i <= total,
            offset == slot_offset(b0, i as int),
            offset <= b0.len(),
            accounts@.len() == (if i <= count {
                i as int
            } else {
                count as int
            }),
            forall|k: int| offset <= k < b0.len() ==> buf@[k] == b0[k],
            forall|j: int| 0 <= j < accounts@.len() ==> slot_deserialized(b0, buf@, accounts@, j),
            forall|k: int| 0 <= k < b0.len() && !reset_position(b0, accounts@.len() as int, k)
                ==> buf@[k] == b0[k],
        decreases total - i,
    {
        proof {
            assert(entry_wf(b0, slot_offset(b0, i as int), i as int));
        }
        let marker = buf.byte_at(offset);
        assert(marker == b0[offset as int]);
        if marker == NON_DUP_MARKER {
            let dl64 = buf.read_u64(offset + DATA_LEN_OFFSET);
            proof {
                assert(buf@.subrange(offset + DATA_LEN_OFFSET, offset + HEADER_LEN)
                    =~= b0.subrange(offset + DATA_LEN_OFFSET, offset + HEADER_LEN));
                lemma_align_up(
                    offset + HEADER_LEN + rec_data_len(b0, offset as int) + GROWTH_CEILING,
                );
            }
            let data_len = dl64 as usize;
            let raw_end = offset + HEADER_LEN + data_len + GROWTH_CEILING;
            let aligned = align_offset_up(raw_end);
            let next = aligned + 8;
            assert(next == entry_end(b0, offset as int));
            if i < count {
                let ghost bprev = buf@;
                let ghost hs_prev = accounts@;
                buf.set_byte(offset, 0);
                accounts.push(AccountInfo::new(offset));
                proof {
                    let off = offset as int;
                    let iw = i as int;
                    assert(rec_borrow_state(buf@, off) == 0);
                    assert forall|k: int| 0 <= k < b0.len() && k != off implies buf@[k] == bprev[k] by {}
                    assert(buf@.subrange(off + ORIGINAL_LEN_OFFSET, off + KEY_OFFSET)
                        =~= b0.subrange(off + ORIGINAL_LEN_OFFSET, off + KEY_OFFSET));
                    assert(rec_key(buf@, off) =~= rec_key(b0, off));
                    assert(rec_owner(buf@, off) =~= rec_owner(b0, off));
                    assert(buf@.subrange(off + LAMPORTS_OFFSET, off + DATA_LEN_OFFSET)
                        =~= b0.subrange(off + LAMPORTS_OFFSET, off + DATA_LEN_OFFSET));
                    assert(buf@.subrange(off + DATA_LEN_OFFSET, off + HEADER_LEN) =~= b0.subrange(
                        off + DATA_LEN_OFFSET,
                        off + HEADER_LEN,
                    ));
                    assert(rec_data_len(buf@, off) == rec_data_len(b0, off));
                    assert(rec_data(buf@, off) =~= rec_data(b0, off));
                    assert(record_wf(buf@, off));
                    assert(slot_deserialized(b0, buf@, accounts@, iw));
                    assert forall|j: int| 0 <= j < hs_prev.len() implies slot_deserialized(
                        b0,
                        buf@,
                        accounts@,
                        j,
                    ) by {
                        lemma_slots_disjoint(b0, j, iw);
                        lemma_slot_offset_lower(b0, j);
                        let offj = slot_offset(b0, j);
                        assert(slot_deserialized(b0, bprev, hs_prev, j));
                        assert(accounts@[j] == hs_prev[j]);
                        if b0[offj] == NON_DUP_MARKER {
                            lemma_align_up(
                                offj + HEADER_LEN + rec_data_len(b0, offj) + GROWTH_CEILING,
                            );
                            assert(eq_except(bprev, buf@, off, off + 1));
                            assert(rec_data_len(bprev, offj) == rec_data_len(b0, offj));
                            lemma_record_fields_unchanged(bprev, buf@, offj, off, off + 1);
                        } else {
                            assert(entry_wf(b0, offj, j));
                            assert(accounts@[b0[offj] as int] == hs_prev[b0[offj] as int]);
                        }
                    }
                    assert forall|k: int| 0 <= k < b0.len() && !reset_position(
                        b0,
                        accounts@.len() as int,
                        k,
                    ) implies buf@[k] == b0[k] by {
                        if k == off {
                            assert(b0[slot_offset(b0, iw)] == NON_DUP_MARKER);
                            assert(reset_position(b0, accounts@.len() as int, k));
                        } else {
                            assert(buf@[k] == bprev[k]);
                            assert(!reset_position(b0, hs_prev.len() as int, k)) by {
                                if reset_position(b0, hs_prev.len() as int, k) {
                                    let i0 = choose|i0: int| 0 <= i0 < hs_prev.len() && b0[
                                        #[trigger] slot_offset(b0, i0)] == NON_DUP_MARKER && k
                                        == slot_offset(b0, i0);
                                    assert(reset_position(b0, accounts@.len() as int, k));
                                }
                            }
                        }
                    }
                }
            }
            offset = next;
        } else {
            if i < count {
                let dup = marker as usize;
                let h = accounts[dup];
                let ghost hs_prev = accounts@;
                accounts.push(h);
                proof {
                    let iw = i as int;
                    assert(accounts@[iw] == accounts@[b0[slot_offset(b0, iw)] as int]);
                    assert(slot_deserialized(b0, buf@, accounts@, iw));
                    assert forall|j: int| 0 <= j < iw implies slot_deserialized(
                        b0,
                        buf@,
                        accounts@,
                        j,
                    ) by {
                        assert(entry_wf(b0, slot_offset(b0, j), j));
                        assert(slot_deserialized(b0, buf@, hs_prev, j));
                        assert(accounts@[j] == hs_prev[j]);
                        if b0[slot_offset(b0, j)] != NON_DUP_MARKER {
                            assert(accounts@[b0[slot_offset(b0, j)] as int] == hs_prev[b0[
                                slot_offset(b0, j)] as int]);
                        }
                    }
                }
            }
            offset = offset + 8;
        }
        i = i + 1;
    }
    proof {
        assert(offset == accounts_end(b0));
        assert(buf@.subrange(offset as int, offset + 8) =~= b0.subrange(
            offset as int,
            offset + 8,
        ));
    }
    let plen64 = buf.read_u64(offset);
    let plen = plen64 as usize;
    let instruction_data = buf.copy_range(offset + 8, plen);
    let program_id = buf.copy_range(offset + 8 + plen, 32);
    proof {
        assert(instruction_data@ =~= b0.subrange(payload_start(b0), program_id_offset(b0)));
        assert(program_id@ =~= b0.subrange(program_id_offset(b0), program_id_offset(b0) + 32));
    }
    Deserialized { buffer: buf, accounts, instruction_data, program_id }
}

} // verus!
