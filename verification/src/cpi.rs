//! Cross-program invocation descriptors.
//!
//! To ask the host to invoke another program, the caller hands it fixed
//! binary records whose account pointers reach straight into the
//! invocation buffer, so the callee observes mutations made through the
//! same memory. Here those pointers are buffer offsets: an access
//! descriptor and a full account snapshot per account, an instruction
//! descriptor, and signer-authority seed lists.

use vstd::prelude::*;
use crate::account_info::AccountInfo;
use crate::buffer::HostBuffer;
use crate::layout::{
    rec_data_len, rec_executable, rec_is_signer, rec_is_writable, record_wf, HEADER_LEN,
    KEY_OFFSET, LAMPORTS_OFFSET, OWNER_OFFSET,
};
use vstd::slice::slice_to_vec;

verus! {

/// An account access descriptor as the host's authorized-invoke call
/// expects it.
#[derive(Clone, Debug, PartialEq, Eq, Structural)]
pub struct CAccountMeta {
    /// Buffer offset of the account's 32-byte key.
    pub pubkey: usize,
    /// Whether the account is writable in the callee.
    pub is_writable: bool,
    /// Whether the account signs the call.
    pub is_signer: bool,
}

/// A full account snapshot as the host's authorized-invoke call expects
/// it; every address points into the invocation buffer.
#[derive(Clone, Debug, PartialEq, Eq, Structural)]
pub struct CAccountInfo {
    /// Buffer offset of the account's 32-byte key.
    pub key: usize,
    /// Buffer offset of the account's balance field.
    pub lamports: usize,
    /// Length of the account's data region in bytes.
    pub data_len: u64,
    /// Buffer offset of the account's data region.
    pub data: usize,
    /// Buffer offset of the account's 32-byte owner identifier.
    pub owner: usize,
    /// Legacy field the host still expects; always zero here.
    pub rent_epoch: u64,
    /// Whether the transaction was signed by this account.
    pub is_signer: bool,
    /// Whether the account is writable.
    pub is_writable: bool,
    /// Whether the account holds a loaded program.
    pub executable: bool,
}

/// An instruction descriptor as the host's authorized-invoke call
/// expects it.
#[derive(Clone, Debug)]
pub struct CInstruction {
    /// The 32-byte identifier of the program to invoke.
    pub program_id: Vec<u8>,
    /// The access descriptors of the call's accounts.
    pub accounts: Vec<CAccountMeta>,
    /// Number of access descriptors.
    pub accounts_len: u64,
    /// The instruction payload.
    pub data: Vec<u8>,
    /// Length of the instruction payload in bytes.
    pub data_len: u64,
}

/// One signer seed as the host's authorized-invoke call expects it.
#[derive(Clone, Debug)]
pub struct CSignerSeed {
    /// The seed bytes.
    pub seed: Vec<u8>,
    /// Length of the seed in bytes.
    pub len: u64,
}

/// One signing authority: its seeds, grouped.
#[derive(Clone, Debug)]
pub struct CSigner {
    /// The authority's seeds.
    pub seeds: Vec<CSignerSeed>,
    /// Number of seeds.
    pub len: u64,
}

/// The access descriptor `m` describes the record at `rec` in buffer
/// `b`.
pub open spec fn meta_matches(b: Seq<u8>, rec: int, m: CAccountMeta) -> bool {
    &&& m.pubkey == rec + KEY_OFFSET
    &&& m.is_writable == rec_is_writable(b, rec)
    &&& m.is_signer == rec_is_signer(b, rec)
}

/// The snapshot `c` describes the record at `rec` in buffer `b`: every
/// offset points at the record's own field, so the host sees the
/// caller's mutations.
pub open spec fn snapshot_matches(b: Seq<u8>, rec: int, c: CAccountInfo) -> bool {
    &&& c.key == rec + KEY_OFFSET
    &&& c.lamports == rec + LAMPORTS_OFFSET
    &&& c.data_len == rec_data_len(b, rec)
    &&& c.data == rec + HEADER_LEN
    &&& c.owner == rec + OWNER_OFFSET
    &&& c.rent_epoch == 0
    &&& c.is_signer == rec_is_signer(b, rec)
    &&& c.is_writable == rec_is_writable(b, rec)
    &&& c.executable == rec_executable(b, rec)
}

impl CAccountMeta {
    /// Builds the access descriptor for `account`, carrying the flags
    /// the host serialized.
    pub fn from_account(buf: &HostBuffer, account: &AccountInfo) -> (m: CAccountMeta)
        requires
            record_wf(buf@, account.rec_offset()),
        ensures
            meta_matches(buf@, account.rec_offset(), m),
    {
        proof {
            buf.lemma_len_bound();
        }
        CAccountMeta {
            pubkey: account.record_offset() + KEY_OFFSET,
            is_writable: account.is_writable(buf),
            is_signer: account.is_signer(buf),
        }
    }
}

impl CAccountInfo {
    /// Builds the full snapshot for `account`; all offsets point into
    /// the invocation buffer, not at copies.
    pub fn from_account(buf: &HostBuffer, account: &AccountInfo) -> (c: CAccountInfo)
        requires
            record_wf(buf@, account.rec_offset()),
        ensures
            snapshot_matches(buf@, account.rec_offset(), c),
    {
        proof {
            buf.lemma_len_bound();
        }
        let rec = account.record_offset();
        CAccountInfo {
            key: rec + KEY_OFFSET,
            lamports: rec + LAMPORTS_OFFSET,
            data_len: account.data_len(buf) as u64,
            data: rec + HEADER_LEN,
            owner: rec + OWNER_OFFSET,
            rent_epoch: 0,
            is_signer: account.is_signer(buf),
            is_writable: account.is_writable(buf),
            executable: account.executable(buf),
        }
    }
}

impl CSigner {
    /// Groups one authority's seed byte-slices into the record the host
    /// expects.
    pub fn from_seeds(seeds: &Vec<Vec<u8>>) -> (s: CSigner)
        ensures
            s.seeds@.len() == seeds@.len(),
            s.len == seeds@.len(),
            forall|j: int| 0 <= j < seeds@.len() ==> (#[trigger] s.seeds@[j]).seed@ == seeds@[j]@
                && s.seeds@[j].len == seeds@[j]@.len(),
    {
        let mut out: Vec<CSignerSeed> = Vec::new();
        let mut j: usize = 0;
        while j < seeds.len()
            invariant
                0 <= j <= seeds@.len(),
                out@.len() == j,
                forall|q: int| 0 <= q < j ==> (#[trigger] out@[q]).seed@ == seeds@[q]@
                    && out@[q].len == seeds@[q]@.len(),
            decreases seeds@.len() - j,
        {
            let seed = slice_to_vec(seeds[j].as_slice());
            let n = seed.len() as u64;
            out.push(CSignerSeed { seed, len: n });
            j += 1;
        }
        let n = out.len() as u64;
        CSigner { seeds: out, len: n }
    }
}

} // verus!
