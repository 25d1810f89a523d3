//! Builders for the two built-in system-program calls.
//!
//! "Create account" and "transfer balance" are thin instruction-descriptor
//! builders over the marshaller: each produces the instruction
//! descriptor, the account snapshots and the signer authorities that the
//! host's authorized-invoke call takes. By host convention the account
//! being created signs the call, so its access descriptor carries the
//! signer flag regardless of the flag the host serialized for it.

use vstd::prelude::*;
use vstd::bytes::{spec_u64_to_le_bytes, u64_to_le_bytes};
use crate::account_info::AccountInfo;
use crate::buffer::HostBuffer;
use crate::cpi::{
    meta_matches, snapshot_matches, CAccountInfo, CAccountMeta, CInstruction, CSigner,
};
use crate::layout::{rec_is_writable, record_wf, KEY_OFFSET};

verus! {

/// Everything one authorized-invoke call takes: the instruction
/// descriptor, one snapshot per account, and the signer authorities.
pub struct InvokeArgs {
    /// The instruction descriptor.
    pub instruction: CInstruction,
    /// One full account snapshot per account of the call.
    pub account_infos: Vec<CAccountInfo>,
    /// The signing authorities of the call.
    pub signers: Vec<CSigner>,
}

/// The system program's identifier: 32 zero bytes.
pub open spec fn system_program_id() -> Seq<u8> {
    Seq::new(32, |i: int| 0u8)
}

/// A vector of `n` zero bytes.
fn zeroed_vec(n: usize) -> (v: Vec<u8>)
    ensures
        v@.len() == n,
        forall|k: int| 0 <= k < n ==> v@[k] == 0,
{
    let mut v: Vec<u8> = Vec::new();
    let mut k: usize = 0;
    while k < n
        invariant
            0 <= k <= n,
            v@.len() == k,
            forall|q: int| 0 <= q < k ==> v@[q] == 0,
        decreases n - k,
    {
        v.push(0);
        k += 1;
    }
    v
}

/// Copies `src` into `dst` starting at `at`.
fn write_bytes(dst: &mut Vec<u8>, at: usize, src: &[u8])
    requires
        at + src@.len() <= old(dst)@.len(),
    ensures
        final(dst)@.len() == old(dst)@.len(),
        forall|k: int| 0 <= k < old(dst)@.len() && !(at <= k < at + src@.len())
            ==> final(dst)@[k] == old(dst)@[k],
        final(dst)@.subrange(at as int, at + src@.len()) == src@,
{
    let ghost prior = dst@;
    let _len = dst.len();
    let n = src.len();
    let mut k: usize = 0;
    while k < n
        invariant
            0 <= k <= n,
            n == src@.len(),
            at + n <= prior.len() <= usize::MAX,
            dst@.len() == prior.len(),
            forall|q: int| 0 <= q < prior.len() && !(at <= q < at + k) ==> dst@[q] == prior[q],
            forall|q: int| 0 <= q < k ==> dst@[at + q] == src@[q],
        decreases n - k,
    {
        dst[at + k] = src[k];
        k += 1;
    }
    proof {
        assert(dst@.subrange(at as int, at + src@.len()) =~= src@);
    }
}

/// The 52-byte create-account payload: a zero discriminator, the
/// little-endian balance and space, then the owner identifier.
fn create_account_data(lamports: u64, space: u64, owner: &[u8]) -> (d: Vec<u8>)
    requires
        owner@.len() == 32,
    ensures
        d@.len() == 52,
        forall|k: int| 0 <= k < 4 ==> d@[k] == 0,
        d@.subrange(4, 12) == spec_u64_to_le_bytes(lamports),
        d@.subrange(12, 20) == spec_u64_to_le_bytes(space),
        d@.subrange(20, 52) == owner@,
{
    let mut d = zeroed_vec(52);
    let lb = u64_to_le_bytes(lamports);
    let sb = u64_to_le_bytes(space);
    proof {
        vstd::bytes::lemma_auto_spec_u64_to_from_le_bytes();
    }
    write_bytes(&mut d, 4, lb.as_slice());
    write_bytes(&mut d, 12, sb.as_slice());
    write_bytes(&mut d, 20, owner);
    proof {
        assert(d@.subrange(4, 12) =~= spec_u64_to_le_bytes(lamports));
    }
    d
}

/// The create-account call shape shared by the signed and unsigned
/// builders: the system program as callee, the funder and the new
/// account as the two accounts with the new account forced to sign, a
/// 52-byte payload carrying the balance, the space and the owner, and
/// one snapshot per account.
pub open spec fn create_account_call(
    b: Seq<u8>,
    funder: int,
    account: int,
    lamports: u64,
    space: u64,
    owner: Seq<u8>,
    r: InvokeArgs,
) -> bool {
    &&& r.instruction.program_id@ == system_program_id()
    &&& r.instruction.accounts@.len() == 2
    &&& r.instruction.accounts_len == 2
    &&& meta_matches(b, funder, r.instruction.accounts@[0])
    &&& r.instruction.accounts@[1].pubkey == account + KEY_OFFSET
    &&& r.instruction.accounts@[1].is_writable == rec_is_writable(b, account)
    &&& r.instruction.accounts@[1].is_signer == true
    &&& r.instruction.data@.len() == 52
    &&& r.instruction.data_len == 52
    &&& (forall|k: int| 0 <= k < 4 ==> r.instruction.data@[k] == 0)
    &&& r.instruction.data@.subrange(4, 12) == spec_u64_to_le_bytes(lamports)
    &&& r.instruction.data@.subrange(12, 20) == spec_u64_to_le_bytes(space)
    &&& r.instruction.data@.subrange(20, 52) == owner
    &&& r.account_infos@.len() == 2
    &&& snapshot_matches(b, funder, r.account_infos@[0])
    &&& snapshot_matches(b, account, r.account_infos@[1])
}

/// The transfer call shape: the system program as callee, the two
/// accounts with their serialized flags, and a 12-byte payload carrying
/// the discriminator 2 and the little-endian amount.
pub open spec fn transfer_call(
    b: Seq<u8>,
    from: int,
    recipient: int,
    amount: u64,
    r: InvokeArgs,
) -> bool {
    &&& r.instruction.program_id@ == system_program_id()
    &&& r.instruction.accounts@.len() == 2
    &&& r.instruction.accounts_len == 2
    &&& meta_matches(b, from, r.instruction.accounts@[0])
    &&& meta_matches(b, recipient, r.instruction.accounts@[1])
    &&& r.instruction.data@.len() == 12
    &&& r.instruction.data_len == 12
    &&& r.instruction.data@[0] == 2
    &&& r.instruction.data@[1] == 0
    &&& r.instruction.data@[2] == 0
    &&& r.instruction.data@[3] == 0
    &&& r.instruction.data@.subrange(4, 12) == spec_u64_to_le_bytes(amount)
    &&& r.account_infos@.len() == 2
    &&& snapshot_matches(b, from, r.account_infos@[0])
    &&& snapshot_matches(b, recipient, r.account_infos@[1])
    &&& r.signers@.len() == 0
}

/// Builds the create-account call shared by the signed and unsigned
/// entry points, attaching the given signer authorities.
fn create_account_common(
    buf: &HostBuffer,
    funder: &AccountInfo,
    account: &AccountInfo,
    lamports: u64,
    space: u64,
    owner: &[u8],
    signers: Vec<CSigner>,
) -> (r: InvokeArgs)
    requires
        record_wf(buf@, funder.rec_offset()),
        record_wf(buf@, account.rec_offset()),
        owner@.len() == 32,
    ensures
        create_account_call(
            buf@,
            funder.rec_offset(),
            account.rec_offset(),
            lamports,
            space,
            owner@,
            r,
        ),
        r.signers@ == signers@,
{
    let mut metas: Vec<CAccountMeta> = Vec::new();
    metas.push(CAccountMeta::from_account(buf, funder));
    let mut created = CAccountMeta::from_account(buf, account);
    // the account being created always signs the call
    created.is_signer = true;
    metas.push(created);
    let data = create_account_data(lamports, space, owner);
    let instruction = CInstruction {
        program_id: zeroed_vec(32),
        accounts: metas,
        accounts_len: 2,
        data,
        data_len: 52,
    };
    let mut account_infos: Vec<CAccountInfo> = Vec::new();
    account_infos.push(CAccountInfo::from_account(buf, funder));
    account_infos.push(CAccountInfo::from_account(buf, account));
    proof {
        assert(instruction.program_id@ =~= system_program_id());
    }
    InvokeArgs { instruction, account_infos, signers }
}

/// Builds the call that creates `account`, funded by `funder`, with the
/// given starting balance, data space and owner.
pub fn create_account(
    buf: &HostBuffer,
    funder: &AccountInfo,
    account: &AccountInfo,
    lamports: u64,
    space: u64,
    owner: &[u8],
) -> (r: InvokeArgs)
    requires
        record_wf(buf@, funder.rec_offset()),
        record_wf(buf@, account.rec_offset()),
        owner@.len() == 32,
    ensures
        create_account_call(
            buf@,
            funder.rec_offset(),
            account.rec_offset(),
            lamports,
            space,
            owner@,
            r,
        ),
        r.signers@.len() == 0,
{
    create_account_common(buf, funder, account, lamports, space, owner, Vec::new())
}

/// Builds the same call with one program-signed authority derived from
/// `signer_seeds`.
pub fn create_account_signed(
    buf: &HostBuffer,
    funder: &AccountInfo,
    account: &AccountInfo,
    lamports: u64,
    space: u64,
    owner: &[u8],
    signer_seeds: &Vec<Vec<u8>>,
) -> (r: InvokeArgs)
    requires
        record_wf(buf@, funder.rec_offset()),
        record_wf(buf@, account.rec_offset()),
        owner@.len() == 32,
    ensures
        create_account_call(
            buf@,
            funder.rec_offset(),
            account.rec_offset(),
            lamports,
            space,
            owner@,
            r,
        ),
        r.signers@.len() == 1,
        r.signers@[0].seeds@.len() == signer_seeds@.len(),
        r.signers@[0].len == signer_seeds@.len(),
        forall|j: int| 0 <= j < signer_seeds@.len() ==> (#[trigger] r.signers@[0].seeds@[j]).seed@
            == signer_seeds@[j]@ && r.signers@[0].seeds@[j].len == signer_seeds@[j]@.len(),
{
    let mut signers: Vec<CSigner> = Vec::new();
    signers.push(CSigner::from_seeds(signer_seeds));
    create_account_common(buf, funder, account, lamports, space, owner, signers)
}

/// Builds the call that transfers `amount` from `from` to `recipient`.
pub fn transfer(
    buf: &HostBuffer,
    from: &AccountInfo,
    recipient: &AccountInfo,
    amount: u64,
) -> (r: InvokeArgs)
    requires
        record_wf(buf@, from.rec_offset()),
        record_wf(buf@, recipient.rec_offset()),
    ensures
        transfer_call(buf@, from.rec_offset(), recipient.rec_offset(), amount, r),
{
    let mut metas: Vec<CAccountMeta> = Vec::new();
    metas.push(CAccountMeta::from_account(buf, from));
    metas.push(CAccountMeta::from_account(buf, recipient));
    let mut data = zeroed_vec(12);
    // the transfer instruction has discriminator 2
    data[0] = 2;
    let ab = u64_to_le_bytes(amount);
    proof {
        vstd::bytes::lemma_auto_spec_u64_to_from_le_bytes();
    }
    write_bytes(&mut data, 4, ab.as_slice());
    let instruction = CInstruction {
        program_id: zeroed_vec(32),
        accounts: metas,
        accounts_len: 2,
        data,
        data_len: 12,
    };
    let mut account_infos: Vec<CAccountInfo> = Vec::new();
    account_infos.push(CAccountInfo::from_account(buf, from));
    account_infos.push(CAccountInfo::from_account(buf, recipient));
    proof {
        assert(instruction.program_id@ =~= system_program_id());
    }
    InvokeArgs { instruction, account_infos, signers: Vec::new() }
}

} // verus!
