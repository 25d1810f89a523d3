//! Account handles and access guards.
//!
//! An `AccountInfo` is a lightweight, copyable reference to one record
//! inside the invocation buffer; several handles may reference the same
//! record, because the host legitimately repeats an account that plays
//! more than one role in an instruction. All mutable state lives in the
//! record itself, so aliased handles observe each other's outstanding
//! grants through the record's status byte. Guarded access to the balance
//! and data resources is granted through `Ref` and `RefMut` tokens, and
//! the data region can be grown in place under the host's growth ceiling.

use vstd::prelude::*;
use crate::ProgramError;
use crate::borrow_state::{
    acquire_exclusive_data, acquire_exclusive_lamports, acquire_shared_data,
    acquire_shared_lamports, data_exclusive, data_exclusive_ok, data_shared_count, data_shared_ok,
    lamports_exclusive, lamports_exclusive_ok, lamports_shared_count, lamports_shared_ok,
    lemma_state_byte_determined, release_exclusive_data, release_exclusive_lamports,
    release_shared_data, release_shared_lamports,
};
use crate::buffer::HostBuffer;
use crate::layout::{
    eq_except, lemma_nonstate_fields_unchanged, lemma_subrange_outside_unchanged, rec_borrow_state,
    rec_data, rec_data_len, rec_executable, rec_is_signer, rec_is_writable, rec_key, rec_lamports,
    rec_original_len, rec_owner, record_wf, DATA_LEN_OFFSET, EXECUTABLE_OFFSET, GROWTH_CEILING,
    HEADER_LEN, IS_SIGNER_OFFSET, IS_WRITABLE_OFFSET, KEY_OFFSET, LAMPORTS_OFFSET,
    ORIGINAL_LEN_OFFSET, OWNER_OFFSET,
};

verus! {

/// The two independently guarded resources of a record.
#[derive(Clone, Copy, Debug, PartialEq, Eq, Structural)]
pub enum Resource {
    /// The record's balance field.
    Lamports,
    /// The record's data region.
    Data,
}

/// The other resource.
pub open spec fn other_resource(res: Resource) -> Resource {
    match res {
        Resource::Lamports => Resource::Data,
        Resource::Data => Resource::Lamports,
    }
}

/// Outstanding shared grants on one resource of status byte `s`.
pub open spec fn shared_count(s: u8, res: Resource) -> u8 {
    match res {
        Resource::Lamports => lamports_shared_count(s),
        Resource::Data => data_shared_count(s),
    }
}

/// Whether an exclusive grant is outstanding on one resource of `s`.
pub open spec fn exclusive_flag(s: u8, res: Resource) -> bool {
    match res {
        Resource::Lamports => lamports_exclusive(s),
        Resource::Data => data_exclusive(s),
    }
}

/// Everything in the buffer is unchanged but the status byte of the
/// record at `rec`; in particular every other header field and the data
/// region of that record keep their values.
pub open spec fn borrow_state_only_changed(b1: Seq<u8>, b2: Seq<u8>, rec: int) -> bool {
    &&& b2.len() == b1.len()
    &&& eq_except(b2, b1, rec, rec + 1)
    &&& rec_is_signer(b2, rec) == rec_is_signer(b1, rec)
    &&& rec_is_writable(b2, rec) == rec_is_writable(b1, rec)
    &&& rec_executable(b2, rec) == rec_executable(b1, rec)
    &&& rec_original_len(b2, rec) == rec_original_len(b1, rec)
    &&& rec_key(b2, rec) == rec_key(b1, rec)
    &&& rec_owner(b2, rec) == rec_owner(b1, rec)
    &&& rec_lamports(b2, rec) == rec_lamports(b1, rec)
    &&& rec_data_len(b2, rec) == rec_data_len(b1, rec)
    &&& rec_data(b2, rec) == rec_data(b1, rec)
}

/// A lightweight, copyable, non-owning reference to one record inside the
/// invocation buffer.
#[derive(Clone, Copy, Debug, PartialEq, Eq, Structural)]
pub struct AccountInfo {
    rec: usize,
}

impl AccountInfo {
    /// Offset of the referenced record inside the invocation buffer.
    pub closed spec fn rec_offset(&self) -> int {
        self.rec as int
    }

    /// Wraps a record offset produced by the deserializer.
    pub(crate) fn new(rec: usize) -> (a: AccountInfo)
        ensures
            a.rec_offset() == rec,
    {
        AccountInfo { rec }
    }

    /// The record's offset, the handle's notion of an address. Two
    /// handles with the same offset alias the same record.
    pub fn record_offset(&self) -> (o: usize)
        ensures
            o == self.rec_offset(),
    {
        self.rec
    }

    /// The account's 32-byte key.
    pub fn key<'a>(&self, buf: &'a HostBuffer) -> (k: &'a [u8])
        requires
            record_wf(buf@, self.rec_offset()),
        ensures
            k@ == rec_key(buf@, self.rec_offset()),
            k@.len() == 32,
    {
        proof {
            buf.lemma_len_bound();
        }
        buf.slice_range(self.rec + KEY_OFFSET, 32)
    }

    /// The 32-byte identifier of the program that owns this account.
    pub fn owner<'a>(&self, buf: &'a HostBuffer) -> (o: &'a [u8])
        requires
            record_wf(buf@, self.rec_offset()),
        ensures
            o@ == rec_owner(buf@, self.rec_offset()),
            o@.len() == 32,
    {
        proof {
            buf.lemma_len_bound();
        }
        buf.slice_range(self.rec + OWNER_OFFSET, 32)
    }

    /// Whether the transaction was signed by this account.
    pub fn is_signer(&self, buf: &HostBuffer) -> (r: bool)
        requires
            record_wf(buf@, self.rec_offset()),
        ensures
            r == rec_is_signer(buf@, self.rec_offset()),
    {
        proof {
            buf.lemma_len_bound();
        }
        buf.byte_at(self.rec + IS_SIGNER_OFFSET) != 0
    }

    /// Whether the account is writable.
    pub fn is_writable(&self, buf: &HostBuffer) -> (r: bool)
        requires
            record_wf(buf@, self.rec_offset()),
        ensures
            r == rec_is_writable(buf@, self.rec_offset()),
    {
        proof {
            buf.lemma_len_bound();
        }
        buf.byte_at(self.rec + IS_WRITABLE_OFFSET) != 0
    }

    /// Whether this account holds a loaded program.
    pub fn executable(&self, buf: &HostBuffer) -> (r: bool)
        requires
            record_wf(buf@, self.rec_offset()),
        ensures
            r == rec_executable(buf@, self.rec_offset()),
    {
        proof {
            buf.lemma_len_bound();
        }
        buf.byte_at(self.rec + EXECUTABLE_OFFSET) != 0
    }

    /// Current length of the account's data region.
    pub fn data_len(&self, buf: &HostBuffer) -> (n: usize)
        requires
            record_wf(buf@, self.rec_offset()),
        ensures
            n == rec_data_len(buf@, self.rec_offset()),
    {
        proof {
            buf.lemma_len_bound();
        }
        buf.read_u64(self.rec + DATA_LEN_OFFSET) as usize
    }

    /// The account's data length as serialized at invocation start.
    pub(crate) fn original_data_len(&self, buf: &HostBuffer) -> (n: usize)
        requires
            record_wf(buf@, self.rec_offset()),
        ensures
            n == rec_original_len(buf@, self.rec_offset()),
    {
        proof {
            buf.lemma_len_bound();
        }
        buf.read_u32(self.rec + ORIGINAL_LEN_OFFSET) as usize
    }

    /// Whether the account's data region is empty.
    pub fn data_is_empty(&self, buf: &HostBuffer) -> (r: bool)
        requires
            record_wf(buf@, self.rec_offset()),
        ensures
            r == (rec_data_len(buf@, self.rec_offset()) == 0),
    {
        self.data_len(buf) == 0
    }

    /// Overwrites the owner field. The host does not require an access
    /// grant for ownership changes, so this is a raw write; only data and
    /// balance accesses are guarded.
    pub fn assign(&self, buf: &mut HostBuffer, new_owner: &[u8])
        requires
            record_wf(old(buf)@, self.rec_offset()),
            new_owner@.len() == 32,
        ensures
            rec_owner(final(buf)@, self.rec_offset()) == new_owner@,
            final(buf)@.len() == old(buf)@.len(),
            eq_except(
                final(buf)@,
                old(buf)@,
                self.rec_offset() + OWNER_OFFSET,
                self.rec_offset() + LAMPORTS_OFFSET,
            ),
            record_wf(final(buf)@, self.rec_offset()),
            rec_borrow_state(final(buf)@, self.rec_offset()) == rec_borrow_state(
                old(buf)@,
                self.rec_offset(),
            ),
            rec_data_len(final(buf)@, self.rec_offset()) == rec_data_len(
                old(buf)@,
                self.rec_offset(),
            ),
            rec_data(final(buf)@, self.rec_offset()) == rec_data(old(buf)@, self.rec_offset()),
            rec_lamports(final(buf)@, self.rec_offset()) == rec_lamports(
                old(buf)@,
                self.rec_offset(),
            ),
            rec_key(final(buf)@, self.rec_offset()) == rec_key(old(buf)@, self.rec_offset()),
    {
        proof {
            buf.lemma_len_bound();
        }
        let ghost prior = buf@;
        let ghost rec = self.rec_offset();
        let mut j: usize = 0;
        while j < 32
            invariant
                record_wf(prior, rec),
                rec == self.rec as int,
                new_owner@.len() == 32,
                0 <= j <= 32,
                buf@.len() == prior.len() <= usize::MAX,
                forall|k: int| 0 <= k < prior.len() && !(rec + OWNER_OFFSET <= k < rec
                    + OWNER_OFFSET + j) ==> buf@[k] == prior[k],
                forall|k: int| 0 <= k < j ==> buf@[rec + OWNER_OFFSET + k] == new_owner@[k],
            decreases 32 - j,
        {
            buf.set_byte(self.rec + OWNER_OFFSET + j, new_owner[j]);
            j += 1;
        }
        proof {
            assert(eq_except(buf@, prior, rec + OWNER_OFFSET, rec + LAMPORTS_OFFSET));
            assert(rec_owner(buf@, rec) =~= new_owner@);
            lemma_subrange_outside_unchanged(
                buf@,
                prior,
                rec + OWNER_OFFSET,
                rec + LAMPORTS_OFFSET,
                rec + ORIGINAL_LEN_OFFSET,
                rec + KEY_OFFSET,
            );
            lemma_subrange_outside_unchanged(
                buf@,
                prior,
                rec + OWNER_OFFSET,
                rec + LAMPORTS_OFFSET,
                rec + KEY_OFFSET,
                rec + OWNER_OFFSET,
            );
            lemma_subrange_outside_unchanged(
                buf@,
                prior,
                rec + OWNER_OFFSET,
                rec + LAMPORTS_OFFSET,
                rec + LAMPORTS_OFFSET,
                rec + DATA_LEN_OFFSET,
            );
            lemma_subrange_outside_unchanged(
                buf@,
                prior,
                rec + OWNER_OFFSET,
                rec + LAMPORTS_OFFSET,
                rec + DATA_LEN_OFFSET,
                rec + HEADER_LEN,
            );
            lemma_subrange_outside_unchanged(
                buf@,
                prior,
                rec + OWNER_OFFSET,
                rec + LAMPORTS_OFFSET,
                rec + HEADER_LEN,
                rec + HEADER_LEN + rec_data_len(prior, rec),
            );
        }
    }

    /// Reads the balance without touching the grant byte. This bypass is
    /// only sound when the caller has established that no aliased handle
    /// holds a conflicting grant; it is a documented escape hatch, not
    /// part of the safety guarantee.
    pub fn unchecked_borrow_lamports(&self, buf: &HostBuffer) -> (r: u64)
        requires
            record_wf(buf@, self.rec_offset()),
        ensures
            r == rec_lamports(buf@, self.rec_offset()),
    {
        proof {
            buf.lemma_len_bound();
        }
        buf.read_u64(self.rec + LAMPORTS_OFFSET)
    }

    /// Writes the balance without touching the grant byte; the same
    /// escape hatch as `unchecked_borrow_lamports`.
    pub fn unchecked_write_lamports(&self, buf: &mut HostBuffer, v: u64)
        requires
            record_wf(old(buf)@, self.rec_offset()),
        ensures
            rec_lamports(final(buf)@, self.rec_offset()) == v,
            final(buf)@.len() == old(buf)@.len(),
            eq_except(
                final(buf)@,
                old(buf)@,
                self.rec_offset() + LAMPORTS_OFFSET,
                self.rec_offset() + DATA_LEN_OFFSET,
            ),
            record_wf(final(buf)@, self.rec_offset()),
            rec_borrow_state(final(buf)@, self.rec_offset()) == rec_borrow_state(
                old(buf)@,
                self.rec_offset(),
            ),
            rec_data_len(final(buf)@, self.rec_offset()) == rec_data_len(
                old(buf)@,
                self.rec_offset(),
            ),
            rec_data(final(buf)@, self.rec_offset()) == rec_data(old(buf)@, self.rec_offset()),
    {
        proof {
            buf.lemma_len_bound();
        }
        let ghost prior = buf@;
        let ghost rec = self.rec_offset();
        buf.write_u64(self.rec + LAMPORTS_OFFSET, v);
        proof {
            lemma_subrange_outside_unchanged(
                buf@,
                prior,
                rec + LAMPORTS_OFFSET,
                rec + DATA_LEN_OFFSET,
                rec + ORIGINAL_LEN_OFFSET,
                rec + KEY_OFFSET,
            );
            lemma_subrange_outside_unchanged(
                buf@,
                prior,
                rec + LAMPORTS_OFFSET,
                rec + DATA_LEN_OFFSET,
                rec + DATA_LEN_OFFSET,
                rec + HEADER_LEN,
            );
            lemma_subrange_outside_unchanged(
                buf@,
                prior,
                rec + LAMPORTS_OFFSET,
                rec + DATA_LEN_OFFSET,
                rec + HEADER_LEN,
                rec + HEADER_LEN + rec_data_len(prior, rec),
            );
        }
    }

    /// Borrows the data region without touching the grant byte; the same
    /// escape hatch as `unchecked_borrow_lamports`.
    pub fn unchecked_borrow_data<'a>(&self, buf: &'a HostBuffer) -> (d: &'a [u8])
        requires
            record_wf(buf@, self.rec_offset()),
        ensures
            d@ == rec_data(buf@, self.rec_offset()),
    {
        proof {
            buf.lemma_len_bound();
        }
        let n = self.data_len(buf);
        buf.slice_range(self.rec + HEADER_LEN, n)
    }

    /// Writes one data byte without touching the grant byte; the same
    /// escape hatch as `unchecked_borrow_lamports`.
    pub fn unchecked_write_data_byte(&self, buf: &mut HostBuffer, i: usize, v: u8)
        requires
            record_wf(old(buf)@, self.rec_offset()),
            i < rec_data_len(old(buf)@, self.rec_offset()),
        ensures
            rec_data(final(buf)@, self.rec_offset()) == rec_data(
                old(buf)@,
                self.rec_offset(),
            ).update(i as int, v),
            final(buf)@.len() == old(buf)@.len(),
            eq_except(
                final(buf)@,
                old(buf)@,
                self.rec_offset() + HEADER_LEN + i,
                self.rec_offset() + HEADER_LEN + i + 1,
            ),
            record_wf(final(buf)@, self.rec_offset()),
            rec_borrow_state(final(buf)@, self.rec_offset()) == rec_borrow_state(
                old(buf)@,
                self.rec_offset(),
            ),
            rec_data_len(final(buf)@, self.rec_offset()) == rec_data_len(
                old(buf)@,
                self.rec_offset(),
            ),
            rec_lamports(final(buf)@, self.rec_offset()) == rec_lamports(
                old(buf)@,
                self.rec_offset(),
            ),
    {
        proof {
            buf.lemma_len_bound();
        }
        let ghost prior = buf@;
        let ghost rec = self.rec_offset();
        buf.set_byte(self.rec + HEADER_LEN + i, v);
        proof {
            let lo = rec + HEADER_LEN + i;
            assert(eq_except(buf@, prior, lo, lo + 1));
            lemma_subrange_outside_unchanged(
                buf@,
                prior,
                lo,
                lo + 1,
                rec + ORIGINAL_LEN_OFFSET,
                rec + KEY_OFFSET,
            );
            lemma_subrange_outside_unchanged(
                buf@,
                prior,
                lo,
                lo + 1,
                rec + LAMPORTS_OFFSET,
                rec + DATA_LEN_OFFSET,
            );
            lemma_subrange_outside_unchanged(
                buf@,
                prior,
                lo,
                lo + 1,
                rec + DATA_LEN_OFFSET,
                rec + HEADER_LEN,
            );
            assert(rec_data(buf@, rec) =~= rec_data(prior, rec).update(i as int, v));
        }
    }
}

impl AccountInfo {
    /// Requests a shared grant on the balance resource, failing with
    /// `BorrowConflict` while an exclusive grant is outstanding or 7
    /// shared grants already are.
    pub fn try_borrow_lamports(&self, buf: &mut HostBuffer) -> (r: Result<Ref, ProgramError>)
        requires
            record_wf(old(buf)@, self.rec_offset()),
        ensures
            ({
                let s = rec_borrow_state(old(buf)@, self.rec_offset());
                let s2 = rec_borrow_state(final(buf)@, self.rec_offset());
                &&& r is Ok <==> lamports_shared_ok(s)
                &&& r is Err ==> r == Err::<Ref, ProgramError>(ProgramError::BorrowConflict)
                    && final(buf)@ == old(buf)@
                &&& r matches Ok(g) ==> {
                    &&& g.rec_offset() == self.rec_offset()
                    &&& g.resource() == Resource::Lamports
                    &&& borrow_state_only_changed(old(buf)@, final(buf)@, self.rec_offset())
                    &&& lamports_shared_count(s2) == lamports_shared_count(s) + 1
                    &&& lamports_exclusive(s2) == lamports_exclusive(s)
                    &&& data_shared_count(s2) == data_shared_count(s)
                    &&& data_exclusive(s2) == data_exclusive(s)
                    &&& record_wf(final(buf)@, self.rec_offset())
                }
            }),
    {
        proof {
            buf.lemma_len_bound();
        }
        let s = buf.byte_at(self.rec);
        match acquire_shared_lamports(s) {
            Some(s2) => {
                self.write_state(buf, s2);
                Ok(Ref { rec: self.rec, res: Resource::Lamports })
            },
            None => Err(ProgramError::BorrowConflict),
        }
    }

    /// Requests an exclusive grant on the balance resource, failing with
    /// `BorrowConflict` while any grant on it is outstanding.
    pub fn try_borrow_mut_lamports(&self, buf: &mut HostBuffer) -> (r: Result<
        RefMut,
        ProgramError,
    >)
        requires
            record_wf(old(buf)@, self.rec_offset()),
        ensures
            ({
                let s = rec_borrow_state(old(buf)@, self.rec_offset());
                let s2 = rec_borrow_state(final(buf)@, self.rec_offset());
                &&& r is Ok <==> lamports_exclusive_ok(s)
                &&& r is Err ==> r == Err::<RefMut, ProgramError>(ProgramError::BorrowConflict)
                    && final(buf)@ == old(buf)@
                &&& r matches Ok(g) ==> {
                    &&& g.rec_offset() == self.rec_offset()
                    &&& g.resource() == Resource::Lamports
                    &&& borrow_state_only_changed(old(buf)@, final(buf)@, self.rec_offset())
                    &&& lamports_exclusive(s2)
                    &&& lamports_shared_count(s2) == lamports_shared_count(s)
                    &&& data_shared_count(s2) == data_shared_count(s)
                    &&& data_exclusive(s2) == data_exclusive(s)
                    &&& record_wf(final(buf)@, self.rec_offset())
                }
            }),
    {
        proof {
            buf.lemma_len_bound();
        }
        let s = buf.byte_at(self.rec);
        match acquire_exclusive_lamports(s) {
            Some(s2) => {
                self.write_state(buf, s2);
                Ok(RefMut { rec: self.rec, res: Resource::Lamports })
            },
            None => Err(ProgramError::BorrowConflict),
        }
    }

    /// Requests a shared grant on the data resource, failing with
    /// `BorrowConflict` while an exclusive grant is outstanding or 7
    /// shared grants already are.
    pub fn try_borrow_data(&self, buf: &mut HostBuffer) -> (r: Result<Ref, ProgramError>)
        requires
            record_wf(old(buf)@, self.rec_offset()),
        ensures
            ({
                let s = rec_borrow_state(old(buf)@, self.rec_offset());
                let s2 = rec_borrow_state(final(buf)@, self.rec_offset());
                &&& r is Ok <==> data_shared_ok(s)
                &&& r is Err ==> r == Err::<Ref, ProgramError>(ProgramError::BorrowConflict)
                    && final(buf)@ == old(buf)@
                &&& r matches Ok(g) ==> {
                    &&& g.rec_offset() == self.rec_offset()
                    &&& g.resource() == Resource::Data
                    &&& borrow_state_only_changed(old(buf)@, final(buf)@, self.rec_offset())
                    &&& data_shared_count(s2) == data_shared_count(s) + 1
                    &&& data_exclusive(s2) == data_exclusive(s)
                    &&& lamports_shared_count(s2) == lamports_shared_count(s)
                    &&& lamports_exclusive(s2) == lamports_exclusive(s)
                    &&& record_wf(final(buf)@, self.rec_offset())
                }
            }),
    {
        proof {
            buf.lemma_len_bound();
        }
        let s = buf.byte_at(self.rec);
        match acquire_shared_data(s) {
            Some(s2) => {
                self.write_state(buf, s2);
                Ok(Ref { rec: self.rec, res: Resource::Data })
            },
            None => Err(ProgramError::BorrowConflict),
        }
    }

    /// Requests an exclusive grant on the data resource, failing with
    /// `BorrowConflict` while any grant on it is outstanding.
    pub fn try_borrow_mut_data(&self, buf: &mut HostBuffer) -> (r: Result<RefMut, ProgramError>)
        requires
            record_wf(old(buf)@, self.rec_offset()),
        ensures
            ({
                let s = rec_borrow_state(old(buf)@, self.rec_offset());
                let s2 = rec_borrow_state(final(buf)@, self.rec_offset());
                &&& r is Ok <==> data_exclusive_ok(s)
                &&& r is Err ==> r == Err::<RefMut, ProgramError>(ProgramError::BorrowConflict)
                    && final(buf)@ == old(buf)@
                &&& r matches Ok(g) ==> {
                    &&& g.rec_offset() == self.rec_offset()
                    &&& g.resource() == Resource::Data
                    &&& borrow_state_only_changed(old(buf)@, final(buf)@, self.rec_offset())
                    &&& data_exclusive(s2)
                    &&& data_shared_count(s2) == data_shared_count(s)
                    &&& lamports_shared_count(s2) == lamports_shared_count(s)
                    &&& lamports_exclusive(s2) == lamports_exclusive(s)
                    &&& record_wf(final(buf)@, self.rec_offset())
                }
            }),
    {
        proof {
            buf.lemma_len_bound();
        }
        let s = buf.byte_at(self.rec);
        match acquire_exclusive_data(s) {
            Some(s2) => {
                self.write_state(buf, s2);
                Ok(RefMut { rec: self.rec, res: Resource::Data })
            },
            None => Err(ProgramError::BorrowConflict),
        }
    }

    /// Grows or shrinks the account's data region in place.
    ///
    /// The operation first takes an exclusive data grant (failing with
    /// `BorrowConflict` while any data grant is outstanding) and releases
    /// it on every exit path. A request for the current length returns at
    /// once. Growth beyond the host ceiling, measured against the
    /// original serialized length, fails with `ReallocTooLarge` and
    /// leaves the record unchanged. Otherwise the length field is
    /// rewritten in place and, when `zero_init` is set, exactly the newly
    /// exposed bytes beyond the original length are zero-filled; the host
    /// already zeroed the growth reserve at invocation start, so that
    /// cost is only worth paying when the region was shrunk and regrown
    /// within this invocation.
    pub fn realloc(&self, buf: &mut HostBuffer, new_len: usize, zero_init: bool) -> (r: Result<
        (),
        ProgramError,
    >)
        requires
            record_wf(old(buf)@, self.rec_offset()),
        ensures
            ({
                let b0 = old(buf)@;
                let rec = self.rec_offset();
                let s = rec_borrow_state(b0, rec);
                let cur = rec_data_len(b0, rec) as int;
                let orig = rec_original_len(b0, rec) as int;
                let start = if cur >= orig {
                    cur
                } else {
                    orig
                };
                &&& !data_exclusive_ok(s) ==> r == Err::<(), ProgramError>(
                    ProgramError::BorrowConflict,
                ) && final(buf)@ == b0
                &&& data_exclusive_ok(s) && new_len == cur ==> r == Ok::<(), ProgramError>(())
                    && final(buf)@ == b0
                &&& data_exclusive_ok(s) && new_len != cur && new_len > orig + GROWTH_CEILING
                    ==> r == Err::<(), ProgramError>(ProgramError::ReallocTooLarge) && final(buf)@
                    == b0
                &&& data_exclusive_ok(s) && new_len != cur && new_len <= orig + GROWTH_CEILING
                    ==> {
                    &&& r == Ok::<(), ProgramError>(())
                    &&& final(buf)@.len() == b0.len()
                    &&& rec_data_len(final(buf)@, rec) == new_len
                    &&& rec_borrow_state(final(buf)@, rec) == s
                    &&& rec_original_len(final(buf)@, rec) == orig
                    &&& rec_lamports(final(buf)@, rec) == rec_lamports(b0, rec)
                    &&& rec_key(final(buf)@, rec) == rec_key(b0, rec)
                    &&& rec_owner(final(buf)@, rec) == rec_owner(b0, rec)
                    &&& record_wf(final(buf)@, rec)
                    &&& forall|k: int| 0 <= k < b0.len() && !(rec + DATA_LEN_OFFSET <= k < rec
                        + HEADER_LEN) && !(zero_init && rec + HEADER_LEN + start <= k < rec
                        + HEADER_LEN + new_len) ==> final(buf)@[k] == b0[k]
                    &&& zero_init ==> forall|k: int| rec + HEADER_LEN + start <= k < rec
                        + HEADER_LEN + new_len ==> final(buf)@[k] == 0
                }
            }),
    {
        proof {
            buf.lemma_len_bound();
        }
        let ghost b0 = buf@;
        let ghost rec = self.rec_offset();
        let ghost s = rec_borrow_state(b0, rec);
        let g = match self.try_borrow_mut_data(buf) {
            Ok(g) => g,
            Err(e) => {
                return Err(e);
            },
        };
        let ghost b1 = buf@;
        let current_len = self.data_len(buf);
        let original_len = self.original_data_len(buf);
        if new_len == current_len {
            g.release(buf);
            proof {
                lemma_state_byte_determined(rec_borrow_state(buf@, rec), s);
                assert(buf@ =~= b0);
            }
            return Ok(());
        }
        if new_len > original_len && new_len - original_len > GROWTH_CEILING {
            g.release(buf);
            proof {
                lemma_state_byte_determined(rec_borrow_state(buf@, rec), s);
                assert(buf@ =~= b0);
            }
            return Err(ProgramError::ReallocTooLarge);
        }
        buf.write_u64(self.rec + DATA_LEN_OFFSET, new_len as u64);
        let ghost b2 = buf@;
        proof {
            assert(rec_borrow_state(b2, rec) == rec_borrow_state(b1, rec));
            lemma_subrange_outside_unchanged(
                b2,
                b1,
                rec + DATA_LEN_OFFSET,
                rec + HEADER_LEN,
                rec + ORIGINAL_LEN_OFFSET,
                rec + KEY_OFFSET,
            );
        }
        let start = if current_len > original_len {
            current_len
        } else {
            original_len
        };
        if zero_init && new_len > start {
            let mut k = start;
            while k < new_len
                invariant
                    start <= k <= new_len,
                    rec == self.rec as int,
                    0 <= rec,
                    rec + HEADER_LEN + new_len <= b2.len() <= usize::MAX,
                    buf@.len() == b2.len(),
                    forall|j: int| 0 <= j < b2.len() && !(rec + HEADER_LEN + start <= j < rec
                        + HEADER_LEN + k) ==> buf@[j] == b2[j],
                    forall|j: int| rec + HEADER_LEN + start <= j < rec + HEADER_LEN + k ==> buf@[j]
                        == 0,
                decreases new_len - k,
            {
                buf.set_byte(self.rec + HEADER_LEN + k, 0);
                k += 1;
            }
        }
        let ghost b3 = buf@;
        proof {
            // the zero-filled span lies beyond the header, so every
            // header field carries over from the state after the length
            // write
            assert(eq_except(b3, b2, rec + HEADER_LEN + start as int, rec + HEADER_LEN + new_len));
            assert(rec_borrow_state(b3, rec) == rec_borrow_state(b2, rec));
            lemma_subrange_outside_unchanged(
                b3,
                b2,
                rec + HEADER_LEN + start as int,
                rec + HEADER_LEN + new_len,
                rec + ORIGINAL_LEN_OFFSET,
                rec + KEY_OFFSET,
            );
            lemma_subrange_outside_unchanged(
                b3,
                b2,
                rec + HEADER_LEN + start as int,
                rec + HEADER_LEN + new_len,
                rec + DATA_LEN_OFFSET,
                rec + HEADER_LEN,
            );
            assert(rec_data_len(b3, rec) == new_len);
            assert(record_wf(b3, rec));
        }
        g.release(buf);
        proof {
            lemma_state_byte_determined(rec_borrow_state(buf@, rec), s);
            let b4 = buf@;
            lemma_subrange_outside_unchanged(
                b4,
                b3,
                rec,
                rec + 1,
                rec + ORIGINAL_LEN_OFFSET,
                rec + KEY_OFFSET,
            );
            lemma_subrange_outside_unchanged(
                b4,
                b3,
                rec,
                rec + 1,
                rec + DATA_LEN_OFFSET,
                rec + HEADER_LEN,
            );
            lemma_subrange_outside_unchanged(b4, b3, rec, rec + 1, rec + KEY_OFFSET, rec
                + OWNER_OFFSET);
            lemma_subrange_outside_unchanged(b4, b3, rec, rec + 1, rec + OWNER_OFFSET, rec
                + LAMPORTS_OFFSET);
            lemma_subrange_outside_unchanged(
                b4,
                b3,
                rec,
                rec + 1,
                rec + LAMPORTS_OFFSET,
                rec + DATA_LEN_OFFSET,
            );
            // relate the untouched fields all the way back to the start
            lemma_subrange_outside_unchanged(b1, b0, rec, rec + 1, rec + KEY_OFFSET, rec
                + OWNER_OFFSET);
            lemma_subrange_outside_unchanged(b1, b0, rec, rec + 1, rec + OWNER_OFFSET, rec
                + LAMPORTS_OFFSET);
            lemma_subrange_outside_unchanged(
                b1,
                b0,
                rec,
                rec + 1,
                rec + LAMPORTS_OFFSET,
                rec + DATA_LEN_OFFSET,
            );
            lemma_subrange_outside_unchanged(
                b2,
                b1,
                rec + DATA_LEN_OFFSET,
                rec + HEADER_LEN,
                rec + KEY_OFFSET,
                rec + OWNER_OFFSET,
            );
            lemma_subrange_outside_unchanged(
                b2,
                b1,
                rec + DATA_LEN_OFFSET,
                rec + HEADER_LEN,
                rec + OWNER_OFFSET,
                rec + LAMPORTS_OFFSET,
            );
            lemma_subrange_outside_unchanged(
                b2,
                b1,
                rec + DATA_LEN_OFFSET,
                rec + HEADER_LEN,
                rec + LAMPORTS_OFFSET,
                rec + DATA_LEN_OFFSET,
            );
            lemma_subrange_outside_unchanged(
                b3,
                b2,
                rec + HEADER_LEN + start as int,
                rec + HEADER_LEN + new_len,
                rec + KEY_OFFSET,
                rec + OWNER_OFFSET,
            );
            lemma_subrange_outside_unchanged(
                b3,
                b2,
                rec + HEADER_LEN + start as int,
                rec + HEADER_LEN + new_len,
                rec + OWNER_OFFSET,
                rec + LAMPORTS_OFFSET,
            );
            lemma_subrange_outside_unchanged(
                b3,
                b2,
                rec + HEADER_LEN + start as int,
                rec + HEADER_LEN + new_len,
                rec + LAMPORTS_OFFSET,
                rec + DATA_LEN_OFFSET,
            );
        }
        Ok(())
    }

    /// Writes the record's status byte and carries over that nothing
    /// else changed.
    fn write_state(&self, buf: &mut HostBuffer, s2: u8)
        requires
            record_wf(old(buf)@, self.rec_offset()),
        ensures
            rec_borrow_state(final(buf)@, self.rec_offset()) == s2,
            borrow_state_only_changed(old(buf)@, final(buf)@, self.rec_offset()),
            record_wf(final(buf)@, self.rec_offset()),
    {
        proof {
            buf.lemma_len_bound();
        }
        let ghost prior = buf@;
        let ghost rec = self.rec_offset();
        buf.set_byte(self.rec, s2);
        proof {
            assert(eq_except(buf@, prior, rec, rec + 1));
            lemma_nonstate_fields_unchanged(prior, buf@, rec);
        }
    }
}

/// A shared (read) grant on one resource of one record, issued by a
/// successful borrow request and returned exactly once through
/// `release`.
pub struct Ref {
    rec: usize,
    res: Resource,
}

impl Ref {
    /// Offset of the record this grant was issued against.
    pub closed spec fn rec_offset(&self) -> int {
        self.rec as int
    }

    /// The resource this grant covers.
    pub closed spec fn resource(&self) -> Resource {
        self.res
    }

    /// Reads the balance under a shared balance grant.
    pub fn lamports(&self, buf: &HostBuffer) -> (r: u64)
        requires
            record_wf(buf@, self.rec_offset()),
            self.resource() == Resource::Lamports,
        ensures
            r == rec_lamports(buf@, self.rec_offset()),
    {
        proof {
            buf.lemma_len_bound();
        }
        buf.read_u64(self.rec + LAMPORTS_OFFSET)
    }

    /// Borrows the data region under a shared data grant.
    pub fn data<'a>(&self, buf: &'a HostBuffer) -> (d: &'a [u8])
        requires
            record_wf(buf@, self.rec_offset()),
            self.resource() == Resource::Data,
        ensures
            d@ == rec_data(buf@, self.rec_offset()),
    {
        proof {
            buf.lemma_len_bound();
        }
        let n = buf.read_u64(self.rec + DATA_LEN_OFFSET) as usize;
        buf.slice_range(self.rec + HEADER_LEN, n)
    }

    /// Returns the grant, decrementing its resource's shared count. Each
    /// grant is released exactly once; release consumes it.
    pub fn release(self, buf: &mut HostBuffer)
        requires
            record_wf(old(buf)@, self.rec_offset()),
            shared_count(rec_borrow_state(old(buf)@, self.rec_offset()), self.resource()) >= 1,
        ensures
            ({
                let s = rec_borrow_state(old(buf)@, self.rec_offset());
                let s2 = rec_borrow_state(final(buf)@, self.rec_offset());
                &&& borrow_state_only_changed(old(buf)@, final(buf)@, self.rec_offset())
                &&& shared_count(s2, self.resource()) == shared_count(s, self.resource()) - 1
                &&& exclusive_flag(s2, self.resource()) == exclusive_flag(s, self.resource())
                &&& shared_count(s2, other_resource(self.resource())) == shared_count(
                    s,
                    other_resource(self.resource()),
                )
                &&& exclusive_flag(s2, other_resource(self.resource())) == exclusive_flag(
                    s,
                    other_resource(self.resource()),
                )
                &&& record_wf(final(buf)@, self.rec_offset())
            }),
    {
        proof {
            buf.lemma_len_bound();
        }
        let s = buf.byte_at(self.rec);
        let s2 = match self.res {
            Resource::Lamports => release_shared_lamports(s),
            Resource::Data => release_shared_data(s),
        };
        let a = AccountInfo { rec: self.rec };
        a.write_state(buf, s2);
    }
}

/// An exclusive (write) grant on one resource of one record, issued by a
/// successful mutable borrow request and returned exactly once through
/// `release`.
pub struct RefMut {
    rec: usize,
    res: Resource,
}

impl RefMut {
    /// Offset of the record this grant was issued against.
    pub closed spec fn rec_offset(&self) -> int {
        self.rec as int
    }

    /// The resource this grant covers.
    pub closed spec fn resource(&self) -> Resource {
        self.res
    }

    /// Reads the balance under an exclusive balance grant.
    pub fn lamports(&self, buf: &HostBuffer) -> (r: u64)
        requires
            record_wf(buf@, self.rec_offset()),
            self.resource() == Resource::Lamports,
        ensures
            r == rec_lamports(buf@, self.rec_offset()),
    {
        proof {
            buf.lemma_len_bound();
        }
        buf.read_u64(self.rec + LAMPORTS_OFFSET)
    }

    /// Writes the balance under an exclusive balance grant.
    pub fn set_lamports(&self, buf: &mut HostBuffer, v: u64)
        requires
            record_wf(old(buf)@, self.rec_offset()),
            self.resource() == Resource::Lamports,
        ensures
            rec_lamports(final(buf)@, self.rec_offset()) == v,
            final(buf)@.len() == old(buf)@.len(),
            eq_except(
                final(buf)@,
                old(buf)@,
                self.rec_offset() + LAMPORTS_OFFSET,
                self.rec_offset() + DATA_LEN_OFFSET,
            ),
            record_wf(final(buf)@, self.rec_offset()),
            rec_borrow_state(final(buf)@, self.rec_offset()) == rec_borrow_state(
                old(buf)@,
                self.rec_offset(),
            ),
            rec_data_len(final(buf)@, self.rec_offset()) == rec_data_len(
                old(buf)@,
                self.rec_offset(),
            ),
            rec_data(final(buf)@, self.rec_offset()) == rec_data(old(buf)@, self.rec_offset()),
    {
        let a = AccountInfo { rec: self.rec };
        a.unchecked_write_lamports(buf, v);
    }

    /// Borrows the data region under an exclusive data grant.
    pub fn data<'a>(&self, buf: &'a HostBuffer) -> (d: &'a [u8])
        requires
            record_wf(buf@, self.rec_offset()),
            self.resource() == Resource::Data,
        ensures
            d@ == rec_data(buf@, self.rec_offset()),
    {
        proof {
            buf.lemma_len_bound();
        }
        let n = buf.read_u64(self.rec + DATA_LEN_OFFSET) as usize;
        buf.slice_range(self.rec + HEADER_LEN, n)
    }

    /// Writes one data byte under an exclusive data grant.
    pub fn set_data_byte(&self, buf: &mut HostBuffer, i: usize, v: u8)
        requires
            record_wf(old(buf)@, self.rec_offset()),
            self.resource() == Resource::Data,
            i < rec_data_len(old(buf)@, self.rec_offset()),
        ensures
            rec_data(final(buf)@, self.rec_offset()) == rec_data(
                old(buf)@,
                self.rec_offset(),
            ).update(i as int, v),
            final(buf)@.len() == old(buf)@.len(),
            eq_except(
                final(buf)@,
                old(buf)@,
                self.rec_offset() + HEADER_LEN + i,
                self.rec_offset() + HEADER_LEN + i + 1,
            ),
            record_wf(final(buf)@, self.rec_offset()),
            rec_borrow_state(final(buf)@, self.rec_offset()) == rec_borrow_state(
                old(buf)@,
                self.rec_offset(),
            ),
            rec_data_len(final(buf)@, self.rec_offset()) == rec_data_len(
                old(buf)@,
                self.rec_offset(),
            ),
            rec_lamports(final(buf)@, self.rec_offset()) == rec_lamports(
                old(buf)@,
                self.rec_offset(),
            ),
    {
        let a = AccountInfo { rec: self.rec };
        a.unchecked_write_data_byte(buf, i, v);
    }

    /// Returns the grant, clearing its resource's exclusive flag. Each
    /// grant is released exactly once; release consumes it.
    pub fn release(self, buf: &mut HostBuffer)
        requires
            record_wf(old(buf)@, self.rec_offset()),
            exclusive_flag(rec_borrow_state(old(buf)@, self.rec_offset()), self.resource()),
        ensures
            ({
                let s = rec_borrow_state(old(buf)@, self.rec_offset());
                let s2 = rec_borrow_state(final(buf)@, self.rec_offset());
                &&& borrow_state_only_changed(old(buf)@, final(buf)@, self.rec_offset())
                &&& !exclusive_flag(s2, self.resource())
                &&& shared_count(s2, self.resource()) == shared_count(s, self.resource())
                &&& shared_count(s2, other_resource(self.resource())) == shared_count(
                    s,
                    other_resource(self.resource()),
                )
                &&& exclusive_flag(s2, other_resource(self.resource())) == exclusive_flag(
                    s,
                    other_resource(self.resource()),
                )
                &&& record_wf(final(buf)@, self.rec_offset())
            }),
    {
        proof {
            buf.lemma_len_bound();
        }
        let s = buf.byte_at(self.rec);
        let s2 = match self.res {
            Resource::Lamports => release_exclusive_lamports(s),
            Resource::Data => release_exclusive_data(s),
        };
        let a = AccountInfo { rec: self.rec };
        a.write_state(buf, s2);
    }
}

/// Two handles that hold the same record offset are the same handle:
/// every field read through one is the read the other would make, so a
/// write through either is visible through both.
pub proof fn lemma_aliased_handles(b: Seq<u8>, a1: AccountInfo, a2: AccountInfo)
    requires
        a1.rec_offset() == a2.rec_offset(),
    ensures
        a1 == a2,
        rec_lamports(b, a1.rec_offset()) == rec_lamports(b, a2.rec_offset()),
        rec_data(b, a1.rec_offset()) == rec_data(b, a2.rec_offset()),
        rec_owner(b, a1.rec_offset()) == rec_owner(b, a2.rec_offset()),
        rec_borrow_state(b, a1.rec_offset()) == rec_borrow_state(b, a2.rec_offset()),
{
}

} // verus!
