//! The per-record access-grant status byte.
//!
//! The high nibble tracks grants on the balance resource, the low nibble
//! grants on the data resource. Within each nibble the top bit is the
//! exclusive (write) grant flag and the low three bits count outstanding
//! shared (read) grants, so each resource admits at most 7 concurrent
//! shared grants. The byte lives in the record itself, so every handle
//! that aliases one record observes the same outstanding grants.

use vstd::prelude::*;

verus! {

/// Number of outstanding shared grants on the data resource.
pub open spec fn data_shared_count(s: u8) -> u8 {
    s & 0x07
}

/// Whether an exclusive grant is outstanding on the data resource.
pub open spec fn data_exclusive(s: u8) -> bool {
    s & 0x08 != 0
}

/// Number of outstanding shared grants on the balance resource.
pub open spec fn lamports_shared_count(s: u8) -> u8 {
    (s >> 4) & 0x07
}

/// Whether an exclusive grant is outstanding on the balance resource.
pub open spec fn lamports_exclusive(s: u8) -> bool {
    s & 0x80 != 0
}

/// A shared data grant may be issued: no exclusive grant is outstanding
/// and fewer than 7 shared grants are.
pub open spec fn data_shared_ok(s: u8) -> bool {
    !data_exclusive(s) && data_shared_count(s) < 7
}

/// An exclusive data grant may be issued: no grant of any kind is
/// outstanding on the data resource.
pub open spec fn data_exclusive_ok(s: u8) -> bool {
    !data_exclusive(s) && data_shared_count(s) == 0
}

/// A shared balance grant may be issued.
pub open spec fn lamports_shared_ok(s: u8) -> bool {
    !lamports_exclusive(s) && lamports_shared_count(s) < 7
}

/// An exclusive balance grant may be issued.
pub open spec fn lamports_exclusive_ok(s: u8) -> bool {
    !lamports_exclusive(s) && lamports_shared_count(s) == 0
}

/// Issues a shared data grant against status byte `s`: the incremented
/// byte, or `None` when the grant must be refused.
pub fn acquire_shared_data(s: u8) -> (r: Option<u8>)
    ensures
        r is Some <==> data_shared_ok(s),
        r matches Some(s2) ==> {
            &&& data_shared_count(s2) == data_shared_count(s) + 1
            &&& data_exclusive(s2) == data_exclusive(s)
            &&& lamports_shared_count(s2) == lamports_shared_count(s)
            &&& lamports_exclusive(s2) == lamports_exclusive(s)
        },
{
    if s & 0x08 != 0 {
        None
    } else if s & 0x07 == 0x07 {
        None
    } else {
        assert(s & 0x08 == 0 && s & 0x07 != 0x07 ==> s < 0xff && s & 0x07 < 7 && ((s
            + 1) as u8) & 0x07 == (s & 0x07) + 1
            && ((s + 1) as u8) & 0x08 == s & 0x08 && (((s + 1) as u8) >> 4) & 0x07 == (s >> 4)
            & 0x07 && ((s + 1) as u8) & 0x80 == s & 0x80) by (bit_vector);
        Some(s + 1)
    }
}

/// Issues an exclusive data grant against status byte `s`.
pub fn acquire_exclusive_data(s: u8) -> (r: Option<u8>)
    ensures
        r is Some <==> data_exclusive_ok(s),
        r matches Some(s2) ==> {
            &&& data_exclusive(s2)
            &&& data_shared_count(s2) == data_shared_count(s)
            &&& lamports_shared_count(s2) == lamports_shared_count(s)
            &&& lamports_exclusive(s2) == lamports_exclusive(s)
        },
{
    assert(s & 0x0f == 0 ==> (s | 0x08) & 0x08 != 0 && (s | 0x08) & 0x07 == s & 0x07 && ((s
        | 0x08) >> 4) & 0x07 == (s >> 4) & 0x07 && (s | 0x08) & 0x80 == s & 0x80
        && data_exclusive_ok(s)) by (bit_vector);
    assert(s & 0x0f != 0 ==> !data_exclusive_ok(s)) by (bit_vector);
    if s & 0x0f != 0 {
        None
    } else {
        Some(s | 0x08)
    }
}

/// Releases one shared data grant.
pub fn release_shared_data(s: u8) -> (r: u8)
    requires
        data_shared_count(s) >= 1,
    ensures
        data_shared_count(r) == data_shared_count(s) - 1,
        data_exclusive(r) == data_exclusive(s),
        lamports_shared_count(r) == lamports_shared_count(s),
        lamports_exclusive(r) == lamports_exclusive(s),
{
    assert(s & 0x07 >= 1 ==> s >= 1 && ((s - 1) as u8) & 0x07 == (s & 0x07) - 1 && ((s
        - 1) as u8) & 0x08
        == s & 0x08 && (((s - 1) as u8) >> 4) & 0x07 == (s >> 4) & 0x07 && ((s - 1) as u8) & 0x80
        == s & 0x80) by (bit_vector);
    s - 1
}

/// Releases the exclusive data grant.
pub fn release_exclusive_data(s: u8) -> (r: u8)
    requires
        data_exclusive(s),
    ensures
        !data_exclusive(r),
        data_shared_count(r) == data_shared_count(s),
        lamports_shared_count(r) == lamports_shared_count(s),
        lamports_exclusive(r) == lamports_exclusive(s),
{
    assert((s & 0xf7) & 0x08 == 0 && (s & 0xf7) & 0x07 == s & 0x07 && ((s & 0xf7) >> 4) & 0x07 == (
    s >> 4) & 0x07 && (s & 0xf7) & 0x80 == s & 0x80) by (bit_vector);
    s & 0xf7
}

/// Issues a shared balance grant against status byte `s`.
pub fn acquire_shared_lamports(s: u8) -> (r: Option<u8>)
    ensures
        r is Some <==> lamports_shared_ok(s),
        r matches Some(s2) ==> {
            &&& lamports_shared_count(s2) == lamports_shared_count(s) + 1
            &&& lamports_exclusive(s2) == lamports_exclusive(s)
            &&& data_shared_count(s2) == data_shared_count(s)
            &&& data_exclusive(s2) == data_exclusive(s)
        },
{
    assert(s & 0x80 == 0 && s & 0x70 != 0x70 ==> s + 16 < 256 && (((s + 16) as u8) >> 4) & 0x07
        == ((s >> 4) & 0x07) + 1 && ((s + 16) as u8) & 0x80 == s & 0x80 && ((s + 16) as u8) & 0x07
        == s & 0x07 && ((s + 16) as u8) & 0x08 == s & 0x08 && (s >> 4) & 0x07 < 7) by (bit_vector);
    assert(s & 0x70 == 0x70 ==> (s >> 4) & 0x07 == 7) by (bit_vector);
    if s & 0x80 != 0 {
        None
    } else if s & 0x70 == 0x70 {
        None
    } else {
        Some(s + 16)
    }
}

/// Issues an exclusive balance grant against status byte `s`.
pub fn acquire_exclusive_lamports(s: u8) -> (r: Option<u8>)
    ensures
        r is Some <==> lamports_exclusive_ok(s),
        r matches Some(s2) ==> {
            &&& lamports_exclusive(s2)
            &&& lamports_shared_count(s2) == lamports_shared_count(s)
            &&& data_shared_count(s2) == data_shared_count(s)
            &&& data_exclusive(s2) == data_exclusive(s)
        },
{
    assert(s & 0xf0 == 0 ==> (s | 0x80) & 0x80 != 0 && ((s | 0x80) >> 4) & 0x07 == (s >> 4) & 0x07
        && (s | 0x80) & 0x07 == s & 0x07 && (s | 0x80) & 0x08 == s & 0x08
        && lamports_exclusive_ok(s)) by (bit_vector);
    assert(s & 0xf0 != 0 ==> !lamports_exclusive_ok(s)) by (bit_vector);
    if s & 0xf0 != 0 {
        None
    } else {
        Some(s | 0x80)
    }
}

/// Releases one shared balance grant.
pub fn release_shared_lamports(s: u8) -> (r: u8)
    requires
        lamports_shared_count(s) >= 1,
    ensures
        lamports_shared_count(r) == lamports_shared_count(s) - 1,
        lamports_exclusive(r) == lamports_exclusive(s),
        data_shared_count(r) == data_shared_count(s),
        data_exclusive(r) == data_exclusive(s),
{
    assert((s >> 4) & 0x07 >= 1 ==> s >= 16 && (((s - 16) as u8) >> 4) & 0x07 == ((s >> 4) & 0x07)
        - 1 && ((s - 16) as u8) & 0x80 == s & 0x80 && ((s - 16) as u8) & 0x07 == s & 0x07 && ((s
        - 16) as u8) & 0x08 == s & 0x08) by (bit_vector);
    s - 16
}

/// Releases the exclusive balance grant.
pub fn release_exclusive_lamports(s: u8) -> (r: u8)
    requires
        lamports_exclusive(s),
    ensures
        !lamports_exclusive(r),
        lamports_shared_count(r) == lamports_shared_count(s),
        data_shared_count(r) == data_shared_count(s),
        data_exclusive(r) == data_exclusive(s),
{
    assert((s & 0x7f) & 0x80 == 0 && ((s & 0x7f) >> 4) & 0x07 == (s >> 4) & 0x07 && (s & 0x7f)
        & 0x07 == s & 0x07 && (s & 0x7f) & 0x08 == s & 0x08) by (bit_vector);
    s & 0x7f
}

/// While any shared data grant is outstanding, an exclusive data grant is
/// refused; once no grant of either kind is outstanding on the data
/// resource, an exclusive grant is allowed.
pub proof fn lemma_data_exclusive_vs_shared(s: u8)
    ensures
        data_shared_count(s) > 0 ==> !data_exclusive_ok(s),
        data_shared_count(s) == 0 && !data_exclusive(s) ==> data_exclusive_ok(s),
{
}

/// Shared data grants saturate at 7: with 7 outstanding the next request
/// is refused, and releasing one makes room for a new grant.
pub proof fn lemma_data_shared_limit(s: u8)
    ensures
        data_shared_count(s) == 7 ==> !data_shared_ok(s),
        data_shared_count(s) < 7 && !data_exclusive(s) ==> data_shared_ok(s),
        data_shared_count(s) == 7 && !data_exclusive(s) ==> data_shared_ok((s - 1) as u8),
{
    assert(s & 0x07 == 7 && s & 0x08 == 0 ==> s >= 1 && ((s - 1) as u8) & 0x07 == 6 && ((s
        - 1) as u8) & 0x08 == 0) by (bit_vector);
}

/// While any shared balance grant is outstanding, an exclusive balance
/// grant is refused; once none is outstanding it is allowed.
pub proof fn lemma_lamports_exclusive_vs_shared(s: u8)
    ensures
        lamports_shared_count(s) > 0 ==> !lamports_exclusive_ok(s),
        lamports_shared_count(s) == 0 && !lamports_exclusive(s) ==> lamports_exclusive_ok(s),
{
}

/// Shared balance grants saturate at 7, and releasing one makes room.
pub proof fn lemma_lamports_shared_limit(s: u8)
    ensures
        lamports_shared_count(s) == 7 ==> !lamports_shared_ok(s),
        lamports_shared_count(s) < 7 && !lamports_exclusive(s) ==> lamports_shared_ok(s),
        lamports_shared_count(s) == 7 && !lamports_exclusive(s) ==> lamports_shared_ok(
            (s - 16) as u8,
        ),
{
    assert((s >> 4) & 0x07 == 7 && s & 0x80 == 0 ==> s >= 16 && (((s - 16) as u8) >> 4) & 0x07 == 6
        && ((s - 16) as u8) & 0x80 == 0) by (bit_vector);
}

/// A status byte is fully determined by its four components: the two
/// shared counts and the two exclusive flags.
pub proof fn lemma_state_byte_determined(s1: u8, s2: u8)
    requires
        data_shared_count(s1) == data_shared_count(s2),
        data_exclusive(s1) == data_exclusive(s2),
        lamports_shared_count(s1) == lamports_shared_count(s2),
        lamports_exclusive(s1) == lamports_exclusive(s2),
    ensures
        s1 == s2,
{
    assert(s1 & 0x07 == s2 & 0x07 && (s1 & 0x08 != 0) == (s2 & 0x08 != 0) && (s1 >> 4) & 0x07 == (
    s2 >> 4) & 0x07 && (s1 & 0x80 != 0) == (s2 & 0x80 != 0) ==> s1 == s2) by (bit_vector);
}

/// The two resources are independent: a grant on one nibble never blocks
/// a grant on the other.
pub proof fn lemma_resources_independent(s: u8)
    ensures
        data_exclusive_ok(s) <==> data_shared_count(s) == 0 && !data_exclusive(s),
        lamports_exclusive_ok(s) <==> lamports_shared_count(s) == 0 && !lamports_exclusive(s),
{
}

} // verus!
