//! End-to-end tests against the host wire format: serialization helpers
//! build buffers exactly as the host does, and the tests drive the
//! public API over them.

use nitrate::account_info::AccountInfo;
use nitrate::check_account_count;
use nitrate::input::deserialize;
use nitrate::system::{create_account, create_account_signed, transfer};
use nitrate::ProgramError;

const GROWTH_CEILING: usize = 10240;

struct TestAccount {
    is_signer: bool,
    is_writable: bool,
    executable: bool,
    key: [u8; 32],
    owner: [u8; 32],
    lamports: u64,
    data: Vec<u8>,
}

impl TestAccount {
    fn simple(tag: u8, data: Vec<u8>) -> TestAccount {
        TestAccount {
            is_signer: false,
            is_writable: true,
            executable: false,
            key: [tag; 32],
            owner: [tag.wrapping_add(1); 32],
            lamports: 1000 + tag as u64,
            data,
        }
    }
}

enum Entry {
    Account(TestAccount),
    Duplicate(u8),
}

fn push_account(buf: &mut Vec<u8>, a: &TestAccount) {
    buf.push(255u8); // non-duplicate marker, doubles as the borrow-state byte
    buf.push(a.is_signer as u8);
    buf.push(a.is_writable as u8);
    buf.push(a.executable as u8);
    buf.extend_from_slice(&(a.data.len() as u32).to_le_bytes());
    buf.extend_from_slice(&a.key);
    buf.extend_from_slice(&a.owner);
    buf.extend_from_slice(&a.lamports.to_le_bytes());
    buf.extend_from_slice(&(a.data.len() as u64).to_le_bytes());
    buf.extend_from_slice(&a.data);
    for _ in 0..GROWTH_CEILING {
        buf.push(0u8);
    }
    while buf.len() % 16 != 0 {
        buf.push(0u8);
    }
    buf.extend_from_slice(&0u64.to_le_bytes()); // reserved trailing field
}

fn build_input(entries: &[Entry], payload: &[u8], program_id: [u8; 32]) -> Vec<u8> {
    let mut buf: Vec<u8> = Vec::new();
    buf.extend_from_slice(&(entries.len() as u64).to_le_bytes());
    for e in entries {
        match e {
            Entry::Account(a) => push_account(&mut buf, a),
            Entry::Duplicate(idx) => {
                buf.push(*idx);
                buf.extend_from_slice(&[0u8; 7]);
            }
        }
    }
    buf.extend_from_slice(&(payload.len() as u64).to_le_bytes());
    buf.extend_from_slice(payload);
    buf.extend_from_slice(&program_id);
    buf
}

#[test]
fn deserialize_two_accounts_in_order() {
    let a = TestAccount::simple(1, vec![10, 11, 12]);
    let b = TestAccount {
        is_signer: true,
        is_writable: false,
        executable: true,
        key: [5; 32],
        owner: [6; 32],
        lamports: 777,
        data: vec![],
    };
    let input = build_input(
        &[Entry::Account(a), Entry::Account(b)],
        &[9, 8, 7],
        [42; 32],
    );
    let d = deserialize(input, 4);
    assert_eq!(d.accounts.len(), 2);
    let h0 = d.accounts[0];
    let h1 = d.accounts[1];
    assert_eq!(h0.record_offset(), 8);
    assert_eq!(h0.key(&d.buffer), &[1u8; 32][..]);
    assert_eq!(h0.owner(&d.buffer), &[2u8; 32][..]);
    assert!(!h0.is_signer(&d.buffer));
    assert!(h0.is_writable(&d.buffer));
    assert!(!h0.executable(&d.buffer));
    assert_eq!(h0.data_len(&d.buffer), 3);
    assert!(!h0.data_is_empty(&d.buffer));
    assert_eq!(h0.unchecked_borrow_lamports(&d.buffer), 1001);
    assert_eq!(h0.unchecked_borrow_data(&d.buffer), &[10u8, 11, 12][..]);
    assert_eq!(h1.key(&d.buffer), &[5u8; 32][..]);
    assert_eq!(h1.owner(&d.buffer), &[6u8; 32][..]);
    assert!(h1.is_signer(&d.buffer));
    assert!(!h1.is_writable(&d.buffer));
    assert!(h1.executable(&d.buffer));
    assert!(h1.data_is_empty(&d.buffer));
    assert_eq!(h1.unchecked_borrow_lamports(&d.buffer), 777);
    assert_eq!(d.instruction_data, vec![9, 8, 7]);
    assert_eq!(d.program_id, vec![42u8; 32]);
}

#[test]
fn deserialize_zero_accounts() {
    let input = build_input(&[], &[1, 2, 3, 4], [9; 32]);
    let d = deserialize(input, 4);
    assert_eq!(d.accounts.len(), 0);
    assert_eq!(d.instruction_data, vec![1, 2, 3, 4]);
    assert_eq!(d.program_id, vec![9u8; 32]);
}

#[test]
fn deserialize_truncates_to_declared_maximum() {
    let input = build_input(
        &[
            Entry::Account(TestAccount::simple(1, vec![1])),
            Entry::Account(TestAccount::simple(2, vec![2, 2])),
            Entry::Account(TestAccount::simple(3, vec![3, 3, 3])),
        ],
        &[55],
        [7; 32],
    );
    let d = deserialize(input, 1);
    assert_eq!(d.accounts.len(), 1);
    assert_eq!(d.accounts[0].key(&d.buffer), &[1u8; 32][..]);
    // the excess accounts must not desynchronize the payload offset
    assert_eq!(d.instruction_data, vec![55]);
    assert_eq!(d.program_id, vec![7u8; 32]);
}

#[test]
fn duplicate_slot_aliases_first_occurrence() {
    let input = build_input(
        &[
            Entry::Account(TestAccount::simple(1, vec![3, 1, 4])),
            Entry::Duplicate(0),
        ],
        &[],
        [0; 32],
    );
    let mut d = deserialize(input, 4);
    assert_eq!(d.accounts.len(), 2);
    let h0 = d.accounts[0];
    let h1 = d.accounts[1];
    assert_eq!(h0, h1);
    assert_eq!(h0.record_offset(), h1.record_offset());
    // a write through one handle is visible through the other
    let g = h1.try_borrow_mut_lamports(&mut d.buffer).unwrap();
    g.set_lamports(&mut d.buffer, 123456);
    g.release(&mut d.buffer);
    assert_eq!(h0.unchecked_borrow_lamports(&d.buffer), 123456);
    // aliased handles share one grant byte: a guard taken through one
    // blocks a conflicting guard through the other
    let g0 = h0.try_borrow_mut_data(&mut d.buffer).unwrap();
    assert!(matches!(
        h1.try_borrow_mut_data(&mut d.buffer),
        Err(ProgramError::BorrowConflict)
    ));
    g0.release(&mut d.buffer);
}

#[test]
fn exclusive_data_blocked_while_shared_outstanding() {
    let input = build_input(
        &[Entry::Account(TestAccount::simple(1, vec![1, 2]))],
        &[],
        [0; 32],
    );
    let mut d = deserialize(input, 1);
    let h = d.accounts[0];
    let g1 = h.try_borrow_data(&mut d.buffer).unwrap();
    assert_eq!(g1.data(&d.buffer), &[1u8, 2][..]);
    let g2 = h.try_borrow_data(&mut d.buffer).unwrap();
    assert!(matches!(
        h.try_borrow_mut_data(&mut d.buffer),
        Err(ProgramError::BorrowConflict)
    ));
    g1.release(&mut d.buffer);
    assert!(matches!(
        h.try_borrow_mut_data(&mut d.buffer),
        Err(ProgramError::BorrowConflict)
    ));
    g2.release(&mut d.buffer);
    let gm = h.try_borrow_mut_data(&mut d.buffer).unwrap();
    gm.release(&mut d.buffer);
}

#[test]
fn shared_guards_saturate_at_seven() {
    let input = build_input(
        &[Entry::Account(TestAccount::simple(1, vec![0]))],
        &[],
        [0; 32],
    );
    let mut d = deserialize(input, 1);
    let h = d.accounts[0];
    let mut guards = Vec::new();
    for _ in 0..7 {
        guards.push(h.try_borrow_data(&mut d.buffer).unwrap());
    }
    assert!(matches!(
        h.try_borrow_data(&mut d.buffer),
        Err(ProgramError::BorrowConflict)
    ));
    let g = guards.pop().unwrap();
    g.release(&mut d.buffer);
    let g8 = h.try_borrow_data(&mut d.buffer).unwrap();
    g8.release(&mut d.buffer);
    for g in guards {
        g.release(&mut d.buffer);
    }
}

#[test]
fn shared_lamport_guards_saturate_at_seven() {
    let input = build_input(
        &[Entry::Account(TestAccount::simple(1, vec![]))],
        &[],
        [0; 32],
    );
    let mut d = deserialize(input, 1);
    let h = d.accounts[0];
    let mut guards = Vec::new();
    for _ in 0..7 {
        guards.push(h.try_borrow_lamports(&mut d.buffer).unwrap());
    }
    assert_eq!(guards[0].lamports(&d.buffer), 1001);
    assert!(matches!(
        h.try_borrow_lamports(&mut d.buffer),
        Err(ProgramError::BorrowConflict)
    ));
    for g in guards {
        g.release(&mut d.buffer);
    }
    let gm = h.try_borrow_mut_lamports(&mut d.buffer).unwrap();
    gm.release(&mut d.buffer);
}

#[test]
fn resources_are_independent() {
    let input = build_input(
        &[Entry::Account(TestAccount::simple(1, vec![1]))],
        &[],
        [0; 32],
    );
    let mut d = deserialize(input, 1);
    let h = d.accounts[0];
    // an exclusive data grant does not block balance grants
    let gd = h.try_borrow_mut_data(&mut d.buffer).unwrap();
    let gl = h.try_borrow_mut_lamports(&mut d.buffer).unwrap();
    gl.release(&mut d.buffer);
    gd.release(&mut d.buffer);
}

#[test]
fn assign_overwrites_owner() {
    let input = build_input(
        &[Entry::Account(TestAccount::simple(1, vec![1]))],
        &[],
        [0; 32],
    );
    let mut d = deserialize(input, 1);
    let h = d.accounts[0];
    h.assign(&mut d.buffer, &[77u8; 32]);
    assert_eq!(h.owner(&d.buffer), &[77u8; 32][..]);
    // the rest of the record is untouched
    assert_eq!(h.key(&d.buffer), &[1u8; 32][..]);
    assert_eq!(h.unchecked_borrow_lamports(&d.buffer), 1001);
    assert_eq!(h.unchecked_borrow_data(&d.buffer), &[1u8][..]);
}

#[test]
fn realloc_beyond_ceiling_fails_and_changes_nothing() {
    let input = build_input(
        &[Entry::Account(TestAccount::simple(1, vec![1, 2, 3, 4]))],
        &[],
        [0; 32],
    );
    let mut d = deserialize(input, 1);
    let h = d.accounts[0];
    let too_large = 4 + GROWTH_CEILING + 1;
    assert!(matches!(
        h.realloc(&mut d.buffer, too_large, false),
        Err(ProgramError::ReallocTooLarge)
    ));
    assert_eq!(h.data_len(&d.buffer), 4);
    assert_eq!(h.unchecked_borrow_data(&d.buffer), &[1u8, 2, 3, 4][..]);
}

#[test]
fn realloc_within_ceiling_updates_length() {
    let input = build_input(
        &[Entry::Account(TestAccount::simple(1, vec![1, 2, 3, 4]))],
        &[],
        [0; 32],
    );
    let mut d = deserialize(input, 1);
    let h = d.accounts[0];
    assert!(h.realloc(&mut d.buffer, 4 + GROWTH_CEILING, false).is_ok());
    assert_eq!(h.data_len(&d.buffer), 4 + GROWTH_CEILING);
    // the host zeroed the growth reserve at invocation start
    let data = h.unchecked_borrow_data(&d.buffer);
    assert_eq!(&data[..4], &[1u8, 2, 3, 4][..]);
    assert!(data[4..].iter().all(|b| *b == 0));
    // shrink also updates the length
    assert!(h.realloc(&mut d.buffer, 2, false).is_ok());
    assert_eq!(h.data_len(&d.buffer), 2);
    // a no-op-length call succeeds untouched
    assert!(h.realloc(&mut d.buffer, 2, false).is_ok());
    assert_eq!(h.data_len(&d.buffer), 2);
}

#[test]
fn realloc_zero_fills_exactly_the_newly_exposed_range() {
    let input = build_input(
        &[Entry::Account(TestAccount::simple(1, vec![1, 2, 3, 4]))],
        &[],
        [0; 32],
    );
    let mut d = deserialize(input, 1);
    let h = d.accounts[0];
    // grow and dirty the region beyond the original length
    assert!(h.realloc(&mut d.buffer, 6, false).is_ok());
    let g = h.try_borrow_mut_data(&mut d.buffer).unwrap();
    g.set_data_byte(&mut d.buffer, 4, 9);
    g.set_data_byte(&mut d.buffer, 5, 9);
    g.release(&mut d.buffer);
    // shrink, then regrow without zeroing: the stale bytes reappear
    assert!(h.realloc(&mut d.buffer, 2, false).is_ok());
    assert!(h.realloc(&mut d.buffer, 6, false).is_ok());
    assert_eq!(h.unchecked_borrow_data(&d.buffer), &[1u8, 2, 3, 4, 9, 9][..]);
    // shrink, then regrow with zeroing: exactly the range beyond the
    // original length is cleared
    assert!(h.realloc(&mut d.buffer, 2, false).is_ok());
    assert!(h.realloc(&mut d.buffer, 6, true).is_ok());
    assert_eq!(h.unchecked_borrow_data(&d.buffer), &[1u8, 2, 3, 4, 0, 0][..]);
}

#[test]
fn realloc_fails_while_data_is_borrowed() {
    let input = build_input(
        &[Entry::Account(TestAccount::simple(1, vec![1]))],
        &[],
        [0; 32],
    );
    let mut d = deserialize(input, 1);
    let h = d.accounts[0];
    let g = h.try_borrow_data(&mut d.buffer).unwrap();
    assert!(matches!(
        h.realloc(&mut d.buffer, 3, false),
        Err(ProgramError::BorrowConflict)
    ));
    g.release(&mut d.buffer);
    assert!(h.realloc(&mut d.buffer, 3, false).is_ok());
}

#[test]
fn create_account_builder_marshals_the_exact_call() {
    let funder = TestAccount {
        is_signer: true,
        is_writable: true,
        executable: false,
        key: [1; 32],
        owner: [0; 32],
        lamports: 5_000_000,
        data: vec![],
    };
    // the new account has not signed the transaction
    let fresh = TestAccount {
        is_signer: false,
        is_writable: true,
        executable: false,
        key: [2; 32],
        owner: [0; 32],
        lamports: 0,
        data: vec![],
    };
    let input = build_input(
        &[Entry::Account(funder), Entry::Account(fresh)],
        &[],
        [3; 32],
    );
    let d = deserialize(input, 2);
    let a = d.accounts[0];
    let b = d.accounts[1];
    let lamports = 1_500_000u64;
    let space = 165u64;
    let owner = [7u8; 32];
    let call = create_account(&d.buffer, &a, &b, lamports, space, &owner);
    let ins = &call.instruction;
    assert_eq!(ins.program_id, vec![0u8; 32]);
    assert_eq!(ins.data.len(), 52);
    assert_eq!(ins.data_len, 52);
    assert_eq!(&ins.data[0..4], &[0u8; 4][..]);
    assert_eq!(&ins.data[4..12], &lamports.to_le_bytes()[..]);
    assert_eq!(&ins.data[12..20], &space.to_le_bytes()[..]);
    assert_eq!(&ins.data[20..52], &owner[..]);
    assert_eq!(ins.accounts.len(), 2);
    assert_eq!(ins.accounts_len, 2);
    assert_eq!(ins.accounts[0].pubkey, a.record_offset() + 8);
    assert!(ins.accounts[0].is_signer);
    assert!(ins.accounts[0].is_writable);
    assert_eq!(ins.accounts[1].pubkey, b.record_offset() + 8);
    // the created account signs the call regardless of its own flag
    assert!(ins.accounts[1].is_signer);
    assert!(ins.accounts[1].is_writable);
    assert_eq!(call.account_infos.len(), 2);
    assert_eq!(call.account_infos[0].key, a.record_offset() + 8);
    assert_eq!(call.account_infos[0].lamports, a.record_offset() + 72);
    assert_eq!(call.account_infos[0].owner, a.record_offset() + 40);
    assert_eq!(call.account_infos[0].data, a.record_offset() + 88);
    assert_eq!(call.account_infos[0].data_len, 0);
    assert_eq!(call.account_infos[0].rent_epoch, 0);
    assert!(call.account_infos[0].is_signer);
    // the snapshot keeps the serialized flag; only the access
    // descriptor forces the signer bit
    assert!(!call.account_infos[1].is_signer);
    assert_eq!(call.signers.len(), 0);
}

#[test]
fn create_account_signed_groups_the_seeds() {
    let input = build_input(
        &[
            Entry::Account(TestAccount::simple(1, vec![])),
            Entry::Account(TestAccount::simple(2, vec![])),
        ],
        &[],
        [0; 32],
    );
    let d = deserialize(input, 2);
    let seeds = vec![vec![1u8, 2, 3], vec![4u8]];
    let call = create_account_signed(
        &d.buffer,
        &d.accounts[0],
        &d.accounts[1],
        10,
        20,
        &[9u8; 32],
        &seeds,
    );
    assert_eq!(call.signers.len(), 1);
    assert_eq!(call.signers[0].len, 2);
    assert_eq!(call.signers[0].seeds.len(), 2);
    assert_eq!(call.signers[0].seeds[0].seed, vec![1u8, 2, 3]);
    assert_eq!(call.signers[0].seeds[0].len, 3);
    assert_eq!(call.signers[0].seeds[1].seed, vec![4u8]);
    assert_eq!(call.signers[0].seeds[1].len, 1);
}

#[test]
fn transfer_builder_marshals_the_exact_call() {
    let input = build_input(
        &[
            Entry::Account(TestAccount::simple(1, vec![])),
            Entry::Account(TestAccount::simple(2, vec![])),
        ],
        &[],
        [0; 32],
    );
    let d = deserialize(input, 2);
    let amount = 987_654_321u64;
    let call = transfer(&d.buffer, &d.accounts[0], &d.accounts[1], amount);
    let ins = &call.instruction;
    assert_eq!(ins.program_id, vec![0u8; 32]);
    assert_eq!(ins.data.len(), 12);
    assert_eq!(ins.data_len, 12);
    assert_eq!(ins.data[0], 2);
    assert_eq!(&ins.data[1..4], &[0u8; 3][..]);
    assert_eq!(&ins.data[4..12], &amount.to_le_bytes()[..]);
    assert_eq!(ins.accounts.len(), 2);
    assert_eq!(ins.accounts[0].pubkey, d.accounts[0].record_offset() + 8);
    assert_eq!(ins.accounts[1].pubkey, d.accounts[1].record_offset() + 8);
    assert_eq!(call.account_infos.len(), 2);
    assert_eq!(call.signers.len(), 0);
}

#[test]
fn check_account_count_reports_missing_accounts() {
    assert!(check_account_count(3, 2).is_ok());
    assert!(check_account_count(2, 2).is_ok());
    assert!(matches!(
        check_account_count(1, 2),
        Err(ProgramError::NotEnoughAccountKeys)
    ));
}

#[test]
fn handles_are_plain_copies() {
    let input = build_input(
        &[Entry::Account(TestAccount::simple(1, vec![]))],
        &[],
        [0; 32],
    );
    let d = deserialize(input, 1);
    let h: AccountInfo = d.accounts[0];
    let h2 = h;
    assert_eq!(h, h2);
}
