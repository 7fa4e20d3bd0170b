//! Tests of the syscall boundary: memory bounds, caller validation, and
//! the catchable-versus-trap policy.

use fvm::codec::{to_vec_addresses, to_vec_cids};
use fvm::gas::GasLedger;
use fvm::kernel::{CallValidation, Kernel, GAS_VALIDATE_CALLER};
use fvm::machine::{Actor, Machine};
use fvm::syscalls::{validate_immediate_caller_accept_any, validate_immediate_caller_addr_one_of,
    validate_immediate_caller_type_one_of, ErrorNumber, Memory, SyscallFailure};
use fvm::types::{Address, Cid, Protocol};

fn addr(payload: u64) -> Address {
    Address { protocol: Protocol::Id, payload }
}

fn test_kernel(gas: u64) -> Kernel {
    let mut machine = Machine::new();
    machine.add_actor(Actor {
        address: addr(2),
        code: Cid { value: 0 },
        state: Cid { value: 0 },
        balance: 0,
        sequence: 0,
    });
    Kernel {
        machine,
        ledger: GasLedger::new(gas),
        caller: addr(1),
        caller_code: Cid { value: 8 },
        actor_id: 0,
        validation: CallValidation::Unvalidated,
    }
}

#[test]
fn out_of_bounds_region_is_illegal_argument_not_a_trap() {
    let mut k = test_kernel(1000);
    let memory = Memory { data: vec![0u8; 4] };
    let r = validate_immediate_caller_addr_one_of(&mut k, &memory, 2, 3);
    assert_eq!(r, Err(SyscallFailure::Recoverable(ErrorNumber::IllegalArgument)));
    // nothing was charged and the one-shot slot is untouched
    assert_eq!(k.ledger.remaining, 1000);
    assert_eq!(k.validation, CallValidation::Unvalidated);
}

#[test]
fn offset_overflowing_region_is_illegal_argument() {
    let mut k = test_kernel(1000);
    let memory = Memory { data: vec![0u8; 4] };
    let r = validate_immediate_caller_type_one_of(&mut k, &memory, u32::MAX, u32::MAX);
    assert_eq!(r, Err(SyscallFailure::Recoverable(ErrorNumber::IllegalArgument)));
}

#[test]
fn malformed_list_is_illegal_argument() {
    let mut k = test_kernel(1000);
    let memory = Memory { data: vec![0xff, 0x00, 0x17] };
    let r = validate_immediate_caller_addr_one_of(&mut k, &memory, 0, 3);
    assert_eq!(r, Err(SyscallFailure::Recoverable(ErrorNumber::IllegalArgument)));
}

#[test]
fn caller_not_in_list_is_forbidden_not_a_trap() {
    let mut k = test_kernel(1000);
    let bytes = to_vec_addresses(&vec![addr(50), addr(60)]).unwrap();
    let len = bytes.len() as u32;
    let memory = Memory { data: bytes };
    let r = validate_immediate_caller_addr_one_of(&mut k, &memory, 0, len);
    assert_eq!(r, Err(SyscallFailure::Recoverable(ErrorNumber::Forbidden)));
    // the gas was charged before the check; the slot was not consumed
    assert_eq!(k.ledger.remaining, 1000 - GAS_VALIDATE_CALLER);
    assert_eq!(k.validation, CallValidation::Unvalidated);
}

#[test]
fn caller_in_list_validates_once() {
    let mut k = test_kernel(1000);
    let bytes = to_vec_addresses(&vec![addr(9), addr(1)]).unwrap();
    let len = bytes.len() as u32;
    let memory = Memory { data: bytes };
    assert_eq!(validate_immediate_caller_addr_one_of(&mut k, &memory, 0, len), Ok(()));
    assert_eq!(k.validation, CallValidation::Validated);
}

#[test]
fn caller_type_in_list_validates() {
    let mut k = test_kernel(1000);
    let bytes = to_vec_cids(&vec![Cid { value: 8 }]).unwrap();
    let len = bytes.len() as u32;
    let memory = Memory { data: bytes };
    assert_eq!(validate_immediate_caller_type_one_of(&mut k, &memory, 0, len), Ok(()));
    assert_eq!(k.validation, CallValidation::Validated);
}

#[test]
fn second_validation_fails_whatever_the_variant() {
    // the one-shot slot: a successful accept-any makes every later
    // validate operation fail, list contents notwithstanding
    let mut k = test_kernel(1000);
    assert_eq!(validate_immediate_caller_accept_any(&mut k), Ok(()));
    assert_eq!(k.validation, CallValidation::Validated);

    let bytes = to_vec_addresses(&vec![addr(1)]).unwrap();
    let len = bytes.len() as u32;
    let memory = Memory { data: bytes };
    let r = validate_immediate_caller_addr_one_of(&mut k, &memory, 0, len);
    assert_eq!(r, Err(SyscallFailure::Recoverable(ErrorNumber::Forbidden)));

    let r2 = validate_immediate_caller_accept_any(&mut k);
    assert_eq!(r2, Err(SyscallFailure::Recoverable(ErrorNumber::Forbidden)));

    let cid_bytes = to_vec_cids(&vec![Cid { value: 8 }]).unwrap();
    let cid_len = cid_bytes.len() as u32;
    let cid_memory = Memory { data: cid_bytes };
    let r3 = validate_immediate_caller_type_one_of(&mut k, &cid_memory, 0, cid_len);
    assert_eq!(r3, Err(SyscallFailure::Recoverable(ErrorNumber::Forbidden)));
}

#[test]
fn validation_without_gas_traps_out_of_gas() {
    let mut k = test_kernel(GAS_VALIDATE_CALLER - 1);
    let r = validate_immediate_caller_accept_any(&mut k);
    assert_eq!(r, Err(SyscallFailure::Trap(fvm::types::ExitCode::OutOfGas)));
    assert_eq!(k.validation, CallValidation::Unvalidated);
}

#[test]
fn try_slice_reads_exact_region() {
    let memory = Memory { data: vec![10, 11, 12, 13, 14] };
    assert_eq!(memory.try_slice(1, 3), Some(vec![11, 12, 13]));
    assert_eq!(memory.try_slice(0, 5), Some(vec![10, 11, 12, 13, 14]));
    assert_eq!(memory.try_slice(5, 0), Some(Vec::new()));
    assert_eq!(memory.try_slice(4, 2), None);
    assert_eq!(memory.try_slice(6, 0), None);
}
