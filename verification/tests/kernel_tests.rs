//! Tests of kernel capabilities: state read and write, gas introspection,
//! and charge-before-effect ordering.

use fvm::gas::GasLedger;
use fvm::kernel::{CallValidation, Kernel, GAS_BLOCK_GET, GAS_BLOCK_PUT_BASE,
    GAS_BLOCK_PUT_PER_BYTE};
use fvm::machine::{Actor, Machine};
use fvm::types::{Address, Cid, KernelError, Protocol};

fn test_kernel(gas: u64) -> Kernel {
    let mut machine = Machine::new();
    machine.add_actor(Actor {
        address: Address { protocol: Protocol::Id, payload: 2 },
        code: Cid { value: 0 },
        state: Cid { value: 0 },
        balance: 0,
        sequence: 0,
    });
    Kernel {
        machine,
        ledger: GasLedger::new(gas),
        caller: Address { protocol: Protocol::Id, payload: 1 },
        caller_code: Cid { value: 0 },
        actor_id: 0,
        validation: CallValidation::Unvalidated,
    }
}

#[test]
fn state_round_trips_through_put_and_get() {
    let mut k = test_kernel(1000);
    let c = k.state_put(vec![4, 5, 6]).unwrap();
    assert_eq!(c, Cid { value: 1 });
    assert_eq!(k.machine.get_actor(0).unwrap().state, c);
    assert_eq!(k.state_get(), Ok(vec![4, 5, 6]));
    let spent = GAS_BLOCK_PUT_BASE + 3 * GAS_BLOCK_PUT_PER_BYTE + GAS_BLOCK_GET;
    assert_eq!(k.gas_available(), 1000 - spent);
}

#[test]
fn unset_state_reads_as_not_found() {
    let mut k = test_kernel(1000);
    assert_eq!(k.state_get(), Err(KernelError::NotFound));
    // the charge still happened: gas before effect
    assert_eq!(k.gas_available(), 1000 - GAS_BLOCK_GET);
}

#[test]
fn charge_failure_prevents_the_effect() {
    // the store costs 20 base + 2 per byte; one short of that leaves the
    // tree and the blockstore untouched
    let mut k = test_kernel(GAS_BLOCK_PUT_BASE + 2 - 1);
    assert_eq!(k.state_put(vec![9]), Err(KernelError::OutOfGas));
    assert_eq!(k.gas_available(), GAS_BLOCK_PUT_BASE + 1);
    assert_eq!(k.machine.get_actor(0).unwrap().state, Cid { value: 0 });
    assert_eq!(k.machine.get_block(Cid { value: 1 }), None);
}

#[test]
fn state_get_without_gas_is_out_of_gas() {
    let mut k = test_kernel(GAS_BLOCK_GET - 1);
    assert_eq!(k.state_get(), Err(KernelError::OutOfGas));
    assert_eq!(k.gas_available(), GAS_BLOCK_GET - 1);
}
