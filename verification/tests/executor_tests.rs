//! Tests of the executor: admissibility, receipts, gas accounting,
//! rollback, simulation, and nested sends.

use fvm::codec::to_vec_addresses;
use fvm::executor::{ApplyKind, Executor, SystemRejection};
use fvm::machine::{Actor, Instr, Machine};
use fvm::tracer::Event;
use fvm::types::{Address, Cid, ExitCode, Message};

fn addr(payload: u64) -> Address {
    Address { protocol: fvm::types::Protocol::Id, payload }
}

fn actor(address: Address, code: Cid, balance: u128) -> Actor {
    Actor { address, code, state: Cid { value: 0 }, balance, sequence: 0 }
}

/// A machine with a rich sender (id 0, address 1), a receiver running
/// `script` (id 1, address 2), and a bystander (id 2, address 3).
fn machine_with(script: Vec<Instr>) -> Machine {
    let mut m = Machine::new();
    let code = m.register_script(script).unwrap();
    m.add_actor(actor(addr(1), Cid { value: 0 }, 1_000_000));
    m.add_actor(actor(addr(2), code, 0));
    m.add_actor(actor(addr(3), code, 0));
    m
}

fn message(method_num: u64, params: Vec<u8>, gas_limit: u64, value: u128) -> Message {
    Message { from: addr(1), to: addr(2), sequence: 0, value, method_num, params, gas_limit }
}

#[test]
fn constructor_with_enough_gas_updates_state() {
    // a constructor whose code stores its parameters: the call succeeds and
    // the receiver's state identifier now resolves to the stored block
    let m = machine_with(vec![Instr::StatePut { offset: 0, len: 3 }]);
    let mut exec = Executor::new(m, false);
    let msg = message(1, vec![1, 2, 3], 10_000, 0);
    let receipt = exec.execute_message(&msg, ApplyKind::Explicit, 0).unwrap();
    assert_eq!(receipt.exit_code, ExitCode::OK);
    // inclusion 100, then a three-byte store at 20 + 2 per byte
    assert_eq!(receipt.gas_used, 126);
    let receiver = exec.machine.get_actor(1).unwrap();
    assert_eq!(receiver.state, Cid { value: 1 });
    assert_eq!(exec.machine.get_block(receiver.state), Some(vec![1, 2, 3]));
    // the sender paid exactly the consumed gas and advanced its sequence
    let sender = exec.machine.get_actor(0).unwrap();
    assert_eq!(sender.balance, 1_000_000 - 126);
    assert_eq!(sender.sequence, 1);
}

#[test]
fn gas_limit_below_first_operation_is_out_of_gas_uncommitted() {
    // the limit covers inclusion but not the first kernel operation: the
    // receipt reports OutOfGas and no state mutation is committed
    let m = machine_with(vec![Instr::StatePut { offset: 0, len: 3 }]);
    let mut exec = Executor::new(m, false);
    let msg = message(1, vec![1, 2, 3], 105, 0);
    let receipt = exec.execute_message(&msg, ApplyKind::Explicit, 0).unwrap();
    assert_eq!(receipt.exit_code, ExitCode::OutOfGas);
    assert_eq!(receipt.gas_used, 100);
    let receiver = exec.machine.get_actor(1).unwrap();
    assert_eq!(receiver.state, Cid { value: 0 });
    assert_eq!(exec.machine.get_block(Cid { value: 1 }), None);
    let sender = exec.machine.get_actor(0).unwrap();
    assert_eq!(sender.balance, 1_000_000 - 100);
    assert_eq!(sender.sequence, 1);
}

#[test]
fn unauthorized_caller_fails_the_call_without_a_trap() {
    // the receiver validates against a list that does not hold the caller:
    // a call-level Forbidden failure, not OutOfGas and not Fatal
    let list = to_vec_addresses(&vec![addr(99)]).unwrap();
    let len = list.len() as u32;
    let m = machine_with(vec![Instr::ValidateCallerAddrs { offset: 0, len }]);
    let mut exec = Executor::new(m, false);
    let msg = message(1, list, 10_000, 0);
    let receipt = exec.execute_message(&msg, ApplyKind::Explicit, 0).unwrap();
    assert_eq!(receipt.exit_code, ExitCode::Forbidden);
    assert_eq!(receipt.gas_used, 110);
}

#[test]
fn authorized_caller_passes_validation() {
    let list = to_vec_addresses(&vec![addr(99), addr(1)]).unwrap();
    let len = list.len() as u32;
    let m = machine_with(vec![Instr::ValidateCallerAddrs { offset: 0, len }]);
    let mut exec = Executor::new(m, false);
    let msg = message(1, list, 10_000, 0);
    let receipt = exec.execute_message(&msg, ApplyKind::Explicit, 0).unwrap();
    assert_eq!(receipt.exit_code, ExitCode::OK);
}

#[test]
fn simulation_commits_nothing() {
    let m = machine_with(vec![Instr::StatePut { offset: 0, len: 3 }]);
    let mut exec = Executor::new(m, false);
    let msg = message(1, vec![1, 2, 3], 10_000, 0);
    let receipt = exec.execute_message(&msg, ApplyKind::Simulate, 0).unwrap();
    assert_eq!(receipt.exit_code, ExitCode::OK);
    assert_eq!(receipt.gas_used, 126);
    let sender = exec.machine.get_actor(0).unwrap();
    assert_eq!(sender.balance, 1_000_000);
    assert_eq!(sender.sequence, 0);
    let receiver = exec.machine.get_actor(1).unwrap();
    assert_eq!(receiver.state, Cid { value: 0 });
    assert_eq!(exec.machine.get_block(Cid { value: 1 }), None);
}

#[test]
fn bare_send_moves_value() {
    let m = machine_with(Vec::new());
    let mut exec = Executor::new(m, false);
    let msg = message(0, Vec::new(), 10_000, 500);
    let receipt = exec.execute_message(&msg, ApplyKind::Explicit, 0).unwrap();
    assert_eq!(receipt.exit_code, ExitCode::OK);
    assert_eq!(receipt.gas_used, 100);
    assert_eq!(exec.machine.get_actor(0).unwrap().balance, 1_000_000 - 100 - 500);
    assert_eq!(exec.machine.get_actor(1).unwrap().balance, 500);
}

#[test]
fn nested_send_moves_value_onward() {
    let m = machine_with(vec![Instr::Send { to: 2, method: 0, value: 7 }]);
    let mut exec = Executor::new(m, false);
    let msg = message(1, Vec::new(), 10_000, 10);
    let receipt = exec.execute_message(&msg, ApplyKind::Explicit, 0).unwrap();
    assert_eq!(receipt.exit_code, ExitCode::OK);
    assert_eq!(receipt.gas_used, 140);
    assert_eq!(exec.machine.get_actor(1).unwrap().balance, 3);
    assert_eq!(exec.machine.get_actor(2).unwrap().balance, 7);
    assert_eq!(exec.machine.get_actor(0).unwrap().balance, 1_000_000 - 140 - 10);
}

#[test]
fn nested_send_short_of_funds_is_reported_not_fatal() {
    // the nested transfer fails recoverably; the parent call itself still
    // completes, and no value moved
    let m = machine_with(vec![Instr::Send { to: 2, method: 0, value: 999 }]);
    let mut exec = Executor::new(m, false);
    let msg = message(1, Vec::new(), 10_000, 10);
    let receipt = exec.execute_message(&msg, ApplyKind::Explicit, 0).unwrap();
    assert_eq!(receipt.exit_code, ExitCode::OK);
    assert_eq!(receipt.gas_used, 140);
    assert_eq!(exec.machine.get_actor(1).unwrap().balance, 10);
    assert_eq!(exec.machine.get_actor(2).unwrap().balance, 0);
}

#[test]
fn message_value_above_balance_fails_the_call() {
    let m = machine_with(Vec::new());
    let mut exec = Executor::new(m, false);
    let msg = message(0, Vec::new(), 10_000, 10_000_000);
    let receipt = exec.execute_message(&msg, ApplyKind::Explicit, 0).unwrap();
    assert_eq!(receipt.exit_code, ExitCode::InsufficientFunds);
    assert_eq!(exec.machine.get_actor(1).unwrap().balance, 0);
    assert_eq!(exec.machine.get_actor(0).unwrap().balance, 1_000_000 - 100);
}

#[test]
fn rejections_come_in_check_order() {
    let m = machine_with(Vec::new());
    let mut exec = Executor::new(m, false);

    let low = message(0, Vec::new(), 99, 0);
    assert!(matches!(
        exec.execute_message(&low, ApplyKind::Explicit, 0),
        Err(SystemRejection::GasLimitTooLow)
    ));

    let mut unknown_sender = message(0, Vec::new(), 10_000, 0);
    unknown_sender.from = addr(77);
    assert!(matches!(
        exec.execute_message(&unknown_sender, ApplyKind::Explicit, 0),
        Err(SystemRejection::SenderNotFound)
    ));

    let mut stale = message(0, Vec::new(), 10_000, 0);
    stale.sequence = 5;
    assert!(matches!(
        exec.execute_message(&stale, ApplyKind::Explicit, 0),
        Err(SystemRejection::SequenceMismatch)
    ));

    let mut unknown_receiver = message(0, Vec::new(), 10_000, 0);
    unknown_receiver.to = addr(88);
    assert!(matches!(
        exec.execute_message(&unknown_receiver, ApplyKind::Explicit, 0),
        Err(SystemRejection::ReceiverNotFound)
    ));

    // rejections touch nothing
    assert_eq!(exec.machine.get_actor(0).unwrap().balance, 1_000_000);
    assert_eq!(exec.machine.get_actor(0).unwrap().sequence, 0);
}

#[test]
fn poor_sender_cannot_reserve_the_gas_limit() {
    let mut m = Machine::new();
    let code = m.register_script(Vec::new()).unwrap();
    m.add_actor(actor(addr(1), Cid { value: 0 }, 50));
    m.add_actor(actor(addr(2), code, 0));
    let mut exec = Executor::new(m, false);
    let msg = message(0, Vec::new(), 1000, 0);
    assert!(matches!(
        exec.execute_message(&msg, ApplyKind::Explicit, 0),
        Err(SystemRejection::SenderInsufficientFunds)
    ));
}

#[test]
fn receiver_code_that_resolves_to_nothing_is_corrupt_state() {
    let mut m = Machine::new();
    m.add_actor(actor(addr(1), Cid { value: 0 }, 1_000_000));
    m.add_actor(actor(addr(2), Cid { value: 999 }, 0));
    let mut exec = Executor::new(m, false);
    let msg = message(1, Vec::new(), 10_000, 0);
    assert!(matches!(
        exec.execute_message(&msg, ApplyKind::Explicit, 0),
        Err(SystemRejection::StateCorrupt)
    ));
}

#[test]
fn secp_sender_pays_the_signature_surcharge() {
    let secp = Address { protocol: fvm::types::Protocol::Secp256k1, payload: 1 };
    let mut m = Machine::new();
    let code = m.register_script(Vec::new()).unwrap();
    m.add_actor(actor(secp, Cid { value: 0 }, 1_000_000));
    m.add_actor(actor(addr(2), code, 0));
    let mut exec = Executor::new(m, false);
    let mut msg = message(0, Vec::new(), 168, 0);
    msg.from = secp;
    // 100 base + (0 raw + 65 signature + 4 envelope) bytes
    assert!(matches!(
        exec.execute_message(&msg, ApplyKind::Explicit, 0),
        Err(SystemRejection::GasLimitTooLow)
    ));
    msg.gas_limit = 169;
    let receipt = exec.execute_message(&msg, ApplyKind::Explicit, 0).unwrap();
    assert_eq!(receipt.exit_code, ExitCode::OK);
    assert_eq!(receipt.gas_used, 169);
}

#[test]
fn out_of_fuel_is_distinct_from_out_of_gas() {
    // fuel is provisioned from the gas left after inclusion; with a limit
    // of exactly the inclusion cost the runtime starts with no fuel at all
    let m = machine_with(vec![Instr::StatePut { offset: 0, len: 0 }]);
    let mut exec = Executor::new(m, false);
    let msg = message(1, Vec::new(), 100, 0);
    let receipt = exec.execute_message(&msg, ApplyKind::Explicit, 0).unwrap();
    assert_eq!(receipt.exit_code, ExitCode::OutOfFuel);
    assert_eq!(receipt.gas_used, 100);
}

#[test]
fn returned_region_comes_back_as_return_data() {
    let m = machine_with(vec![Instr::Return { offset: 1, len: 2 }]);
    let mut exec = Executor::new(m, false);
    let msg = message(1, vec![9, 8, 7], 10_000, 0);
    let receipt = exec.execute_message(&msg, ApplyKind::Explicit, 0).unwrap();
    assert_eq!(receipt.exit_code, ExitCode::OK);
    assert_eq!(receipt.return_data, vec![8, 7]);
}

#[test]
fn trace_is_append_only_across_messages() {
    let m = machine_with(Vec::new());
    let mut exec = Executor::new(m, true);
    let first = message(0, Vec::new(), 10_000, 1);
    exec.execute_message(&first, ApplyKind::Explicit, 0).unwrap();
    let n1 = exec.trace.spans.len();
    assert!(n1 > 0);
    let first_cum = exec.trace.spans[0].timing.elapsed_cum;
    let mut second = message(0, Vec::new(), 10_000, 1);
    second.sequence = 1;
    exec.execute_message(&second, ApplyKind::Explicit, 0).unwrap();
    assert!(exec.trace.spans.len() > n1);
    assert_eq!(exec.trace.spans[0].timing.elapsed_cum, first_cum);
}

#[test]
fn tracing_records_the_call_in_order() {
    let m = machine_with(vec![Instr::StatePut { offset: 0, len: 1 }]);
    let mut exec = Executor::new(m, true);
    let msg = message(1, vec![5], 10_000, 0);
    let receipt = exec.execute_message(&msg, ApplyKind::Explicit, 0).unwrap();
    assert_eq!(receipt.exit_code, ExitCode::OK);
    let receiver_code = exec.machine.get_actor(1).unwrap().code;
    let spans = exec.finish_trace();
    assert_eq!(spans.len(), 4);
    assert!(matches!(spans[0].point.event, Event::Started));
    assert!(matches!(spans[1].point.event, Event::PreSyscall));
    assert!(matches!(spans[2].point.event, Event::PostSyscall));
    assert!(matches!(spans[3].point.event, Event::Finished));
    for w in spans.windows(2) {
        assert!(w[0].timing.elapsed_cum <= w[1].timing.elapsed_cum);
    }
    // the spans carry the receiver's code and the invoked method
    assert_eq!(spans[1].context.method_num, 1);
    assert_eq!(spans[1].context.code_cid, receiver_code);
}
