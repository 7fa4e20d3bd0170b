//! The executor: the top-level entry point that applies one message.  It
//! admits or rejects the message, reserves the declared gas limit from the
//! sender pessimistically, constructs a kernel scoped to the limit, drives
//! the sandboxed call, rolls failed calls back, refunds unused gas and
//! burns the rest, and always produces a receipt for an admitted message.
//!
//! The sandbox runtime collaborator is driven here as well: compiled actor
//! code is a sequence of host interactions, and running it means making
//! those syscalls in order against the kernel while burning fuel, one unit
//! per step.  Gas and fuel are independent budgets: either can run out
//! first, ending the call with OutOfGas or OutOfFuel respectively.

use vstd::prelude::*;

use crate::codec::{spec_decode_addresses, spec_decode_cids};
use crate::gas::GasLedger;
use crate::kernel::{CallValidation, Kernel, GAS_SEND_BASE, GAS_VALIDATE_CALLER};
use crate::machine::{copy_vec, rollback_blocks, Actor, Instr, Machine};
use crate::syscalls::{classify, exit_code_of, spec_classify, spec_exit_code_of,
    validate_immediate_caller_accept_any, validate_immediate_caller_addr_one_of,
    validate_immediate_caller_type_one_of, ErrorNumber, Memory, SyscallFailure};
use crate::tracer::{Consumption, Context, Event, GasSpan, GasTrace, Point};
use crate::types::{Address, Cid, ExitCode, KernelError, Message, Receipt, METHOD_SEND,
    SECP_SIG_ENVELOPE, SECP_SIG_LEN};

verus! {

/// Base gas price of including a message on chain.
pub const GAS_MESSAGE_INCLUSION_BASE: u64 = 100;

/// Gas price per byte of the message as received, envelope included.
pub const GAS_MESSAGE_INCLUSION_PER_BYTE: u64 = 1;

/// How a message application is meant: a real chain application that
/// commits state, or a simulation that must commit nothing and charge
/// nobody.
#[derive(Clone, Copy, PartialEq, Eq, Structural, Debug)]
pub enum ApplyKind {
    /// Commit state changes of successful calls and the sender's gas and
    /// sequence accounting.
    Explicit,
    /// Compute the receipt, then restore the state untouched.
    Simulate,
}

/// Why a message was rejected before any call executed.  A rejection is a
/// system-level refusal of the whole application, distinct from a receipt
/// whose exit code reports a failed call.
#[derive(Clone, Copy, PartialEq, Eq, Structural, Debug)]
pub enum SystemRejection {
    /// The declared gas limit cannot even cover the inclusion cost.
    GasLimitTooLow,
    /// No actor holds the sender address.
    SenderNotFound,
    /// The message's sequence number is not the sender's next.
    SequenceMismatch,
    /// The sender's balance cannot cover the declared gas limit.
    SenderInsufficientFunds,
    /// No actor holds the receiver address.
    ReceiverNotFound,
    /// The tree's bookkeeping is corrupt: a sequence counter is exhausted
    /// or the receiver's code identifier resolves to no code.
    StateCorrupt,
}

/// The chargeable size of a message: the raw size, plus the signature
/// envelope a secp256k1 sender's message carries on the wire.
pub open spec fn spec_surcharged_bytes(from: Address, raw_length: usize) -> int {
    raw_length + if from.protocol is Secp256k1 {
        SECP_SIG_LEN + SECP_SIG_ENVELOPE
    } else {
        0
    }
}

/// The gas cost of including a message, charged before the call runs.
pub open spec fn spec_inclusion_cost(from: Address, raw_length: usize) -> int {
    GAS_MESSAGE_INCLUSION_BASE + spec_surcharged_bytes(from, raw_length)
        * GAS_MESSAGE_INCLUSION_PER_BYTE
}

/// The admissibility of a message against a machine: `None` when the
/// executor owes a receipt, otherwise the first rejection in check order.
pub open spec fn spec_admissibility(m: Machine, msg: Message, raw_length: usize) -> Option<
    SystemRejection,
> {
    if spec_inclusion_cost(msg.from, raw_length) > msg.gas_limit {
        Some(SystemRejection::GasLimitTooLow)
    } else {
        match m.spec_find_by_address(msg.from) {
            None => Some(SystemRejection::SenderNotFound),
            Some(fid) => {
                let sender = m.actors@[fid as int];
                if msg.sequence != sender.sequence {
                    Some(SystemRejection::SequenceMismatch)
                } else if sender.sequence == u64::MAX {
                    Some(SystemRejection::StateCorrupt)
                } else if sender.balance < msg.gas_limit {
                    Some(SystemRejection::SenderInsufficientFunds)
                } else {
                    match m.spec_find_by_address(msg.to) {
                        None => Some(SystemRejection::ReceiverNotFound),
                        Some(tid) => {
                            if msg.method_num != METHOD_SEND && m.script_of(
                                m.actors@[tid as int].code,
                            ) is None {
                                Some(SystemRejection::StateCorrupt)
                            } else {
                                None
                            }
                        },
                    }
                }
            },
        }
    }
}

/// The view of one kernel: the plain values the runtime model computes
/// over.
#[verifier::ext_equal]
pub struct RunState {
    pub actors: Seq<Actor>,
    pub blocks: Seq<Seq<u8>>,
    pub scripts: Seq<Seq<Instr>>,
    pub limit: u64,
    pub remaining: u64,
    pub caller: Address,
    pub caller_code: Cid,
    pub actor_id: u64,
    pub validation: CallValidation,
}

/// The blockstore as plain byte strings.
pub open spec fn blocks_view(blocks: Seq<Vec<u8>>) -> Seq<Seq<u8>> {
    blocks.map_values(|b: Vec<u8>| b@)
}

/// The code registry as plain instruction sequences.
pub open spec fn scripts_view(scripts: Seq<Vec<Instr>>) -> Seq<Seq<Instr>> {
    scripts.map_values(|s: Vec<Instr>| s@)
}

/// The view of a kernel.
pub open spec fn run_state(k: Kernel) -> RunState {
    RunState {
        actors: k.machine.actors@,
        blocks: blocks_view(k.machine.blocks@),
        scripts: scripts_view(k.machine.scripts@),
        limit: k.ledger.limit,
        remaining: k.ledger.remaining,
        caller: k.caller,
        caller_code: k.caller_code,
        actor_id: k.actor_id,
        validation: k.validation,
    }
}

/// A caller-validation operation over the view: charge, then consume the
/// one-shot slot if the caller is authorized.
pub open spec fn spec_validate_rs(s: RunState, authorized: bool) -> (RunState, Result<
    (),
    KernelError,
>) {
    if GAS_VALIDATE_CALLER > s.remaining {
        (s, Err(KernelError::OutOfGas))
    } else {
        let charged = RunState { remaining: (s.remaining - GAS_VALIDATE_CALLER) as u64, ..s };
        if s.validation is Validated {
            (charged, Err(KernelError::Forbidden))
        } else if authorized {
            (RunState { validation: CallValidation::Validated, ..charged }, Ok(()))
        } else {
            (charged, Err(KernelError::Forbidden))
        }
    }
}

/// Whether an (offset, length) pair denotes a region inside a memory.
pub open spec fn region_in_bounds(mem: Seq<u8>, offset: u32, len: u32) -> bool {
    offset + len <= mem.len()
}

/// The bytes an in-bounds region denotes.
pub open spec fn region_bytes(mem: Seq<u8>, offset: u32, len: u32) -> Seq<u8> {
    mem.subrange(offset as int, offset as int + len as int)
}

/// What one run of the modeled sandbox runtime produces: the call's exit
/// code and returned bytes, the state afterwards, and the fuel left.
#[verifier::ext_equal]
pub struct RunOutcome {
    pub exit: ExitCode,
    pub ret: Seq<u8>,
    pub state: RunState,
    pub fuel: u64,
}

/// The sandbox runtime's semantics, as a value: run the script's host
/// interactions in order, burning one unit of fuel per step, charging gas
/// before each effect, validating and decoding each memory region, and
/// entering callees with a fresh frame on the shared budgets.  The model
/// is deterministic: everything the result depends on is an argument.
#[verifier::opaque]
pub open spec fn spec_invoke(s: RunState, script: Seq<Instr>, mem: Seq<u8>, fuel: u64) -> RunOutcome
    decreases fuel, 0int,
{
    if script.len() == 0 {
        RunOutcome { exit: ExitCode::OK, ret: Seq::empty(), state: s, fuel }
    } else if fuel == 0 {
        RunOutcome { exit: ExitCode::OutOfFuel, ret: Seq::empty(), state: s, fuel }
    } else {
        let fuel1 = (fuel - 1) as u64;
        let rest = script.drop_first();
        match script[0] {
            Instr::ValidateAcceptAny => spec_after_validate(s, true, rest, mem, fuel1),
            Instr::ValidateCallerAddrs { offset, len } => {
                if !region_in_bounds(mem, offset, len) {
                    spec_exit(ExitCode::IllegalArgument, s, fuel1)
                } else {
                    match spec_decode_addresses(region_bytes(mem, offset, len)) {
                        None => spec_exit(ExitCode::IllegalArgument, s, fuel1),
                        Some(addrs) => spec_after_validate(
                            s,
                            addrs.contains(s.caller),
                            rest,
                            mem,
                            fuel1,
                        ),
                    }
                }
            },
            Instr::ValidateCallerTypes { offset, len } => {
                if !region_in_bounds(mem, offset, len) {
                    spec_exit(ExitCode::IllegalArgument, s, fuel1)
                } else {
                    match spec_decode_cids(region_bytes(mem, offset, len)) {
                        None => spec_exit(ExitCode::IllegalArgument, s, fuel1),
                        Some(cids) => spec_after_validate(
                            s,
                            cids.contains(s.caller_code),
                            rest,
                            mem,
                            fuel1,
                        ),
                    }
                }
            },
            Instr::StatePut { offset, len } => {
                if !region_in_bounds(mem, offset, len) {
                    spec_exit(ExitCode::IllegalArgument, s, fuel1)
                } else {
                    let data = region_bytes(mem, offset, len);
                    if Kernel::state_put_cost(data.len()) > s.remaining {
                        spec_exit(ExitCode::OutOfGas, s, fuel1)
                    } else {
                        let s1 = RunState {
                            remaining: (s.remaining - Kernel::state_put_cost(data.len())) as u64,
                            ..s
                        };
                        if s.blocks.len() >= u64::MAX {
                            spec_exit(ExitCode::Fatal, s1, fuel1)
                        } else {
                            let c = Cid { value: (s.blocks.len() + 1) as u64 };
                            let a = s.actors[s.actor_id as int];
                            let s2 = RunState {
                                blocks: s.blocks.push(data),
                                actors: s.actors.update(s.actor_id as int, (Actor { state: c, ..a })),
                                ..s1
                            };
                            spec_invoke(s2, rest, mem, fuel1)
                        }
                    }
                }
            },
            Instr::Return { offset, len } => {
                if !region_in_bounds(mem, offset, len) {
                    spec_exit(ExitCode::IllegalArgument, s, fuel1)
                } else {
                    RunOutcome {
                        exit: ExitCode::OK,
                        ret: region_bytes(mem, offset, len),
                        state: s,
                        fuel: fuel1,
                    }
                }
            },
            Instr::Send { to, method, value } => {
                let (step, s2, f2) = spec_send(s, to, method, value, fuel1);
                let f3 = if f2 < fuel1 {
                    f2
                } else {
                    fuel1
                };
                match step {
                    Some(exit) => RunOutcome { exit, ret: Seq::empty(), state: s2, fuel: f3 },
                    None => spec_invoke(s2, rest, mem, f3),
                }
            },
        }
    }
}

/// An exiting outcome with no return data.
pub open spec fn spec_exit(exit: ExitCode, s: RunState, fuel: u64) -> RunOutcome {
    RunOutcome { exit, ret: Seq::empty(), state: s, fuel }
}

/// A validate step followed by the rest of the script: on success the run
/// continues in the transitioned state; a failure ends the call with the
/// error's exit code, the gas charge kept.
pub open spec fn spec_after_validate(
    s: RunState,
    authorized: bool,
    rest: Seq<Instr>,
    mem: Seq<u8>,
    fuel: u64,
) -> RunOutcome
    decreases fuel, 1int,
{
    let (s1, vres) = spec_validate_rs(s, authorized);
    match vres {
        Ok(()) => spec_invoke(s1, rest, mem, fuel),
        Err(e) => spec_exit(spec_exit_code_of(spec_classify(e)), s1, fuel),
    }
}

/// One send step of the runtime model: charge the send price, move the
/// value, run the callee with a fresh frame on the shared budgets, and
/// undo a failed callee's effects.  `None` means the calling script
/// continues, in the returned state; `Some(exit)` ends the whole call.
pub open spec fn spec_send(
    s: RunState,
    to: u64,
    method: u64,
    value: u128,
    fuel: u64,
) -> (Option<ExitCode>, RunState, u64)
    decreases fuel, 1int,
{
    if GAS_SEND_BASE > s.remaining {
        (Some(ExitCode::OutOfGas), s, fuel)
    } else {
        let s1 = RunState { remaining: (s.remaining - GAS_SEND_BASE) as u64, ..s };
        if to >= s1.actors.len() {
            (None, s1, fuel)
        } else {
            let receiver = s1.actors[to as int];
            let payer = s1.actors[s1.actor_id as int];
            if payer.balance < value {
                (None, s1, fuel)
            } else if s1.actor_id != to && receiver.balance + value > u128::MAX {
                (Some(ExitCode::Fatal), s1, fuel)
            } else {
                let s2 = if s1.actor_id == to {
                    s1
                } else {
                    RunState {
                        actors: s1.actors.update(
                            s1.actor_id as int,
                            (Actor { balance: (payer.balance - value) as u128, ..payer }),
                        ).update(
                            to as int,
                            (Actor { balance: (receiver.balance + value) as u128, ..receiver }),
                        ),
                        ..s1
                    }
                };
                if method == METHOD_SEND {
                    (None, s2, fuel)
                } else if !(1 <= receiver.code.value && receiver.code.value <= s2.scripts.len()) {
                    (Some(ExitCode::Fatal), s2, fuel)
                } else {
                    let callee = s2.scripts[receiver.code.value - 1];
                    let s3 = RunState {
                        caller: payer.address,
                        caller_code: payer.code,
                        actor_id: to,
                        validation: CallValidation::Unvalidated,
                        ..s2
                    };
                    let nested = spec_invoke(s3, callee, Seq::empty(), fuel);
                    let fuel2 = if nested.fuel < fuel {
                        nested.fuel
                    } else {
                        fuel
                    };
                    let s4 = RunState {
                        caller: s2.caller,
                        caller_code: s2.caller_code,
                        actor_id: s2.actor_id,
                        validation: s2.validation,
                        ..nested.state
                    };
                    if nested.exit == ExitCode::OK {
                        (None, s4, fuel2)
                    } else {
                        let s5 = RunState { actors: s1.actors, blocks: s1.blocks, ..s4 };
                        if nested.exit == ExitCode::OutOfGas || nested.exit == ExitCode::OutOfFuel
                            || nested.exit == ExitCode::Fatal {
                            (Some(nested.exit), s5, fuel2)
                        } else {
                            (None, s5, fuel2)
                        }
                    }
                }
            }
        }
    }
}

/// A send step never hands fuel back.
proof fn lemma_spec_send_fuel(s: RunState, to: u64, method: u64, value: u128, fuel: u64)
    ensures
        spec_send(s, to, method, value, fuel).2 <= fuel,
{
}

/// What applying one admitted message does, as a value: the receipt's
/// fields and, for an explicit application, the machine committed
/// afterwards.
#[verifier::ext_equal]
pub struct ApplyOutcome {
    pub exit: ExitCode,
    pub ret: Seq<u8>,
    pub gas_used: u64,
    pub actors: Seq<Actor>,
    pub blocks: Seq<Seq<u8>>,
}

/// The call an admitted message makes, under the runtime model: the state
/// after the upfront reservation, sequence advance and inclusion charge;
/// then the value transfer; then the receiver's code, when a method is
/// named.  The returned state carries the gas left when the call ended.
pub open spec fn spec_apply_call(m: Machine, msg: Message, raw_length: usize) -> RunOutcome
    recommends
        spec_admissibility(m, msg, raw_length) is None,
{
    match (m.spec_find_by_address(msg.from), m.spec_find_by_address(msg.to)) {
        (Some(fid), Some(tid)) => {
            let sender = m.actors@[fid as int];
            let cost = spec_inclusion_cost(msg.from, raw_length) as u64;
            let actors1 = m.actors@.update(
                fid as int,
                (Actor {
                    balance: (sender.balance - msg.gas_limit) as u128,
                    sequence: (sender.sequence + 1) as u64,
                    ..sender
                }),
            );
            let s1 = RunState {
                actors: actors1,
                blocks: blocks_view(m.blocks@),
                scripts: scripts_view(m.scripts@),
                limit: msg.gas_limit,
                remaining: (msg.gas_limit - cost) as u64,
                caller: msg.from,
                caller_code: sender.code,
                actor_id: tid,
                validation: CallValidation::Unvalidated,
            };
            let payer = actors1[fid as int];
            let recv = actors1[tid as int];
            if payer.balance < msg.value {
                RunOutcome {
                    exit: ExitCode::InsufficientFunds,
                    ret: Seq::empty(),
                    state: s1,
                    fuel: 0,
                }
            } else if fid != tid && recv.balance + msg.value > u128::MAX {
                RunOutcome { exit: ExitCode::Fatal, ret: Seq::empty(), state: s1, fuel: 0 }
            } else {
                let s2 = if fid == tid {
                    s1
                } else {
                    RunState {
                        actors: actors1.update(
                            fid as int,
                            (Actor { balance: (payer.balance - msg.value) as u128, ..payer }),
                        ).update(
                            tid as int,
                            (Actor { balance: (recv.balance + msg.value) as u128, ..recv }),
                        ),
                        ..s1
                    }
                };
                if msg.method_num == METHOD_SEND {
                    RunOutcome { exit: ExitCode::OK, ret: Seq::empty(), state: s2, fuel: 0 }
                } else {
                    spec_invoke(
                        s2,
                        scripts_view(m.scripts@)[m.actors@[tid as int].code.value - 1],
                        msg.params@,
                        s2.remaining,
                    )
                }
            }
        },
        _ => arbitrary(),
    }
}

/// The executor's semantics for an admitted message: make the call, undo
/// everything but the gas and sequence accounting when it failed, refund
/// the unused gas and burn the rest.
pub open spec fn spec_apply(m: Machine, msg: Message, raw_length: usize) -> ApplyOutcome
    recommends
        spec_admissibility(m, msg, raw_length) is None,
{
    match (m.spec_find_by_address(msg.from), m.spec_find_by_address(msg.to)) {
        (Some(fid), Some(tid)) => {
            let sender = m.actors@[fid as int];
            let actors1 = m.actors@.update(
                fid as int,
                (Actor {
                    balance: (sender.balance - msg.gas_limit) as u128,
                    sequence: (sender.sequence + 1) as u64,
                    ..sender
                }),
            );
            let call = spec_apply_call(m, msg, raw_length);
            let refund = call.state.remaining;
            let exit = if call.exit == ExitCode::OK && call.state.actors[fid as int].balance
                + refund > u128::MAX {
                ExitCode::Fatal
            } else {
                call.exit
            };
            let committed = if exit == ExitCode::OK {
                call.state
            } else {
                RunState { actors: actors1, blocks: blocks_view(m.blocks@), ..call.state }
            };
            let ret = if exit == ExitCode::OK {
                call.ret
            } else {
                Seq::<u8>::empty()
            };
            let paid = committed.actors[fid as int];
            let actors_fin = committed.actors.update(
                fid as int,
                (Actor { balance: (paid.balance + refund) as u128, ..paid }),
            );
            ApplyOutcome {
                exit,
                ret,
                gas_used: (msg.gas_limit - call.state.remaining) as u64,
                actors: actors_fin,
                blocks: committed.blocks,
            }
        },
        _ => arbitrary(),
    }
}

/// Record a span if tracing is on; recording charges nothing and nothing
/// branches on it.
fn trace_point(trace: &mut GasTrace, tracing: bool, tctx: Context, event: Event, gas_used: u64)
    requires
        old(trace).wf(),
    ensures
        final(trace).wf(),
        final(trace).spans@.len() >= old(trace).spans@.len(),
        final(trace).spans@.subrange(0, old(trace).spans@.len() as int) == old(trace).spans@,
{
    proof {
        assert(trace.spans@.subrange(0, trace.spans@.len() as int) =~= trace.spans@);
    }
    if tracing {
        let gas_consumed: Option<i64> = if gas_used <= (i64::MAX as u64) {
            Some(gas_used as i64)
        } else {
            None
        };
        trace.record(
            tctx,
            Point { event: event, label: String::new() },
            Consumption { fuel_consumed: None, gas_consumed },
        );
    }
}

/// The view of a validate operation agrees with the kernel's own
/// transition.
proof fn lemma_validate_rs(k: Kernel, authorized: bool)
    ensures
        run_state(k.spec_validate(authorized).0) == spec_validate_rs(run_state(k), authorized).0,
        k.spec_validate(authorized).1 == spec_validate_rs(run_state(k), authorized).1,
{
    assert(run_state(k.spec_validate(authorized).0) =~= spec_validate_rs(
        run_state(k),
        authorized,
    ).0);
}

/// Run compiled actor code: make its host interactions in order against
/// the kernel, burning one unit of fuel per step.  The call's exit code,
/// its return data, the kernel afterwards and the fuel left are exactly
/// what the runtime model `spec_invoke` says of the starting state; gas
/// only ever decreases, the frame's identity is restored around nested
/// sends, and block history is only ever extended or rolled back to an
/// earlier point of this same call, never beneath it.
#[verifier::rlimit(100)]
pub fn invoke_script(
    k: &mut Kernel,
    trace: &mut GasTrace,
    tracing: bool,
    tctx: Context,
    script: &Vec<Instr>,
    memory: &Memory,
    fuel: &mut u64,
) -> (r: (ExitCode, Vec<u8>))
    requires
        old(k).wf(),
        old(trace).wf(),
    ensures
        ({
            let outcome = spec_invoke(run_state(*old(k)), script@, memory.data@, *old(fuel));
            &&& r.0 == outcome.exit
            &&& r.1@ == outcome.ret
            &&& run_state(*final(k)) == outcome.state
            &&& *final(fuel) == outcome.fuel
        }),
        final(k).wf(),
        final(trace).wf(),
        final(trace).spans@.len() >= old(trace).spans@.len(),
        final(trace).spans@.subrange(0, old(trace).spans@.len() as int) == old(trace).spans@,
        final(k).ledger.limit == old(k).ledger.limit,
        final(k).ledger.remaining <= old(k).ledger.remaining,
        final(k).caller == old(k).caller,
        final(k).caller_code == old(k).caller_code,
        final(k).actor_id == old(k).actor_id,
        final(k).machine.scripts@ == old(k).machine.scripts@,
        final(k).machine.actors@.len() == old(k).machine.actors@.len(),
        final(k).machine.blocks@.len() >= old(k).machine.blocks@.len(),
        final(k).machine.blocks@.take(old(k).machine.blocks@.len() as int) == old(
            k,
        ).machine.blocks@,
        forall|i: int|
            #![trigger final(k).machine.actors@[i]]
            0 <= i < old(k).machine.actors@.len() ==> {
                &&& final(k).machine.actors@[i].sequence == old(k).machine.actors@[i].sequence
                &&& final(k).machine.actors@[i].address == old(k).machine.actors@[i].address
                &&& final(k).machine.actors@[i].code == old(k).machine.actors@[i].code
            },
        *final(fuel) <= *old(fuel),
    decreases k.ledger.remaining, 1int,
{
    let ghost g_blocks = k.machine.blocks@;
    let ghost g_actors = k.machine.actors@;
    let mut pc: usize = 0;
    proof {
        reveal_with_fuel(spec_invoke, 1);
        assert(k.machine.blocks@.take(g_blocks.len() as int) =~= g_blocks);
        assert(script@.skip(0) =~= script@);
    }
    while pc < script.len()
        invariant
            k.wf(),
            trace.wf(),
            trace.spans@.len() >= old(trace).spans@.len(),
            trace.spans@.subrange(0, old(trace).spans@.len() as int) == old(trace).spans@,
            spec_invoke(run_state(*old(k)), script@, memory.data@, *old(fuel)) == spec_invoke(
                run_state(*k),
                script@.skip(pc as int),
                memory.data@,
                *fuel,
            ),
            k.ledger.limit == old(k).ledger.limit,
            k.ledger.remaining <= old(k).ledger.remaining,
            k.caller == old(k).caller,
            k.caller_code == old(k).caller_code,
            k.actor_id == old(k).actor_id,
            k.machine.scripts@ == old(k).machine.scripts@,
            k.machine.actors@.len() == old(k).machine.actors@.len(),
            k.machine.blocks@.len() >= g_blocks.len(),
            k.machine.blocks@.take(g_blocks.len() as int) == g_blocks,
            g_blocks == old(k).machine.blocks@,
            g_actors == old(k).machine.actors@,
            forall|i: int|
                #![trigger k.machine.actors@[i]]
                0 <= i < g_actors.len() ==> {
                    &&& k.machine.actors@[i].sequence == g_actors[i].sequence
                    &&& k.machine.actors@[i].address == g_actors[i].address
                    &&& k.machine.actors@[i].code == g_actors[i].code
                },
            *fuel <= *old(fuel),
            pc <= script@.len(),
        decreases script@.len() - pc,
    {
        let ghost s_top = run_state(*k);
        let ghost f_top = *fuel;
        let ghost tail = script@.skip(pc as int);
        proof {
            assert(tail.len() == script@.len() - pc);
            assert(tail[0] == script@[pc as int]);
            assert(tail.drop_first() =~= script@.skip(pc + 1));
        }
        if *fuel == 0 {
            proof {
                reveal_with_fuel(spec_invoke, 1);
                assert(spec_invoke(s_top, tail, memory.data@, 0u64) == (RunOutcome {
                    exit: ExitCode::OutOfFuel,
                    ret: Seq::empty(),
                    state: s_top,
                    fuel: 0u64,
                }));
            }
            return (ExitCode::OutOfFuel, Vec::new());
        }
        *fuel = *fuel - 1;
        let ghost f1 = *fuel;
        let ghost rest = tail.drop_first();
        let instr = script[pc];
        let gas_used_pre = k.ledger.gas_used();
        let ghost spans_pre = trace.spans@;
        trace_point(trace, tracing, tctx, Event::PreSyscall, gas_used_pre);
        proof {
            crate::tracer::lemma_prefix_trans(old(trace).spans@, spans_pre, trace.spans@);
        }
        match instr {
            Instr::ValidateAcceptAny => {
                let ghost k_pre = *k;
                match validate_immediate_caller_accept_any(k) {
                    Ok(()) => {
                        proof {
                            reveal_with_fuel(spec_invoke, 1);
                            lemma_validate_rs(k_pre, true);
                            assert(spec_invoke(s_top, tail, memory.data@, f_top)
                                == spec_after_validate(s_top, true, rest, memory.data@, f1));
                            assert(spec_invoke(s_top, tail, memory.data@, f_top) == spec_invoke(
                                run_state(*k),
                                script@.skip(pc + 1),
                                memory.data@,
                                f1,
                            ));
                        }
                    },
                    Err(f) => {
                        proof {
                            reveal_with_fuel(spec_invoke, 1);
                            lemma_validate_rs(k_pre, true);
                            assert(spec_invoke(s_top, tail, memory.data@, f_top)
                                == spec_after_validate(s_top, true, rest, memory.data@, f1));
                        }
                        return (exit_code_of(f), Vec::new());
                    },
                }
            },
            Instr::ValidateCallerAddrs { offset, len } => {
                let ghost k_pre = *k;
                let ghost region = region_bytes(memory.data@, offset, len);
                let ghost auth = (match spec_decode_addresses(region) {
                    Some(addrs) => addrs.contains(k_pre.caller),
                    None => false,
                });
                match validate_immediate_caller_addr_one_of(k, memory, offset, len) {
                    Ok(()) => {
                        proof {
                            reveal_with_fuel(spec_invoke, 1);
                            lemma_validate_rs(k_pre, auth);
                            assert(spec_invoke(s_top, tail, memory.data@, f_top) == spec_invoke(
                                run_state(*k),
                                script@.skip(pc + 1),
                                memory.data@,
                                f1,
                            ));
                        }
                    },
                    Err(f) => {
                        proof {
                            reveal_with_fuel(spec_invoke, 1);
                            lemma_validate_rs(k_pre, auth);
                            if !memory.in_bounds(offset, len) {
                                assert(f == SyscallFailure::Recoverable(
                                    ErrorNumber::IllegalArgument,
                                ) && *k == k_pre);
                                assert(spec_invoke(s_top, tail, memory.data@, f_top) == spec_exit(
                                    ExitCode::IllegalArgument,
                                    s_top,
                                    f1,
                                ));
                            } else if spec_decode_addresses(region) is None {
                                assert(f == SyscallFailure::Recoverable(
                                    ErrorNumber::IllegalArgument,
                                ) && *k == k_pre);
                                assert(spec_invoke(s_top, tail, memory.data@, f_top) == spec_exit(
                                    ExitCode::IllegalArgument,
                                    s_top,
                                    f1,
                                ));
                            } else {
                                assert(spec_invoke(s_top, tail, memory.data@, f_top)
                                    == spec_after_validate(s_top, auth, rest, memory.data@, f1));
                            }
                            assert(spec_invoke(s_top, tail, memory.data@, f_top) == (RunOutcome {
                                exit: spec_exit_code_of(f),
                                ret: Seq::empty(),
                                state: run_state(*k),
                                fuel: f1,
                            }));
                        }
                        return (exit_code_of(f), Vec::new());
                    },
                }
            },
            Instr::ValidateCallerTypes { offset, len } => {
                let ghost k_pre = *k;
                let ghost region = region_bytes(memory.data@, offset, len);
                let ghost auth = (match spec_decode_cids(region) {
                    Some(cids) => cids.contains(k_pre.caller_code),
                    None => false,
                });
                match validate_immediate_caller_type_one_of(k, memory, offset, len) {
                    Ok(()) => {
                        proof {
                            reveal_with_fuel(spec_invoke, 1);
                            lemma_validate_rs(k_pre, auth);
                            assert(spec_invoke(s_top, tail, memory.data@, f_top) == spec_invoke(
                                run_state(*k),
                                script@.skip(pc + 1),
                                memory.data@,
                                f1,
                            ));
                        }
                    },
                    Err(f) => {
                        proof {
                            reveal_with_fuel(spec_invoke, 1);
                            lemma_validate_rs(k_pre, auth);
                            if !memory.in_bounds(offset, len) {
                                assert(f == SyscallFailure::Recoverable(
                                    ErrorNumber::IllegalArgument,
                                ) && *k == k_pre);
                                assert(spec_invoke(s_top, tail, memory.data@, f_top) == spec_exit(
                                    ExitCode::IllegalArgument,
                                    s_top,
                                    f1,
                                ));
                            } else if spec_decode_cids(region) is None {
                                assert(f == SyscallFailure::Recoverable(
                                    ErrorNumber::IllegalArgument,
                                ) && *k == k_pre);
                                assert(spec_invoke(s_top, tail, memory.data@, f_top) == spec_exit(
                                    ExitCode::IllegalArgument,
                                    s_top,
                                    f1,
                                ));
                            } else {
                                assert(spec_invoke(s_top, tail, memory.data@, f_top)
                                    == spec_after_validate(s_top, auth, rest, memory.data@, f1));
                            }
                            assert(spec_invoke(s_top, tail, memory.data@, f_top) == (RunOutcome {
                                exit: spec_exit_code_of(f),
                                ret: Seq::empty(),
                                state: run_state(*k),
                                fuel: f1,
                            }));
                        }
                        return (exit_code_of(f), Vec::new());
                    },
                }
            },
            Instr::StatePut { offset, len } => {
                match memory.try_slice(offset, len) {
                    None => {
                        proof {
                            reveal_with_fuel(spec_invoke, 1);
                            assert(spec_invoke(s_top, tail, memory.data@, f_top) == spec_exit(
                                ExitCode::IllegalArgument,
                                s_top,
                                f1,
                            ));
                        }
                        return (ExitCode::IllegalArgument, Vec::new());
                    },
                    Some(data) => {
                        let ghost pre_blocks = k.machine.blocks@;
                        let ghost data_view = data@;
                        match k.state_put(data) {
                            Err(e) => {
                                proof {
                                    reveal_with_fuel(spec_invoke, 1);
                                    assert(run_state(*k) =~= s_top || run_state(*k) =~= (RunState {
                                        remaining: k.ledger.remaining,
                                        ..s_top
                                    }));
                                    assert(spec_invoke(s_top, tail, memory.data@, f_top)
                                        == (RunOutcome {
                                        exit: spec_exit_code_of(spec_classify(e)),
                                        ret: Seq::empty(),
                                        state: run_state(*k),
                                        fuel: f1,
                                    }));
                                }
                                return (exit_code_of(classify(e)), Vec::new());
                            },
                            Ok(_) => {
                                proof {
                                    reveal_with_fuel(spec_invoke, 1);
                                    assert(k.machine.blocks@.take(g_blocks.len() as int)
                                        =~= pre_blocks.take(g_blocks.len() as int));
                                    assert(blocks_view(k.machine.blocks@) =~= blocks_view(
                                        pre_blocks,
                                    ).push(data_view));
                                    assert(run_state(*k) =~= (RunState {
                                        remaining: k.ledger.remaining,
                                        blocks: s_top.blocks.push(data_view),
                                        actors: s_top.actors.update(
                                            s_top.actor_id as int,
                                            (Actor {
                                                state: (Cid {
                                                    value: (s_top.blocks.len() + 1) as u64,
                                                }),
                                                ..s_top.actors[s_top.actor_id as int]
                                            }),
                                        ),
                                        ..s_top
                                    }));
                                    assert(spec_invoke(s_top, tail, memory.data@, f_top)
                                        == spec_invoke(
                                        run_state(*k),
                                        script@.skip(pc + 1),
                                        memory.data@,
                                        f1,
                                    ));
                                }
                            },
                        }
                    },
                }
            },
            Instr::Return { offset, len } => {
                match memory.try_slice(offset, len) {
                    None => {
                        proof {
                            reveal_with_fuel(spec_invoke, 1);
                            assert(spec_invoke(s_top, tail, memory.data@, f_top) == spec_exit(
                                ExitCode::IllegalArgument,
                                s_top,
                                f1,
                            ));
                        }
                        return (ExitCode::IllegalArgument, Vec::new());
                    },
                    Some(data) => {
                        proof {
                            reveal_with_fuel(spec_invoke, 1);
                            assert(spec_invoke(s_top, tail, memory.data@, f_top) == (RunOutcome {
                                exit: ExitCode::OK,
                                ret: data@,
                                state: s_top,
                                fuel: f1,
                            }));
                        }
                        return (ExitCode::OK, data);
                    },
                }
            },
            Instr::Send { to, method, value } => {
                let ghost spans_b = trace.spans@;
                let step = step_send(k, trace, tracing, to, method, value, fuel);
                proof {
                    crate::tracer::lemma_prefix_trans(old(trace).spans@, spans_b, trace.spans@);
                    assert(k.machine.blocks@.take(g_blocks.len() as int) =~= g_blocks);
                    lemma_spec_send_fuel(s_top, to, method, value, f1);
                    reveal_with_fuel(spec_invoke, 1);
                }
                match step {
                    Some(exit) => {
                        proof {
                            assert(spec_invoke(s_top, tail, memory.data@, f_top) == (RunOutcome {
                                exit,
                                ret: Seq::empty(),
                                state: run_state(*k),
                                fuel: *fuel,
                            }));
                        }
                        return (exit, Vec::new());
                    },
                    None => {
                        proof {
                            assert(spec_invoke(s_top, tail, memory.data@, f_top) == spec_invoke(
                                run_state(*k),
                                script@.skip(pc + 1),
                                memory.data@,
                                *fuel,
                            ));
                        }
                    },
                }
            },
        }
        let gas_used_post = k.ledger.gas_used();
        let ghost spans_post = trace.spans@;
        trace_point(trace, tracing, tctx, Event::PostSyscall, gas_used_post);
        proof {
            crate::tracer::lemma_prefix_trans(old(trace).spans@, spans_post, trace.spans@);
        }
        pc = pc + 1;
    }
    proof {
        assert(script@.skip(script@.len() as int) =~= Seq::<Instr>::empty());
    }
    (ExitCode::OK, Vec::new())
}



/// Perform one send host-interaction: the executable counterpart of one
/// `spec_send` step.  `None` means the calling script continues; a
/// `Some` exit ends the whole call with that code.
#[verifier::rlimit(100)]
fn step_send(
    k: &mut Kernel,
    trace: &mut GasTrace,
    tracing: bool,
    to: u64,
    method: u64,
    value: u128,
    fuel: &mut u64,
) -> (r: Option<ExitCode>)
    requires
        old(k).wf(),
        old(trace).wf(),
    ensures
        ({
            let (step, s2, f2) = spec_send(run_state(*old(k)), to, method, value, *old(fuel));
            &&& r == step
            &&& run_state(*final(k)) == s2
            &&& *final(fuel) == f2
        }),
        final(k).wf(),
        final(trace).wf(),
        final(trace).spans@.len() >= old(trace).spans@.len(),
        final(trace).spans@.subrange(0, old(trace).spans@.len() as int) == old(trace).spans@,
        final(k).ledger.limit == old(k).ledger.limit,
        final(k).ledger.remaining <= old(k).ledger.remaining,
        final(k).caller == old(k).caller,
        final(k).caller_code == old(k).caller_code,
        final(k).actor_id == old(k).actor_id,
        final(k).machine.scripts@ == old(k).machine.scripts@,
        final(k).machine.actors@.len() == old(k).machine.actors@.len(),
        final(k).machine.blocks@.len() >= old(k).machine.blocks@.len(),
        final(k).machine.blocks@.take(old(k).machine.blocks@.len() as int) == old(
            k,
        ).machine.blocks@,
        forall|i: int|
            #![trigger final(k).machine.actors@[i]]
            0 <= i < old(k).machine.actors@.len() ==> {
                &&& final(k).machine.actors@[i].sequence == old(k).machine.actors@[i].sequence
                &&& final(k).machine.actors@[i].address == old(k).machine.actors@[i].address
                &&& final(k).machine.actors@[i].code == old(k).machine.actors@[i].code
            },
        *final(fuel) <= *old(fuel),
    decreases k.ledger.remaining, 0int,
{
    let ghost s0 = run_state(*old(k));
    let ghost f0 = *old(fuel);
    proof {
        assert(k.machine.blocks@.take(old(k).machine.blocks@.len() as int) =~= old(
            k,
        ).machine.blocks@);
    }
    match k.ledger.charge(GAS_SEND_BASE) {
        Err(_) => {
            proof {
                assert(run_state(*k) =~= s0);
            }
            return Some(ExitCode::OutOfGas);
        },
        Ok(()) => {},
    }
    let ghost s1 = RunState { remaining: (s0.remaining - GAS_SEND_BASE) as u64, ..s0 };
    proof {
        assert(run_state(*k) =~= s1);
    }
    match k.machine.get_actor(to) {
        None => {
            proof {
                assert(run_state(*k) =~= s1);
                assert(spec_send(s0, to, method, value, f0) == (
                    None::<ExitCode>,
                    run_state(*k),
                    f0,
                ));
            }
            None
        },
        Some(receiver) => {
            let snapshot = copy_vec(&k.machine.actors);
            let blocks_len = k.machine.blocks.len();
            let ghost pre_send_blocks = k.machine.blocks@;
            let aid = k.actor_id;
            match k.transfer(aid, to, value) {
                Err(KernelError::Fatal) => {
                    proof {
                        assert(run_state(*k) =~= s1);
                    }
                    return Some(ExitCode::Fatal);
                },
                Err(_) => {
                    // insufficient funds: recoverable, and the transfer had
                    // no effect
                    proof {
                        assert(run_state(*k) =~= s1);
                    }
                    return None;
                },
                Ok(()) => {},
            }
            let ghost s2 = run_state(*k);
            proof {
                if aid != to {
                    assert(s2 =~= (RunState {
                        actors: s1.actors.update(
                            aid as int,
                            (Actor {
                                balance: (s1.actors[aid as int].balance - value) as u128,
                                ..s1.actors[aid as int]
                            }),
                        ).update(
                            to as int,
                            (Actor {
                                balance: (s1.actors[to as int].balance + value) as u128,
                                ..s1.actors[to as int]
                            }),
                        ),
                        ..s1
                    }));
                } else {
                    assert(s2 =~= s1);
                }
            }
            if method == METHOD_SEND {
                return None;
            }
            match k.machine.get_script(receiver.code) {
                None => {
                    // corrupted bookkeeping: a code identifier that resolves
                    // to nothing
                    proof {
                        assert(spec_send(s0, to, method, value, f0) == (
                            Some(ExitCode::Fatal),
                            s2,
                            f0,
                        ));
                    }
                    Some(ExitCode::Fatal)
                },
                Some(callee_script) => {
                    let me = k.machine.get_actor(k.actor_id).unwrap();
                    let saved_caller = k.caller;
                    let saved_code = k.caller_code;
                    let saved_id = k.actor_id;
                    let saved_validation = k.validation;
                    k.caller = me.address;
                    k.caller_code = me.code;
                    k.actor_id = to;
                    k.validation = CallValidation::Unvalidated;
                    let callee_mem = Memory { data: Vec::new() };
                    let tctx2 = Context { code_cid: receiver.code, method_num: method };
                    let ghost s3 = RunState {
                        caller: me.address,
                        caller_code: me.code,
                        actor_id: to,
                        validation: CallValidation::Unvalidated,
                        ..s2
                    };
                    proof {
                        assert(run_state(*k) =~= s3);
                        assert(callee_script@ == s2.scripts[receiver.code.value - 1]);
                    }
                    let ghost spans_nested = trace.spans@;
                    let (exit2, _ret2) = invoke_script(
                        k,
                        trace,
                        tracing,
                        tctx2,
                        &callee_script,
                        &callee_mem,
                        fuel,
                    );
                    let ghost nested = spec_invoke(
                        s3,
                        s2.scripts[receiver.code.value - 1],
                        Seq::empty(),
                        f0,
                    );
                    proof {
                        assert(spans_nested == old(trace).spans@);
                        assert(trace.spans@.subrange(0, old(trace).spans@.len() as int) == old(
                            trace,
                        ).spans@);
                        assert(callee_mem.data@ =~= Seq::<u8>::empty());
                        assert(exit2 == nested.exit);
                        assert(run_state(*k) == nested.state);
                        assert(*fuel == nested.fuel);
                    }
                    k.caller = saved_caller;
                    k.caller_code = saved_code;
                    k.actor_id = saved_id;
                    k.validation = saved_validation;
                    let ghost s4 = RunState {
                        caller: s2.caller,
                        caller_code: s2.caller_code,
                        actor_id: s2.actor_id,
                        validation: s2.validation,
                        ..nested.state
                    };
                    proof {
                        assert(run_state(*k) =~= s4);
                    }
                    let fatal = match exit2 {
                        ExitCode::OK => false,
                        ExitCode::OutOfGas => true,
                        ExitCode::OutOfFuel => true,
                        ExitCode::Fatal => true,
                        _ => false,
                    };
                    if !matches!(exit2, ExitCode::OK) {
                        // undo the nested call's effects; its gas stays
                        // spent
                        k.machine.actors = snapshot;
                        proof {
                            assert(blocks_len <= k.machine.blocks@.len());
                        }
                        rollback_blocks(&mut k.machine.blocks, blocks_len);
                        proof {
                            assert(k.machine.blocks@ == pre_send_blocks);
                            assert(run_state(*k) =~= (RunState {
                                actors: s1.actors,
                                blocks: s1.blocks,
                                ..s4
                            }));
                        }
                    }
                    proof {
                        assert(k.machine.blocks@.take(old(k).machine.blocks@.len() as int)
                            =~= old(k).machine.blocks@);
                    }
                    proof {
                        reveal_with_fuel(spec_send, 2);
                        reveal_with_fuel(spec_invoke, 1);
                        assert(me.address == s1.actors[aid as int].address);
                        assert(me.code == s1.actors[aid as int].code);
                        assert(s3 =~= (RunState {
                            caller: s1.actors[aid as int].address,
                            caller_code: s1.actors[aid as int].code,
                            actor_id: to,
                            validation: CallValidation::Unvalidated,
                            ..s2
                        }));
                        assert(*fuel <= f0);
                        assert(s2.scripts == scripts_view(k.machine.scripts@));
                        assert(s2.scripts.len() == k.machine.scripts@.len());
                        assert(1 <= receiver.code.value && receiver.code.value
                            <= s2.scripts.len());
                        assert(method != METHOD_SEND);
                        assert(!(s1.actor_id != to && s1.actors[to as int].balance + value
                            > u128::MAX));
                        assert(s1.actors[s1.actor_id as int].balance >= value);
                        assert(to < s1.actors.len());
                        assert(GAS_SEND_BASE <= s0.remaining);
                        if !matches!(exit2, ExitCode::OK) {
                            assert(spec_send(s0, to, method, value, f0).1 == run_state(*k));
                        } else {
                            assert(spec_send(s0, to, method, value, f0).1 == run_state(*k));
                        }
                        assert(spec_send(s0, to, method, value, f0).2 == *fuel);
                    }
                    if fatal {
                        // an exhausted budget or a host fault ends the
                        // whole call stack
                        proof {
                            assert(spec_send(s0, to, method, value, f0).0 == Some(exit2));
                        }
                        Some(exit2)
                    } else {
                        proof {
                            assert(spec_send(s0, to, method, value, f0).0 == None::<ExitCode>);
                        }
                        None
                    }
                },
            }
        },
    }
}
/// The executor: applies messages to its machine, one at a time, tracing
/// as it goes when tracing is on.
#[derive(Debug)]
pub struct Executor {
    /// The machine state messages are applied to.
    pub machine: Machine,
    /// The trace ledger of this executor's applications.
    pub trace: GasTrace,
    /// Whether spans are recorded; timing must never influence the
    /// receipts, only the diagnostics.
    pub tracing: bool,
}

impl Executor {
    /// An executor is well formed when its trace is.
    pub open spec fn wf(self) -> bool {
        self.trace.wf()
    }

    /// An executor over a machine, with a fresh trace.
    pub fn new(machine: Machine, tracing: bool) -> (r: Executor)
        ensures
            r.wf(),
            r.machine == machine,
            r.tracing == tracing,
            r.trace.spans@.len() == 0,
    {
        Executor { machine, trace: GasTrace::start(), tracing }
    }

    /// Hand the accumulated trace out; the executor is consumed.
    pub fn finish_trace(self) -> (r: Vec<GasSpan>)
        ensures
            r@ == self.trace.spans@,
    {
        self.trace.finish()
    }

    /// Apply one message.  An inadmissible message is rejected whole, with
    /// the first failing admissibility check and the machine untouched; an
    /// admitted message always yields a receipt, never an error, and the
    /// receipt's exit code, return data and gas figure — and, for an
    /// explicit application, the committed machine — are exactly what the
    /// model `spec_apply` says of the starting state.  The gas limit is
    /// reserved from the sender up front; unused gas is refunded and
    /// consumed gas is burned.  A failed call commits nothing but the
    /// sender's gas and sequence accounting; a simulation commits nothing
    /// at all.
    #[verifier::rlimit(100)]
    pub fn execute_message(&mut self, msg: &Message, kind: ApplyKind, raw_length: usize) -> (r:
        Result<Receipt, SystemRejection>)
        requires
            old(self).wf(),
        ensures
            final(self).wf(),
            final(self).tracing == old(self).tracing,
            final(self).trace.spans@.len() >= old(self).trace.spans@.len(),
            final(self).trace.spans@.subrange(0, old(self).trace.spans@.len() as int) == old(
                self,
            ).trace.spans@,
            final(self).machine.scripts@ == old(self).machine.scripts@,
            r is Err <==> spec_admissibility(old(self).machine, *msg, raw_length) is Some,
            r matches Err(e) ==> Some(e) == spec_admissibility(old(self).machine, *msg, raw_length),
            r is Err ==> final(self).machine.actors@ == old(self).machine.actors@
                && final(self).machine.blocks@ == old(self).machine.blocks@,
            r matches Ok(receipt) ==> receipt.gas_used <= msg.gas_limit && receipt.gas_used
                >= spec_inclusion_cost(msg.from, raw_length),
            r matches Ok(receipt) ==> ({
                let outcome = spec_apply(old(self).machine, *msg, raw_length);
                &&& receipt.exit_code == outcome.exit
                &&& receipt.return_data@ == outcome.ret
                &&& receipt.gas_used == outcome.gas_used
                &&& (kind is Explicit ==> final(self).machine.actors@ == outcome.actors
                    && blocks_view(final(self).machine.blocks@) == outcome.blocks)
            }),
            kind is Simulate ==> final(self).machine.actors@ == old(self).machine.actors@
                && final(self).machine.blocks@ == old(self).machine.blocks@,
            kind is Explicit ==> (r matches Ok(receipt) ==> (old(
                self,
            ).machine.spec_find_by_address(msg.from) matches Some(fid) ==> {
                &&& final(self).machine.actors@.len() == old(self).machine.actors@.len()
                &&& final(self).machine.actors@[fid as int].sequence == old(
                    self,
                ).machine.actors@[fid as int].sequence + 1
                &&& receipt.exit_code != ExitCode::OK ==> {
                    &&& final(self).machine.blocks@ == old(self).machine.blocks@
                    &&& final(self).machine.actors@ == old(self).machine.actors@.update(
                        fid as int,
                        (Actor {
                            balance: (old(self).machine.actors@[fid as int].balance
                                - receipt.gas_used) as u128,
                            sequence: (old(self).machine.actors@[fid as int].sequence + 1) as u64,
                            ..old(self).machine.actors@[fid as int]
                        }),
                    )
                }
            })),
    {
        let ghost m0 = self.machine;
        proof {
            assert(self.trace.spans@.subrange(0, self.trace.spans@.len() as int)
                =~= self.trace.spans@);
        }
        // admissibility: inclusion cost against the declared limit
        let extra: usize = if matches!(msg.from.protocol, crate::types::Protocol::Secp256k1) {
            SECP_SIG_LEN + SECP_SIG_ENVELOPE
        } else {
            0
        };
        proof {
            assert((GAS_MESSAGE_INCLUSION_BASE as int) + ((raw_length as int) + (extra as int)) * (
            GAS_MESSAGE_INCLUSION_PER_BYTE as int) <= u128::MAX as int) by (nonlinear_arith)
                requires
                    raw_length <= u64::MAX as int,
                    extra <= 0x100,
                    GAS_MESSAGE_INCLUSION_BASE <= u64::MAX as int,
                    GAS_MESSAGE_INCLUSION_PER_BYTE == 1,
            ;
        }
        let cost128: u128 = (GAS_MESSAGE_INCLUSION_BASE as u128) + ((raw_length as u128) + (extra
            as u128)) * (GAS_MESSAGE_INCLUSION_PER_BYTE as u128);
        if cost128 > (msg.gas_limit as u128) {
            return Err(SystemRejection::GasLimitTooLow);
        }
        // admissibility: the sender and its accounting
        let fid = match self.machine.find_by_address(msg.from) {
            None => {
                return Err(SystemRejection::SenderNotFound);
            },
            Some(f) => f,
        };
        let sender = self.machine.get_actor(fid).unwrap();
        if msg.sequence != sender.sequence {
            return Err(SystemRejection::SequenceMismatch);
        }
        if sender.sequence == u64::MAX {
            return Err(SystemRejection::StateCorrupt);
        }
        if sender.balance < (msg.gas_limit as u128) {
            return Err(SystemRejection::SenderInsufficientFunds);
        }
        // admissibility: the receiver and its code
        let tid = match self.machine.find_by_address(msg.to) {
            None => {
                return Err(SystemRejection::ReceiverNotFound);
            },
            Some(t) => t,
        };
        let receiver = self.machine.get_actor(tid).unwrap();
        let script: Option<Vec<Instr>> = if msg.method_num != METHOD_SEND {
            match self.machine.get_script(receiver.code) {
                None => {
                    return Err(SystemRejection::StateCorrupt);
                },
                Some(s) => Some(s),
            }
        } else {
            None
        };
        proof {
            assert(spec_admissibility(m0, *msg, raw_length) is None);
        }
        let ghost callg = spec_apply_call(m0, *msg, raw_length);
        let ghost outg = spec_apply(m0, *msg, raw_length);
        let ghost sender2g = (Actor {
            balance: (m0.actors@[fid as int].balance - msg.gas_limit) as u128,
            sequence: (m0.actors@[fid as int].sequence + 1) as u64,
            ..m0.actors@[fid as int]
        });
        let ghost s1g = (RunState {
            actors: m0.actors@.update(fid as int, sender2g),
            blocks: blocks_view(m0.blocks@),
            scripts: scripts_view(m0.scripts@),
            limit: msg.gas_limit,
            remaining: (msg.gas_limit - (spec_inclusion_cost(msg.from, raw_length) as u64)) as u64,
            caller: msg.from,
            caller_code: m0.actors@[fid as int].code,
            actor_id: tid,
            validation: CallValidation::Unvalidated,
        });
        proof {
            assert(cost128 == spec_inclusion_cost(msg.from, raw_length) as u128);
        }
        // reserve the gas limit pessimistically and advance the sequence
        let snapshot0 = copy_vec(&self.machine.actors);
        let blocks0 = self.machine.blocks.len();
        let sender2 = Actor {
            balance: sender.balance - (msg.gas_limit as u128),
            sequence: sender.sequence + 1,
            ..sender
        };
        self.machine.set_actor(fid, sender2);
        let snapshot1 = copy_vec(&self.machine.actors);
        // a ledger scoped to this call, charged for inclusion up front
        let mut ledger = GasLedger::new(msg.gas_limit);
        let charged = ledger.charge(cost128 as u64);
        proof {
            assert(charged is Ok);
        }
        // the kernel of the top-level frame
        let mut mach = Machine::new();
        core::mem::swap(&mut mach, &mut self.machine);
        let mut k = Kernel {
            machine: mach,
            ledger,
            caller: msg.from,
            caller_code: sender.code,
            actor_id: tid,
            validation: CallValidation::Unvalidated,
        };
        proof {
            assert(run_state(k) =~= s1g);
        }
        let tctx = Context { code_cid: receiver.code, method_num: msg.method_num };
        let ghost spans_started = self.trace.spans@;
        trace_point(&mut self.trace, self.tracing, tctx, Event::Started, k.ledger.gas_used());
        proof {
            crate::tracer::lemma_prefix_trans(
                old(self).trace.spans@,
                spans_started,
                self.trace.spans@,
            );
        }
        let ghost pre_call_blocks = k.machine.blocks@;
        // transfer the message value, then run the receiver's code
        let mut exit: ExitCode;
        let mut ret: Vec<u8> = Vec::new();
        match k.transfer(fid, tid, msg.value) {
            Err(KernelError::InsufficientFunds) => {
                exit = ExitCode::InsufficientFunds;
                proof {
                    assert(run_state(k) =~= s1g);
                    assert(exit == callg.exit && callg.ret == Seq::<u8>::empty() && callg.state
                        == s1g);
                }
            },
            Err(_) => {
                exit = ExitCode::Fatal;
                proof {
                    assert(run_state(k) =~= s1g);
                    assert(exit == callg.exit && callg.ret == Seq::<u8>::empty() && callg.state
                        == s1g);
                }
            },
            Ok(()) => {
                let ghost s2g = (if fid == tid {
                    s1g
                } else {
                    RunState {
                        actors: s1g.actors.update(
                            fid as int,
                            (Actor {
                                balance: (s1g.actors[fid as int].balance - msg.value) as u128,
                                ..s1g.actors[fid as int]
                            }),
                        ).update(
                            tid as int,
                            (Actor {
                                balance: (s1g.actors[tid as int].balance + msg.value) as u128,
                                ..s1g.actors[tid as int]
                            }),
                        ),
                        ..s1g
                    }
                });
                proof {
                    assert(run_state(k) =~= s2g);
                }
                match script {
                    None => {
                        exit = ExitCode::OK;
                        proof {
                            assert(exit == callg.exit && callg.ret == Seq::<u8>::empty()
                                && callg.state == s2g);
                        }
                    },
                    Some(code) => {
                        let memory = Memory { data: copy_vec(&msg.params) };
                        let mut fuel: u64 = k.ledger.remaining;
                        proof {
                            assert(code@ == scripts_view(m0.scripts@)[
                                m0.actors@[tid as int].code.value - 1
                            ]);
                            assert(memory.data@ == msg.params@);
                            assert(fuel == s2g.remaining);
                        }
                        let ghost spans_call = self.trace.spans@;
                        let (e2, r2) = invoke_script(
                            &mut k,
                            &mut self.trace,
                            self.tracing,
                            tctx,
                            &code,
                            &memory,
                            &mut fuel,
                        );
                        proof {
                            crate::tracer::lemma_prefix_trans(
                                old(self).trace.spans@,
                                spans_call,
                                self.trace.spans@,
                            );
                            assert(e2 == callg.exit && r2@ == callg.ret && run_state(k)
                                == callg.state);
                        }
                        exit = e2;
                        ret = r2;
                    },
                }
            },
        }
        proof {
            assert(exit == callg.exit && ret@ == callg.ret && run_state(k) == callg.state);
            assert(k.ledger.remaining == callg.state.remaining);
        }
        // refunds may not overflow a balance the call itself inflated
        if matches!(exit, ExitCode::OK) {
            let s3 = k.machine.get_actor(fid).unwrap();
            if s3.balance > u128::MAX - ((msg.gas_limit - k.ledger.gas_used()) as u128) {
                exit = ExitCode::Fatal;
            }
        }
        // a failed call commits nothing but the gas and sequence accounting
        if !matches!(exit, ExitCode::OK) {
            k.machine.actors = snapshot1;
            proof {
                assert(blocks0 <= k.machine.blocks@.len());
            }
            rollback_blocks(&mut k.machine.blocks, blocks0);
            proof {
                assert(k.machine.blocks@ == pre_call_blocks);
            }
            ret = Vec::new();
        }
        // refund unused gas; consumed gas is burned
        let gas_used = k.ledger.gas_used();
        let refund: u64 = msg.gas_limit - gas_used;
        let s4 = k.machine.get_actor(fid).unwrap();
        k.machine.set_actor(fid, Actor { balance: s4.balance + (refund as u128), ..s4 });
        proof {
            assert(exit == outg.exit);
            assert(ret@ == outg.ret);
            assert(gas_used == outg.gas_used);
            assert(k.machine.actors@ == outg.actors);
            assert(blocks_view(k.machine.blocks@) == outg.blocks);
        }
        // a simulation commits nothing at all
        if matches!(kind, ApplyKind::Simulate) {
            k.machine.actors = snapshot0;
            rollback_blocks(&mut k.machine.blocks, blocks0);
            proof {
                assert(k.machine.blocks@ == pre_call_blocks);
            }
        }
        core::mem::swap(&mut self.machine, &mut k.machine);
        let ghost spans_finished = self.trace.spans@;
        trace_point(&mut self.trace, self.tracing, tctx, Event::Finished, gas_used);
        proof {
            crate::tracer::lemma_prefix_trans(
                old(self).trace.spans@,
                spans_finished,
                self.trace.spans@,
            );
        }
        proof {
            if !matches!(exit, ExitCode::OK) && matches!(kind, ApplyKind::Explicit) {
                assert(self.machine.actors@ =~= m0.actors@.update(
                    fid as int,
                    (Actor {
                        balance: (m0.actors@[fid as int].balance - gas_used) as u128,
                        sequence: (m0.actors@[fid as int].sequence + 1) as u64,
                        ..m0.actors@[fid as int]
                    }),
                ));
            }
            if matches!(kind, ApplyKind::Simulate) {
                assert(self.machine.actors@ =~= m0.actors@);
            }
        }
        Ok(Receipt { exit_code: exit, return_data: ret, gas_used })
    }
}

} // verus!
