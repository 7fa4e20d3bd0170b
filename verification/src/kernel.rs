//! The kernel: the capability-scoped interface through which sandboxed code
//! performs every host operation.  Each externally observable operation
//! charges gas before it acts; if the charge fails, the effect does not
//! occur.  Caller validation is one-shot per call frame.

use vstd::prelude::*;

use crate::gas::GasLedger;
use crate::machine::{Actor, Machine};
use crate::types::{Address, Cid, KernelError};

verus! {

/// Gas price of a caller-validation operation.
pub const GAS_VALIDATE_CALLER: u64 = 10;

/// Gas price of reading the executing actor's state block.
pub const GAS_BLOCK_GET: u64 = 15;

/// Base gas price of storing a state block.
pub const GAS_BLOCK_PUT_BASE: u64 = 20;

/// Gas price per byte of a stored state block.
pub const GAS_BLOCK_PUT_PER_BYTE: u64 = 2;

/// Gas price of a nested send, charged before the callee runs.
pub const GAS_SEND_BASE: u64 = 40;

/// The one-shot caller-validation state of a call frame: an explicit tagged
/// state, not a buried flag.  The frame starts Unvalidated; the first
/// successful validate operation moves it to Validated, where it stays for
/// the rest of the frame.
#[derive(Clone, Copy, PartialEq, Eq, Structural, Debug)]
pub enum CallValidation {
    Unvalidated,
    Validated,
}

/// The kernel of one call frame: the machine it executes against, the gas
/// ledger shared along the call stack, and the frame's identity and
/// validation state.
#[derive(Debug)]
pub struct Kernel {
    /// The machine state this call stack executes against.
    pub machine: Machine,
    /// The gas ledger of the call stack; nested frames share it, they never
    /// copy it.
    pub ledger: GasLedger,
    /// Address of the immediate caller of this frame.
    pub caller: Address,
    /// Code identifier of the immediate caller's actor.
    pub caller_code: Cid,
    /// Id of the actor this frame executes.
    pub actor_id: u64,
    /// One-shot caller-validation state of this frame.
    pub validation: CallValidation,
}

impl Kernel {
    /// A kernel is well formed when its ledger is and its frame executes an
    /// actor that is in the tree.
    pub open spec fn wf(self) -> bool {
        &&& self.ledger.wf()
        &&& self.actor_id < self.machine.actors@.len()
    }

    /// The frame's identity: everything a validate operation leaves alone.
    pub open spec fn identity(self) -> (Machine, Address, Cid, u64) {
        (self.machine, self.caller, self.caller_code, self.actor_id)
    }

    /// What any caller-validation operation does, as a value: charge gas,
    /// then consume the one-shot slot if the caller is authorized.
    /// `authorized` is the variant's own predicate of the caller: always
    /// true for accept-any, membership of the caller's address or code
    /// identifier for the list variants.
    pub open spec fn spec_validate(self, authorized: bool) -> (Kernel, Result<(), KernelError>) {
        let (led, charged) = self.ledger.spec_charge(GAS_VALIDATE_CALLER);
        let k = Kernel { ledger: led, ..self };
        if !charged {
            (k, Err(KernelError::OutOfGas))
        } else if self.validation is Validated {
            (k, Err(KernelError::Forbidden))
        } else if authorized {
            (Kernel { validation: CallValidation::Validated, ..k }, Ok(()))
        } else {
            (k, Err(KernelError::Forbidden))
        }
    }

    /// Validate the caller, accepting any immediate caller.  Succeeds
    /// exactly when gas suffices and this frame has not validated yet.
    pub fn validate_immediate_caller_accept_any(&mut self) -> (r: Result<(), KernelError>)
        ensures
            (*final(self), r) == old(self).spec_validate(true),
    {
        self.validate_with(true)
    }

    /// Validate the caller against an address list.  Succeeds exactly when
    /// gas suffices, this frame has not validated yet, and the immediate
    /// caller's address is in the list.
    pub fn validate_immediate_caller_addr_one_of(&mut self, addrs: &Vec<Address>) -> (r: Result<
        (),
        KernelError,
    >)
        ensures
            (*final(self), r) == old(self).spec_validate(addrs@.contains(old(self).caller)),
    {
        let authorized = contains_address(addrs, self.caller);
        self.validate_with(authorized)
    }

    /// Validate the caller against a list of code identifiers.  Succeeds
    /// exactly when gas suffices, this frame has not validated yet, and the
    /// caller's code identifier is in the list.
    pub fn validate_immediate_caller_type_one_of(&mut self, cids: &Vec<Cid>) -> (r: Result<
        (),
        KernelError,
    >)
        ensures
            (*final(self), r) == old(self).spec_validate(cids@.contains(old(self).caller_code)),
    {
        let authorized = contains_cid(cids, self.caller_code);
        self.validate_with(authorized)
    }

    /// The shared body of the validate operations: charge, then consume the
    /// one-shot slot.
    fn validate_with(&mut self, authorized: bool) -> (r: Result<(), KernelError>)
        ensures
            (*final(self), r) == old(self).spec_validate(authorized),
    {
        match self.ledger.charge(GAS_VALIDATE_CALLER) {
            Err(e) => Err(e),
            Ok(()) => {
                match self.validation {
                    CallValidation::Validated => Err(KernelError::Forbidden),
                    CallValidation::Unvalidated => {
                        if authorized {
                            self.validation = CallValidation::Validated;
                            Ok(())
                        } else {
                            Err(KernelError::Forbidden)
                        }
                    },
                }
            },
        }
    }

    /// The gas price of storing `len` bytes of state.
    pub open spec fn state_put_cost(len: nat) -> int {
        GAS_BLOCK_PUT_BASE + len * GAS_BLOCK_PUT_PER_BYTE
    }

    /// Store a block and make it the executing actor's state.  Gas is
    /// charged before the store; when the charge fails nothing is stored
    /// and the tree stands unchanged.
    pub fn state_put(&mut self, data: Vec<u8>) -> (r: Result<Cid, KernelError>)
        requires
            old(self).wf(),
        ensures
            final(self).wf(),
            final(self).caller == old(self).caller,
            final(self).caller_code == old(self).caller_code,
            final(self).actor_id == old(self).actor_id,
            final(self).validation == old(self).validation,
            final(self).ledger.limit == old(self).ledger.limit,
            final(self).machine.scripts@ == old(self).machine.scripts@,
            Self::state_put_cost(data@.len()) > old(self).ledger.remaining ==> {
                &&& r == Err::<Cid, KernelError>(KernelError::OutOfGas)
                &&& final(self).machine.actors@ == old(self).machine.actors@
                &&& final(self).machine.blocks@ == old(self).machine.blocks@
                &&& final(self).ledger == old(self).ledger
            },
            Self::state_put_cost(data@.len()) <= old(self).ledger.remaining ==> {
                &&& final(self).ledger.remaining == old(self).ledger.remaining
                    - Self::state_put_cost(data@.len())
                &&& r matches Ok(c) ==> {
                    &&& c.value == old(self).machine.blocks@.len() + 1
                    &&& final(self).machine.blocks@ == old(self).machine.blocks@.push(data)
                    &&& final(self).machine.actors@ == old(self).machine.actors@.update(
                        old(self).actor_id as int,
                        (Actor {
                            state: c,
                            ..old(self).machine.actors@[old(self).actor_id as int]
                        }),
                    )
                }
                &&& r is Err ==> r == Err::<Cid, KernelError>(KernelError::Fatal)
                    && final(self).machine.actors@ == old(self).machine.actors@
                    && final(self).machine.blocks@ == old(self).machine.blocks@
                &&& (r is Ok <==> old(self).machine.blocks@.len() < u64::MAX)
            },
    {
        let len = data.len();
        proof {
            assert((GAS_BLOCK_PUT_BASE as int) + (len as int) * (GAS_BLOCK_PUT_PER_BYTE as int)
                <= u128::MAX as int) by (nonlinear_arith)
                requires
                    len <= u64::MAX as int,
                    GAS_BLOCK_PUT_BASE <= u64::MAX as int,
                    GAS_BLOCK_PUT_PER_BYTE <= u64::MAX as int,
            ;
        }
        let cost128: u128 = (GAS_BLOCK_PUT_BASE as u128) + (len as u128) * (GAS_BLOCK_PUT_PER_BYTE
            as u128);
        if cost128 > (self.ledger.remaining as u128) {
            return Err(KernelError::OutOfGas);
        }
        let charged = self.ledger.charge(cost128 as u64);
        proof {
            assert(charged is Ok);
        }
        match self.machine.put_block(data) {
            Err(e) => Err(e),
            Ok(c) => {
                match self.machine.get_actor(self.actor_id) {
                    None => {
                        proof {
                            assert(false);
                        }
                        Err(KernelError::Fatal)
                    },
                    Some(a) => {
                        self.machine.set_actor(self.actor_id, Actor { state: c, ..a });
                        Ok(c)
                    },
                }
            },
        }
    }

    /// Gas introspection: how much gas the frame's budget still holds.
    pub fn gas_available(&self) -> (r: u64)
        ensures
            r == self.ledger.remaining,
    {
        self.ledger.remaining
    }

    /// Read the executing actor's state block.  Gas is charged first; an
    /// actor whose state identifier is unset has no state to read, which
    /// is NotFound, not a fault.
    pub fn state_get(&mut self) -> (r: Result<Vec<u8>, KernelError>)
        requires
            old(self).wf(),
        ensures
            final(self).wf(),
            final(self).machine == old(self).machine,
            final(self).caller == old(self).caller,
            final(self).caller_code == old(self).caller_code,
            final(self).actor_id == old(self).actor_id,
            final(self).validation == old(self).validation,
            final(self).ledger == old(self).ledger.spec_charge(GAS_BLOCK_GET).0,
            GAS_BLOCK_GET > old(self).ledger.remaining ==> r == Err::<Vec<u8>, KernelError>(
                KernelError::OutOfGas,
            ),
            GAS_BLOCK_GET <= old(self).ledger.remaining ==> {
                let state = old(self).machine.actors@[old(self).actor_id as int].state;
                match r {
                    Ok(data) => old(self).machine.block_of(state) == Some(data@),
                    Err(e) => e == KernelError::NotFound && old(self).machine.block_of(state)
                        is None,
                }
            },
    {
        match self.ledger.charge(GAS_BLOCK_GET) {
            Err(e) => Err(e),
            Ok(()) => {
                let a = self.machine.get_actor(self.actor_id).unwrap();
                match self.machine.get_block(a.state) {
                    None => Err(KernelError::NotFound),
                    Some(data) => Ok(data),
                }
            },
        }
    }

    /// Move `value` from one actor's balance to another's.  Fails with
    /// InsufficientFunds when the payer's balance is short, leaving both
    /// balances untouched; a credit that would overflow is corrupted
    /// bookkeeping and fails fatally.
    pub fn transfer(&mut self, from_id: u64, to_id: u64, value: u128) -> (r: Result<
        (),
        KernelError,
    >)
        requires
            old(self).machine.actor_of(from_id) is Some,
            old(self).machine.actor_of(to_id) is Some,
        ensures
            final(self).ledger == old(self).ledger,
            final(self).caller == old(self).caller,
            final(self).caller_code == old(self).caller_code,
            final(self).actor_id == old(self).actor_id,
            final(self).validation == old(self).validation,
            final(self).machine.blocks@ == old(self).machine.blocks@,
            final(self).machine.scripts@ == old(self).machine.scripts@,
            final(self).machine.actors@.len() == old(self).machine.actors@.len(),
            r is Err ==> final(self).machine.actors@ == old(self).machine.actors@,
            forall|i: int|
                #![trigger final(self).machine.actors@[i]]
                0 <= i < old(self).machine.actors@.len() ==> {
                    &&& final(self).machine.actors@[i].sequence == old(
                        self,
                    ).machine.actors@[i].sequence
                    &&& final(self).machine.actors@[i].address == old(
                        self,
                    ).machine.actors@[i].address
                    &&& final(self).machine.actors@[i].code == old(self).machine.actors@[i].code
                    &&& final(self).machine.actors@[i].state == old(self).machine.actors@[i].state
                },
            r == Err::<(), KernelError>(KernelError::InsufficientFunds) <==> old(
                self,
            ).machine.actors@[from_id as int].balance < value,
            r == Err::<(), KernelError>(KernelError::Fatal) <==> (old(
                self,
            ).machine.actors@[from_id as int].balance >= value && from_id != to_id && old(
                self,
            ).machine.actors@[to_id as int].balance + value > u128::MAX),
            r is Err ==> r == Err::<(), KernelError>(KernelError::InsufficientFunds) || r == Err::<
                (),
                KernelError,
            >(KernelError::Fatal),
            r is Ok ==> old(self).machine.actors@[from_id as int].balance >= value,
            from_id != to_id && value <= old(self).machine.actors@[from_id as int].balance
                && old(self).machine.actors@[to_id as int].balance + value <= u128::MAX ==> r is Ok
                && final(self).machine.actors@ == old(self).machine.actors@.update(
                from_id as int,
                (Actor {
                    balance: (old(self).machine.actors@[from_id as int].balance - value) as u128,
                    ..old(self).machine.actors@[from_id as int]
                }),
            ).update(
                to_id as int,
                (Actor {
                    balance: (old(self).machine.actors@[to_id as int].balance + value) as u128,
                    ..old(self).machine.actors@[to_id as int]
                }),
            ),
            from_id == to_id && value <= old(self).machine.actors@[from_id as int].balance ==> r
                is Ok && final(self).machine.actors@ == old(self).machine.actors@,
    {
        let from_a = self.machine.get_actor(from_id).unwrap();
        if from_a.balance < value {
            return Err(KernelError::InsufficientFunds);
        }
        if from_id == to_id {
            return Ok(());
        }
        let to_a = self.machine.get_actor(to_id).unwrap();
        if to_a.balance > u128::MAX - value {
            return Err(KernelError::Fatal);
        }
        self.machine.set_actor(from_id, Actor { balance: from_a.balance - value, ..from_a });
        let to_b = self.machine.get_actor(to_id).unwrap();
        self.machine.set_actor(to_id, Actor { balance: to_b.balance + value, ..to_b });
        Ok(())
    }
}

/// Whether a list of addresses holds one address.
pub fn contains_address(v: &Vec<Address>, a: Address) -> (r: bool)
    ensures
        r == v@.contains(a),
{
    let mut i: usize = 0;
    while i < v.len()
        invariant
            i <= v@.len(),
            forall|j: int| 0 <= j < i ==> v@[j] != a,
        decreases v@.len() - i,
    {
        if v[i] == a {
            return true;
        }
        i = i + 1;
    }
    false
}

/// Whether a list of code identifiers holds one identifier.
pub fn contains_cid(v: &Vec<Cid>, c: Cid) -> (r: bool)
    ensures
        r == v@.contains(c),
{
    let mut i: usize = 0;
    while i < v.len()
        invariant
            i <= v@.len(),
            forall|j: int| 0 <= j < i ==> v@[j] != c,
        decreases v@.len() - i,
    {
        if v[i] == c {
            return true;
        }
        i = i + 1;
    }
    false
}

/// Law: caller validation is idempotent-once.  When any validate operation
/// succeeds in a call frame, then whichever validate variant is tried next
/// in that frame, and whatever its predicate of the caller says, the second
/// operation fails, and the frame stays Validated for the rest of the
/// frame.  With gas to charge the second failure is Forbidden.
pub proof fn lemma_validation_once(k: Kernel, authorized_first: bool, authorized_second: bool)
    requires
        k.spec_validate(authorized_first).1 is Ok,
    ensures
        k.spec_validate(authorized_first).0.spec_validate(authorized_second).1 is Err,
        k.spec_validate(authorized_first).0.spec_validate(authorized_second).0.validation
            is Validated,
        GAS_VALIDATE_CALLER <= k.spec_validate(authorized_first).0.ledger.remaining ==> k
            .spec_validate(authorized_first).0.spec_validate(authorized_second).1 == Err::<
            (),
            KernelError,
        >(KernelError::Forbidden),
{
}

} // verus!
