//! Plain data carried across the kernel boundary: method numbers, addresses,
//! content identifiers, messages and exit codes.

use vstd::prelude::*;

verus! {

/// Method number selecting an actor entry point.
pub type MethodNum = u64;

/// Well-known method number: bare value transfer.
pub const METHOD_SEND: MethodNum = 0;

/// Well-known method number: actor constructor.
pub const METHOD_CONSTRUCTOR: MethodNum = 1;

/// Length in bytes of a secp256k1 signature.
pub const SECP_SIG_LEN: usize = 65;

/// Envelope overhead beside a secp256k1 signature: one type byte and three
/// bytes of field framing.
pub const SECP_SIG_ENVELOPE: usize = 4;

/// Address scheme of an actor address.
#[derive(Clone, Copy, PartialEq, Eq, Structural, Debug, Hash)]
pub enum Protocol {
    /// A numeric actor identifier.
    Id,
    /// A secp256k1 public-key address; messages from such a sender carry a
    /// signature envelope that the executor surcharges for.
    Secp256k1,
    /// A delegated actor address.
    Actor,
    /// A BLS public-key address.
    Bls,
}

/// An actor address, held as plain values: the scheme and its payload.
#[derive(Clone, Copy, PartialEq, Eq, Structural, Debug, Hash)]
pub struct Address {
    pub protocol: Protocol,
    pub payload: u64,
}

/// A content identifier, held as a plain value.
#[derive(Clone, Copy, PartialEq, Eq, Structural, Debug, Hash)]
pub struct Cid {
    pub value: u64,
}

impl Default for Cid {
    /// The zero identifier, standing for "unset".
    fn default() -> (r: Cid)
        ensures
            r.value == 0,
    {
        Cid { value: 0 }
    }
}

/// Outcome classification of a call: success, or one member of a closed
/// taxonomy of failures.
#[derive(Clone, Copy, PartialEq, Eq, Structural, Debug, Hash)]
pub enum ExitCode {
    /// The call completed successfully.
    OK,
    /// The actor handed the host a malformed or out-of-bounds argument.
    IllegalArgument,
    /// The caller was not authorized, or a one-shot operation was repeated.
    Forbidden,
    /// A transfer exceeded the paying actor's balance.
    InsufficientFunds,
    /// The call frame's gas budget was exhausted.
    OutOfGas,
    /// The sandbox runtime's fuel budget was exhausted.
    OutOfFuel,
    /// An internal host invariant was violated; never caused by actor input.
    Fatal,
}

/// A typed kernel error: every collaborator failure is converted into one of
/// these before it crosses the syscall boundary.
#[derive(Clone, Copy, PartialEq, Eq, Structural, Debug, Hash)]
pub enum KernelError {
    /// A malformed or out-of-bounds argument.
    IllegalArgument,
    /// The caller was not authorized, or caller validation was repeated
    /// within one call frame.
    Forbidden,
    /// A transfer exceeded the paying actor's balance.
    InsufficientFunds,
    /// A referenced actor or block does not exist.
    NotFound,
    /// The gas charge for an operation exceeded the remaining budget.
    OutOfGas,
    /// An internal host invariant was violated.
    Fatal,
}

/// A message to be applied to the state tree: exactly one per top-level
/// application call, immutable once accepted by the executor.
#[derive(Debug)]
pub struct Message {
    pub from: Address,
    pub to: Address,
    pub sequence: u64,
    pub value: u128,
    pub method_num: MethodNum,
    pub params: Vec<u8>,
    pub gas_limit: u64,
}

/// The result of one applied message: every call, nested or top-level,
/// terminates with exactly one exit code.
#[derive(Debug)]
pub struct Receipt {
    pub exit_code: ExitCode,
    pub return_data: Vec<u8>,
    pub gas_used: u64,
}

} // verus!
