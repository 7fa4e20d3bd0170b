//! The syscall boundary: the only path by which sandboxed code reaches the
//! kernel.  Every argument arrives as an (offset, length) pair into the
//! sandbox's linear memory; the boundary checks bounds, decodes the bytes,
//! forwards typed values to the kernel, and translates each kernel error
//! into either an error the actor can catch or a trap that ends the call.
//!
//! Sandbox memory is inherently untrusted: an out-of-bounds reference or a
//! malformed encoding is the actor's mistake, classified IllegalArgument
//! and never a host fault.

use vstd::prelude::*;

use crate::codec::{from_slice_addresses, from_slice_cids, spec_decode_addresses, spec_decode_cids};
use crate::kernel::Kernel;
use crate::types::{Address, Cid, ExitCode, KernelError};

verus! {

/// The sandbox's linear memory, as the boundary sees it for one syscall.
#[derive(Debug)]
pub struct Memory {
    pub data: Vec<u8>,
}

impl Memory {
    /// Whether an (offset, length) pair denotes a region fully inside the
    /// addressable memory.
    pub open spec fn in_bounds(self, offset: u32, len: u32) -> bool {
        offset + len <= self.data@.len()
    }

    /// The bytes an in-bounds region denotes.
    pub open spec fn region(self, offset: u32, len: u32) -> Seq<u8> {
        self.data@.subrange(offset as int, offset as int + len as int)
    }

    /// Read a region out of memory; an out-of-bounds pair yields `None`.
    pub fn try_slice(&self, offset: u32, len: u32) -> (r: Option<Vec<u8>>)
        ensures
            r is Some <==> self.in_bounds(offset, len),
            r matches Some(b) ==> b@ == self.region(offset, len),
    {
        let end: u64 = (offset as u64) + (len as u64);
        if end > self.data.len() as u64 {
            return None;
        }
        let mut out: Vec<u8> = Vec::new();
        let mut i: usize = offset as usize;
        while i < (end as usize)
            invariant
                offset <= i <= end,
                end <= self.data@.len(),
                end == offset + len,
                out@ == self.data@.subrange(offset as int, i as int),
            decreases end - i,
        {
            out.push(self.data[i]);
            proof {
                assert(out@ =~= self.data@.subrange(offset as int, i + 1));
            }
            i = i + 1;
        }
        Some(out)
    }
}

/// An error number the actor can catch.
#[derive(Clone, Copy, PartialEq, Eq, Structural, Debug)]
pub enum ErrorNumber {
    IllegalArgument,
    Forbidden,
    InsufficientFunds,
    NotFound,
}

/// How a failure crosses the syscall boundary: as an error code the actor
/// may catch and act on, or as a trap that ends the call with an exit code
/// the actor cannot intercept.
#[derive(Clone, Copy, PartialEq, Eq, Structural, Debug)]
pub enum SyscallFailure {
    Recoverable(ErrorNumber),
    Trap(ExitCode),
}

/// The policy table mapping each kernel error across the boundary.
/// User-correctable conditions never trap; budget exhaustion and host
/// invariant violations never come back catchable.
pub open spec fn spec_classify(e: KernelError) -> SyscallFailure {
    match e {
        KernelError::IllegalArgument => SyscallFailure::Recoverable(ErrorNumber::IllegalArgument),
        KernelError::Forbidden => SyscallFailure::Recoverable(ErrorNumber::Forbidden),
        KernelError::InsufficientFunds => SyscallFailure::Recoverable(
            ErrorNumber::InsufficientFunds,
        ),
        KernelError::NotFound => SyscallFailure::Recoverable(ErrorNumber::NotFound),
        KernelError::OutOfGas => SyscallFailure::Trap(ExitCode::OutOfGas),
        KernelError::Fatal => SyscallFailure::Trap(ExitCode::Fatal),
    }
}

/// Apply the policy table to a kernel result.
pub open spec fn spec_boundary(r: Result<(), KernelError>) -> Result<(), SyscallFailure> {
    match r {
        Ok(()) => Ok(()),
        Err(e) => Err(spec_classify(e)),
    }
}

/// Translate a kernel error across the boundary, per the policy table.
pub fn classify(e: KernelError) -> (r: SyscallFailure)
    ensures
        r == spec_classify(e),
{
    match e {
        KernelError::IllegalArgument => SyscallFailure::Recoverable(ErrorNumber::IllegalArgument),
        KernelError::Forbidden => SyscallFailure::Recoverable(ErrorNumber::Forbidden),
        KernelError::InsufficientFunds => SyscallFailure::Recoverable(
            ErrorNumber::InsufficientFunds,
        ),
        KernelError::NotFound => SyscallFailure::Recoverable(ErrorNumber::NotFound),
        KernelError::OutOfGas => SyscallFailure::Trap(ExitCode::OutOfGas),
        KernelError::Fatal => SyscallFailure::Trap(ExitCode::Fatal),
    }
}

/// The exit code a call ends with when its actor aborts on a catchable
/// error instead of handling it.
pub fn exit_code_of(f: SyscallFailure) -> (r: ExitCode)
    ensures
        r == spec_exit_code_of(f),
{
    match f {
        SyscallFailure::Recoverable(ErrorNumber::IllegalArgument) => ExitCode::IllegalArgument,
        SyscallFailure::Recoverable(ErrorNumber::Forbidden) => ExitCode::Forbidden,
        SyscallFailure::Recoverable(ErrorNumber::InsufficientFunds) => ExitCode::InsufficientFunds,
        SyscallFailure::Recoverable(ErrorNumber::NotFound) => ExitCode::IllegalArgument,
        SyscallFailure::Trap(code) => code,
    }
}

/// The exit code of each boundary failure, as a value.
pub open spec fn spec_exit_code_of(f: SyscallFailure) -> ExitCode {
    match f {
        SyscallFailure::Recoverable(ErrorNumber::IllegalArgument) => ExitCode::IllegalArgument,
        SyscallFailure::Recoverable(ErrorNumber::Forbidden) => ExitCode::Forbidden,
        SyscallFailure::Recoverable(ErrorNumber::InsufficientFunds) => ExitCode::InsufficientFunds,
        SyscallFailure::Recoverable(ErrorNumber::NotFound) => ExitCode::IllegalArgument,
        SyscallFailure::Trap(code) => code,
    }
}

/// Validate the caller, accepting any immediate caller.
pub fn validate_immediate_caller_accept_any(k: &mut Kernel) -> (r: Result<(), SyscallFailure>)
    ensures
        final(k).machine == old(k).machine,
        final(k).caller == old(k).caller,
        final(k).caller_code == old(k).caller_code,
        final(k).actor_id == old(k).actor_id,
        final(k).ledger.limit == old(k).ledger.limit,
        final(k).ledger.remaining <= old(k).ledger.remaining,
        old(k).wf() ==> final(k).wf(),
        (*final(k), r) == ({
            let (k2, kr) = old(k).spec_validate(true);
            (k2, spec_boundary(kr))
        }),
{
    match k.validate_immediate_caller_accept_any() {
        Ok(()) => Ok(()),
        Err(e) => Err(classify(e)),
    }
}

/// Validate the caller against an address list held in sandbox memory.
/// An out-of-bounds region or a malformed encoding fails with a catchable
/// IllegalArgument error, charges nothing, and never traps; a well-formed
/// list is decoded and forwarded to the kernel, whose outcome crosses the
/// boundary per the policy table.
pub fn validate_immediate_caller_addr_one_of(
    k: &mut Kernel,
    memory: &Memory,
    addrs_offset: u32,
    addrs_len: u32,
) -> (r: Result<(), SyscallFailure>)
    ensures
        final(k).machine == old(k).machine,
        final(k).caller == old(k).caller,
        final(k).caller_code == old(k).caller_code,
        final(k).actor_id == old(k).actor_id,
        final(k).ledger.limit == old(k).ledger.limit,
        final(k).ledger.remaining <= old(k).ledger.remaining,
        old(k).wf() ==> final(k).wf(),
        !memory.in_bounds(addrs_offset, addrs_len) ==> r == Err::<(), SyscallFailure>(
            SyscallFailure::Recoverable(ErrorNumber::IllegalArgument),
        ) && *final(k) == *old(k),
        memory.in_bounds(addrs_offset, addrs_len) && spec_decode_addresses(
            memory.region(addrs_offset, addrs_len),
        ) is None ==> r == Err::<(), SyscallFailure>(
            SyscallFailure::Recoverable(ErrorNumber::IllegalArgument),
        ) && *final(k) == *old(k),
        memory.in_bounds(addrs_offset, addrs_len) ==> (spec_decode_addresses(
            memory.region(addrs_offset, addrs_len),
        ) matches Some(s) ==> (*final(k), r) == ({
            let (k2, kr) = old(k).spec_validate(s.contains(old(k).caller));
            (k2, spec_boundary(kr))
        })),
{
    let bytes = match memory.try_slice(addrs_offset, addrs_len) {
        None => {
            return Err(SyscallFailure::Recoverable(ErrorNumber::IllegalArgument));
        },
        Some(b) => b,
    };
    let addrs = match from_slice_addresses(bytes.as_slice()) {
        None => {
            return Err(SyscallFailure::Recoverable(ErrorNumber::IllegalArgument));
        },
        Some(a) => a,
    };
    match k.validate_immediate_caller_addr_one_of(&addrs) {
        Ok(()) => Ok(()),
        Err(e) => Err(classify(e)),
    }
}

/// Validate the caller's code identifier against a list held in sandbox
/// memory.  Bounds, decoding and translation behave as for the address
/// variant.
pub fn validate_immediate_caller_type_one_of(
    k: &mut Kernel,
    memory: &Memory,
    cids_offset: u32,
    cids_len: u32,
) -> (r: Result<(), SyscallFailure>)
    ensures
        final(k).machine == old(k).machine,
        final(k).caller == old(k).caller,
        final(k).caller_code == old(k).caller_code,
        final(k).actor_id == old(k).actor_id,
        final(k).ledger.limit == old(k).ledger.limit,
        final(k).ledger.remaining <= old(k).ledger.remaining,
        old(k).wf() ==> final(k).wf(),
        !memory.in_bounds(cids_offset, cids_len) ==> r == Err::<(), SyscallFailure>(
            SyscallFailure::Recoverable(ErrorNumber::IllegalArgument),
        ) && *final(k) == *old(k),
        memory.in_bounds(cids_offset, cids_len) && spec_decode_cids(
            memory.region(cids_offset, cids_len),
        ) is None ==> r == Err::<(), SyscallFailure>(
            SyscallFailure::Recoverable(ErrorNumber::IllegalArgument),
        ) && *final(k) == *old(k),
        memory.in_bounds(cids_offset, cids_len) ==> (spec_decode_cids(
            memory.region(cids_offset, cids_len),
        ) matches Some(s) ==> (*final(k), r) == ({
            let (k2, kr) = old(k).spec_validate(s.contains(old(k).caller_code));
            (k2, spec_boundary(kr))
        })),
{
    let bytes = match memory.try_slice(cids_offset, cids_len) {
        None => {
            return Err(SyscallFailure::Recoverable(ErrorNumber::IllegalArgument));
        },
        Some(b) => b,
    };
    let cids = match from_slice_cids(bytes.as_slice()) {
        None => {
            return Err(SyscallFailure::Recoverable(ErrorNumber::IllegalArgument));
        },
        Some(c) => c,
    };
    match k.validate_immediate_caller_type_one_of(&cids) {
        Ok(()) => Ok(()),
        Err(e) => Err(classify(e)),
    }
}

} // verus!
