//! An actor-execution kernel for a blockchain virtual machine.
//!
//! Externally supplied messages are applied to a state tree by running
//! sandboxed actor code against a capability-restricted host interface.
//! Every unit of computation is metered against a gas budget, every host
//! interaction crosses a validating syscall boundary, and an optional trace
//! ledger records timestamped consumption spans for diagnostics.

pub mod types;
pub mod gas;
pub mod tracer;
pub mod codec;
pub mod machine;
pub mod kernel;
pub mod syscalls;
pub mod executor;
