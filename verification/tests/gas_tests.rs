//! Tests of the gas ledger: exact charge outcomes and the first-overdraft
//! behaviour.

use fvm::gas::GasLedger;
use fvm::types::KernelError;

#[test]
fn charges_fail_exactly_at_first_overdraft() {
    // charges summing past the opening balance fail at the first charge
    // that would overdraw, and the balance never goes negative
    let mut ledger = GasLedger::new(100);
    assert_eq!(ledger.charge(60), Ok(()));
    assert_eq!(ledger.remaining, 40);
    assert_eq!(ledger.charge(50), Err(KernelError::OutOfGas));
    assert_eq!(ledger.remaining, 40);
    assert_eq!(ledger.charge(40), Ok(()));
    assert_eq!(ledger.remaining, 0);
    assert_eq!(ledger.gas_used(), 100);
    assert_eq!(ledger.charge(1), Err(KernelError::OutOfGas));
    assert_eq!(ledger.remaining, 0);
}

#[test]
fn zero_charge_always_fits() {
    let mut ledger = GasLedger::new(0);
    assert_eq!(ledger.charge(0), Ok(()));
    assert_eq!(ledger.remaining, 0);
    assert_eq!(ledger.gas_used(), 0);
}

#[test]
fn full_budget_in_one_charge() {
    let mut ledger = GasLedger::new(77);
    assert_eq!(ledger.charge(77), Ok(()));
    assert_eq!(ledger.remaining, 0);
    assert_eq!(ledger.charge(1), Err(KernelError::OutOfGas));
}
