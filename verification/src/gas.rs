//! The gas ledger: the authoritative remaining-gas counter of one call
//! frame.  Charges either succeed in full or leave the counter untouched and
//! abort the call with `OutOfGas`; the counter never goes negative.

use vstd::prelude::*;

use crate::types::KernelError;

verus! {

/// The remaining-gas counter of one call frame.  It is owned by the frame and
/// handed by reference into nested calls, never duplicated: a copy would let
/// a nested call spend gas invisibly to its parent.
#[derive(Clone, Copy, PartialEq, Eq, Structural, Debug)]
pub struct GasLedger {
    /// The budget this frame started with.
    pub limit: u64,
    /// Gas still available; decreases monotonically, never below zero.
    pub remaining: u64,
}

/// The sum of a sequence of charge amounts.
pub open spec fn sum_of(s: Seq<u64>) -> int
    decreases s.len(),
{
    if s.len() == 0 {
        0
    } else {
        sum_of(s.drop_last()) + s.last()
    }
}

impl GasLedger {
    /// A ledger is well formed when it has spent no more than its budget.
    pub open spec fn wf(self) -> bool {
        self.remaining <= self.limit
    }

    /// What `charge` does, as a value: the ledger after the charge, and
    /// whether the charge fits the remaining budget.
    pub open spec fn spec_charge(self, amount: u64) -> (GasLedger, bool) {
        if amount <= self.remaining {
            (GasLedger { limit: self.limit, remaining: (self.remaining - amount) as u64 }, true)
        } else {
            (self, false)
        }
    }

    /// A fresh ledger holding the whole budget of one call frame.
    pub fn new(limit: u64) -> (r: GasLedger)
        ensures
            r.limit == limit,
            r.remaining == limit,
            r.wf(),
    {
        GasLedger { limit, remaining: limit }
    }

    /// Deduct `amount` from the remaining gas.  The charge either fully
    /// succeeds or fails with `OutOfGas` and leaves the counter untouched;
    /// the counter never goes negative.
    pub fn charge(&mut self, amount: u64) -> (r: Result<(), KernelError>)
        ensures
            (*final(self), r is Ok) == old(self).spec_charge(amount),
            r is Ok <==> amount <= old(self).remaining,
            r is Ok ==> final(self).remaining == old(self).remaining - amount,
            r is Err ==> r == Err::<(), KernelError>(KernelError::OutOfGas) && *final(self) == *old(self),
            final(self).limit == old(self).limit,
            old(self).wf() ==> final(self).wf(),
    {
        if amount <= self.remaining {
            self.remaining = self.remaining - amount;
            Ok(())
        } else {
            Err(KernelError::OutOfGas)
        }
    }

    /// Gas consumed so far by this frame.
    pub fn gas_used(&self) -> (r: u64)
        requires
            self.wf(),
        ensures
            r == self.limit - self.remaining,
    {
        self.limit - self.remaining
    }
}

/// The ledger after a sequence of charges that all fit the budget.
pub open spec fn ledger_after(limit: u64, charges: Seq<u64>) -> GasLedger {
    GasLedger { limit, remaining: (limit - sum_of(charges)) as u64 }
}

proof fn lemma_sum_take_succ(s: Seq<u64>, i: int)
    requires
        0 <= i < s.len(),
    ensures
        sum_of(s.take(i + 1)) == sum_of(s.take(i)) + s[i],
    decreases s.len(),
{
    let t = s.take(i + 1);
    assert(t.drop_last() =~= s.take(i));
    assert(t.last() == s[i]);
}

/// Each charge amount is non-negative, so prefix sums are monotone.
proof fn lemma_sum_take_mono(s: Seq<u64>, i: int, j: int)
    requires
        0 <= i <= j <= s.len(),
    ensures
        sum_of(s.take(i)) <= sum_of(s.take(j)),
    decreases j - i,
{
    if i < j {
        lemma_sum_take_mono(s, i, j - 1);
        lemma_sum_take_succ(s, j - 1);
    }
}

proof fn lemma_first_overdraft_from(limit: u64, charges: Seq<u64>, k: int)
    requires
        0 <= k <= charges.len(),
        sum_of(charges.take(k)) <= limit,
        sum_of(charges) > limit,
    ensures
        exists|i: int|
            0 <= i < charges.len() && #[trigger] sum_of(charges.take(i)) <= limit && sum_of(
                charges.take(i + 1),
            ) > limit,
    decreases charges.len() - k,
{
    assert(charges.take(charges.len() as int) =~= charges);
    if k == charges.len() {
        assert(false);
    } else if sum_of(charges.take(k + 1)) > limit {
        assert(sum_of(charges.take(k)) <= limit && sum_of(charges.take(k + 1)) > limit);
    } else {
        lemma_first_overdraft_from(limit, charges, k + 1);
    }
}

/// Law: charging amounts that in total exceed the opening balance fails
/// exactly at the first charge whose running total would overdraw the
/// ledger.  Every charge before that point succeeds and leaves a
/// non-negative balance; the failing charge leaves the ledger untouched, so
/// no partial or negative balance is ever observable.
pub proof fn lemma_first_overdraft(limit: u64, charges: Seq<u64>)
    requires
        sum_of(charges) > limit,
    ensures
        exists|i: int|
            {
                &&& 0 <= i < charges.len()
                &&& #[trigger] sum_of(charges.take(i)) <= limit
                &&& sum_of(charges.take(i + 1)) > limit
                &&& forall|j: int|
                    0 <= j <= i ==> #[trigger] sum_of(charges.take(j)) <= limit && ledger_after(
                        limit,
                        charges.take(j),
                    ).wf()
                &&& ledger_after(limit, charges.take(i)).spec_charge(charges[i]).1 == false
            },
{
    assert(charges.take(0) =~= Seq::<u64>::empty());
    lemma_first_overdraft_from(limit, charges, 0);
    let i = choose|i: int|
        0 <= i < charges.len() && #[trigger] sum_of(charges.take(i)) <= limit && sum_of(
            charges.take(i + 1),
        ) > limit;
    assert forall|j: int| 0 <= j <= i implies #[trigger] sum_of(charges.take(j)) <= limit
        && ledger_after(limit, charges.take(j)).wf() by {
        lemma_sum_take_mono(charges, j, i);
        lemma_sum_take_mono(charges, 0, j);
        assert(charges.take(0) =~= Seq::<u64>::empty());
    }
    lemma_sum_take_succ(charges, i);
    lemma_sum_take_mono(charges, 0, i);
    assert(ledger_after(limit, charges.take(i)).spec_charge(charges[i]).1 == false);
}

} // verus!
