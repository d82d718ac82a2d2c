//! Progress of one conversion run: a counter of converted files against the
//! number of candidates, and the outcome computed from it.

use vstd::prelude::*;

verus! {

/// A progress fraction kept exact, as `numerator / denominator`.
#[derive(Clone, Copy, Debug, PartialEq, Eq)]
pub struct ProgressFraction {
    pub numerator: usize,
    pub denominator: usize,
}

impl ProgressFraction {
    /// A fraction lies in `[0, 1]` and never divides by zero.
    pub open spec fn is_proper(self) -> bool {
        0 < self.denominator && self.numerator <= self.denominator
    }

    /// Whether the fraction equals one.
    pub fn is_complete(&self) -> (done: bool)
        ensures
            done == (self.numerator == self.denominator),
    {
        self.numerator == self.denominator
    }
}

/// The fraction reported for `succeeded` files out of `total`: their quotient,
/// and one when there was nothing to do.
pub open spec fn fraction_of(succeeded: nat, total: nat) -> (nat, nat) {
    if total == 0 {
        (1, 1)
    } else {
        (succeeded, total)
    }
}

/// The counter after one more success: it moves up by one and stops at `total`.
pub open spec fn advanced(succeeded: nat, total: nat) -> nat {
    if succeeded < total {
        succeeded + 1
    } else {
        succeeded
    }
}

/// The number of successes seen once the per-file `results` have arrived in
/// this order, counted the way [`ConversionProgress::record_success`] counts.
pub open spec fn succeeded_after(total: nat, results: Seq<bool>) -> nat
    decreases results.len(),
{
    if results.len() == 0 {
        0
    } else if results.last() {
        advanced(succeeded_after(total, results.drop_last()), total)
    } else {
        succeeded_after(total, results.drop_last())
    }
}

/// What a finished run reports.
#[derive(Clone, Copy, Debug, PartialEq, Eq)]
pub struct ConversionOutcome {
    succeeded_count: usize,
    total_count: usize,
}

impl ConversionOutcome {
    #[verifier::type_invariant]
    spec fn bounded(self) -> bool {
        self.succeeded_count <= self.total_count
    }

    pub closed spec fn succeeded(self) -> nat {
        self.succeeded_count as nat
    }

    pub closed spec fn total(self) -> nat {
        self.total_count as nat
    }

    /// Number of files that were decoded, transformed and encoded.
    pub fn succeeded_count(&self) -> (n: usize)
        ensures
            n == self.succeeded(),
            n <= self.total(),
    {
        proof {
            use_type_invariant(self);
        }
        self.succeeded_count
    }

    /// Number of candidate files of the run.
    pub fn total_count(&self) -> (n: usize)
        ensures
            n == self.total(),
    {
        self.total_count
    }

    /// Number of candidates that were not converted.
    pub fn failed_count(&self) -> (n: usize)
        ensures
            n == self.total() - self.succeeded(),
    {
        proof {
            use_type_invariant(self);
        }
        self.total_count - self.succeeded_count
    }

    /// `succeeded / total`, or one for a run without candidates. The total is
    /// only ever the denominator when it is not zero.
    pub fn final_progress_fraction(&self) -> (f: ProgressFraction)
        ensures
            f.is_proper(),
            (f.numerator as nat, f.denominator as nat) == fraction_of(self.succeeded(), self.total()),
    {
        proof {
            use_type_invariant(self);
        }
        if self.total_count == 0 {
            ProgressFraction { numerator: 1, denominator: 1 }
        } else {
            ProgressFraction { numerator: self.succeeded_count, denominator: self.total_count }
        }
    }
}

/// The shared state of a run. It starts at zero, moves up by one for each
/// converted file and never passes the number of candidates.
#[derive(Debug)]
pub struct ConversionProgress {
    files_succeeded: usize,
    files_total: usize,
}

impl ConversionProgress {
    #[verifier::type_invariant]
    spec fn bounded(self) -> bool {
        self.files_succeeded <= self.files_total
    }

    pub closed spec fn succeeded(self) -> nat {
        self.files_succeeded as nat
    }

    pub closed spec fn total(self) -> nat {
        self.files_total as nat
    }

    /// The state at the start of a run over `files_total` candidates.
    pub fn new(files_total: usize) -> (p: Self)
        ensures
            p.succeeded() == 0,
            p.total() == files_total,
    {
        ConversionProgress { files_succeeded: 0, files_total }
    }

    /// Counts one converted file and returns the fraction to publish for it.
    /// The count never goes down and never passes the total; the total itself
    /// does not change.
    pub fn record_success(&mut self) -> (f: ProgressFraction)
        ensures
            final(self).total() == old(self).total(),
            final(self).succeeded() == advanced(old(self).succeeded(), old(self).total()),
            old(self).succeeded() <= final(self).succeeded() <= final(self).total(),
            f.is_proper(),
            (f.numerator as nat, f.denominator as nat) == fraction_of(
                final(self).succeeded(),
                final(self).total(),
            ),
    {
        proof {
            use_type_invariant(&*self);
        }
        if self.files_succeeded < self.files_total {
            self.files_succeeded = self.files_succeeded + 1;
        }
        self.fraction()
    }

    /// Files converted so far.
    pub fn files_succeeded(&self) -> (n: usize)
        ensures
            n == self.succeeded(),
            n <= self.total(),
    {
        proof {
            use_type_invariant(self);
        }
        self.files_succeeded
    }

    /// Candidates of the run.
    pub fn files_total(&self) -> (n: usize)
        ensures
            n == self.total(),
    {
        self.files_total
    }

    /// Whether every candidate has been converted.
    pub fn is_complete(&self) -> (done: bool)
        ensures
            done == (self.succeeded() == self.total()),
    {
        self.files_succeeded == self.files_total
    }

    /// The fraction to publish at this moment.
    pub fn fraction(&self) -> (f: ProgressFraction)
        ensures
            f.is_proper(),
            (f.numerator as nat, f.denominator as nat) == fraction_of(self.succeeded(), self.total()),
    {
        proof {
            use_type_invariant(self);
        }
        if self.files_total == 0 {
            ProgressFraction { numerator: 1, denominator: 1 }
        } else {
            ProgressFraction { numerator: self.files_succeeded, denominator: self.files_total }
        }
    }

    /// The outcome of the run as the counters stand.
    pub fn outcome(&self) -> (o: ConversionOutcome)
        ensures
            o.succeeded() == self.succeeded(),
            o.total() == self.total(),
    {
        proof {
            use_type_invariant(self);
        }
        ConversionOutcome { succeeded_count: self.files_succeeded, total_count: self.files_total }
    }
}

/// However the per-file results arrive, a later observation of the success
/// count is never below an earlier one.
pub proof fn lemma_succeeded_never_decreases(total: nat, results: Seq<bool>, i: int, j: int)
    requires
        0 <= i <= j <= results.len(),
    ensures
        succeeded_after(total, results.take(i)) <= succeeded_after(total, results.take(j)),
    decreases j - i,
{
    if i < j {
        lemma_succeeded_never_decreases(total, results, i, j - 1);
        assert(results.take(j).drop_last() == results.take(j - 1));
    }
}

/// At every observation the success count lies between zero and the total.
pub proof fn lemma_succeeded_within_total(total: nat, results: Seq<bool>)
    ensures
        0 <= succeeded_after(total, results) <= total,
    decreases results.len(),
{
    if results.len() > 0 {
        lemma_succeeded_within_total(total, results.drop_last());
    }
}

/// While no more results have arrived than there are candidates, the count is
/// the number of successes among them.
pub proof fn lemma_succeeded_counts_successes(total: nat, results: Seq<bool>)
    requires
        results.len() <= total,
    ensures
        succeeded_after(total, results) == results.filter(|converted: bool| converted).len(),
        succeeded_after(total, results) <= results.len(),
    decreases results.len(),
{
    reveal(Seq::filter);
    if results.len() > 0 {
        lemma_succeeded_counts_successes(total, results.drop_last());
    }
}

/// When every candidate converts, the success count ends at the total.
pub proof fn lemma_all_converted_reaches_total(total: nat, results: Seq<bool>)
    requires
        results.len() == total,
        forall|i: int| 0 <= i < results.len() ==> results[i],
    ensures
        succeeded_after(total, results) == total,
{
    lemma_all_converted_counts_all(total, results, results.len() as int);
    assert(results.take(results.len() as int) == results);
}

proof fn lemma_all_converted_counts_all(total: nat, results: Seq<bool>, k: int)
    requires
        0 <= k <= results.len() <= total,
        forall|i: int| 0 <= i < results.len() ==> results[i],
    ensures
        succeeded_after(total, results.take(k)) == k,
    decreases k,
{
    if k > 0 {
        lemma_all_converted_counts_all(total, results, k - 1);
        assert(results.take(k).drop_last() == results.take(k - 1));
    }
}

/// A run that has candidates reports the quotient of its two counts: the
/// fraction of a run without candidates is never computed from a zero total.
pub proof fn lemma_fraction_never_divides_by_zero(succeeded: nat, total: nat)
    requires
        succeeded <= total,
    ensures
        fraction_of(succeeded, total).1 > 0,
        fraction_of(succeeded, total).0 <= fraction_of(succeeded, total).1,
        total > 0 ==> fraction_of(succeeded, total) == (succeeded, total),
        total == 0 ==> fraction_of(succeeded, total) == (1nat, 1nat),
        succeeded == total ==> fraction_of(succeeded, total).0 == fraction_of(succeeded, total).1,
{
}

} // verus!
