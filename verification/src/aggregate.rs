//! The progress aggregator.
//!
//! One task owns an `Aggregator`: each poll drains every file's total and
//! bytes-read channel without blocking, folds what arrived into two running
//! sums, and decides what to report. A file's total is counted once; for
//! bytes read, the latest cumulative value per file is tracked, so a stale
//! or repeated delivery never double-counts and the reported figure never
//! goes backwards.

use vstd::arithmetic::div_mod::{lemma_div_is_ordered, lemma_multiply_divide_lt};
use vstd::arithmetic::mul::{lemma_mul_inequality, lemma_mul_strict_inequality};
use vstd::prelude::*;

use crate::{sat_add, saturating_add_usize};

verus! {

#[verifier::external_type_specification]
#[verifier::external_body]
#[verifier::reject_recursive_types(T)]
pub struct ExBroadcastReceiver<T>(tokio::sync::broadcast::Receiver<T>);

/// Relies on `tokio::sync::broadcast::Receiver::try_recv`: it never blocks,
/// and what it returns depends on concurrent sender state, so nothing is
/// claimed of the value; an empty, lagged or closed channel reports as
/// `None`. Only the addressed receiver is touched.
#[verifier::external_body]
fn try_recv_at(rxs: &mut Vec<tokio::sync::broadcast::Receiver<usize>>, i: usize) -> (r: Option<
    usize,
>)
    requires
        i < old(rxs)@.len(),
    ensures
        final(rxs)@.len() == old(rxs)@.len(),
{
    match rxs[i].try_recv() {
        Ok(v) => Some(v),
        Err(_) => None,
    }
}

/// What one poll of the aggregator asks the caller to do.
#[derive(Clone, Copy, PartialEq, Eq, Structural, Debug)]
pub enum PollAction {
    /// No total is known yet: report nothing and poll again.
    Quiet,
    /// Report this many hundredths of a percent complete.
    Report(u64),
    /// Everything read: report exactly 100% once and stop polling.
    Done,
}

/// Percent complete in hundredths, as exact integer arithmetic.
pub open spec fn percent_hundredths(read: int, total: int) -> int
    recommends
        total > 0,
{
    read * 10000 / total
}

/// What the aggregator reports for given sums: nothing while no total is
/// known, completion once the bytes read reach the total, and the exact
/// percentage in hundredths otherwise.
pub open spec fn decide(read: nat, total: nat) -> PollAction {
    if total == 0 {
        PollAction::Quiet
    } else if read >= total {
        PollAction::Done
    } else {
        PollAction::Report(percent_hundredths(read as int, total as int) as u64)
    }
}

/// The exact percentage in hundredths, proved below 100% while reading is
/// incomplete.
fn compute_percent(read: usize, total: usize) -> (r: u64)
    requires
        0 < total,
        read < total,
    ensures
        r == percent_hundredths(read as int, total as int),
        r < 10000,
{
    proof {
        assert((read as u128) * 10000 < (total as u128) * 10000) by {
            lemma_mul_strict_inequality(read as int, total as int, 10000);
        }
        assert((total as u128) * 10000 <= u128::MAX) by (nonlinear_arith)
            requires
                total as u128 <= u64::MAX as u128,
        ;
        lemma_multiply_divide_lt((read as int) * 10000, total as int, 10000);
        assert((total as int) * 10000 == 10000 * (total as int)) by (nonlinear_arith);
    }
    let r = ((read as u128) * 10000) / (total as u128);
    r as u64
}

/// Law: with the totals settled, the reported progress never decreases as
/// more bytes are read, never falls from a non-zero value back to zero, a
/// finished report stays finished, and a percentage report always stands
/// strictly below 100%.
pub proof fn lemma_progress_monotone(read1: nat, read2: nat, total: nat)
    requires
        0 < total,
        read1 <= read2,
    ensures
        percent_hundredths(read1 as int, total as int) <= percent_hundredths(
            read2 as int,
            total as int,
        ),
        percent_hundredths(read1 as int, total as int) > 0 ==> percent_hundredths(
            read2 as int,
            total as int,
        ) > 0,
        decide(read1, total) == PollAction::Done ==> decide(read2, total) == PollAction::Done,
        decide(read2, total) matches PollAction::Report(p) ==> p < 10000,
{
    lemma_mul_inequality(read1 as int, read2 as int, 10000);
    lemma_div_is_ordered((read1 as int) * 10000, (read2 as int) * 10000, total as int);
    if read2 < total {
        assert((read2 as int) * 10000 < (total as int) * 10000) by {
            lemma_mul_strict_inequality(read2 as int, total as int, 10000);
        }
        lemma_multiply_divide_lt((read2 as int) * 10000, total as int, 10000);
        assert((total as int) * 10000 == 10000 * (total as int)) by (nonlinear_arith);
        assert(percent_hundredths(read2 as int, total as int) >= 0) by {
            lemma_div_is_ordered(0, (read2 as int) * 10000, total as int);
            lemma_mul_inequality(0, read2 as int, 10000);
        }
    }
}

/// The aggregate progress state: the per-file channels, which files have
/// contributed a total, the latest cumulative bytes-read value per file,
/// and the two running sums.
pub struct Aggregator {
    total_rxs: Vec<tokio::sync::broadcast::Receiver<usize>>,
    read_rxs: Vec<tokio::sync::broadcast::Receiver<usize>>,
    totals_seen: Vec<bool>,
    latest: Vec<usize>,
    total_sum: usize,
    read_sum: usize,
}

impl Aggregator {
    /// The bookkeeping matches the number of files.
    pub closed spec fn wf(&self) -> bool {
        &&& self.read_rxs@.len() == self.total_rxs@.len()
        &&& self.totals_seen@.len() == self.total_rxs@.len()
        &&& self.latest@.len() == self.total_rxs@.len()
    }

    /// How many files are being watched.
    pub closed spec fn files(&self) -> nat {
        self.total_rxs@.len()
    }

    /// Sum of the totals announced so far.
    pub closed spec fn total(&self) -> nat {
        self.total_sum as nat
    }

    /// Sum of the latest cumulative bytes-read values.
    pub closed spec fn read(&self) -> nat {
        self.read_sum as nat
    }

    /// The latest cumulative bytes-read value seen for one file.
    pub closed spec fn latest_at(&self, i: int) -> nat {
        self.latest@[i] as nat
    }

    /// Whether a file's total has been counted already.
    pub closed spec fn total_seen(&self, i: int) -> bool {
        self.totals_seen@[i]
    }

    /// A fresh aggregator over one total and one bytes-read channel per
    /// file, with both sums at zero.
    pub fn new(
        total_rxs: Vec<tokio::sync::broadcast::Receiver<usize>>,
        read_rxs: Vec<tokio::sync::broadcast::Receiver<usize>>,
    ) -> (r: Aggregator)
        requires
            total_rxs@.len() == read_rxs@.len(),
        ensures
            r.wf(),
            r.files() == total_rxs@.len(),
            r.total() == 0,
            r.read() == 0,
    {
        let n = total_rxs.len();
        let totals_seen = vec![false; n];
        let latest = vec![0usize; n];
        Aggregator { total_rxs, read_rxs, totals_seen, latest, total_sum: 0, read_sum: 0 }
    }

    /// Fold one announced total in. Each file's total counts once: a repeat
    /// delivery changes nothing.
    pub fn note_total(&mut self, i: usize, t: usize)
        requires
            old(self).wf(),
            i < old(self).files(),
        ensures
            final(self).wf(),
            final(self).files() == old(self).files(),
            final(self).read() == old(self).read(),
            old(self).total_seen(i as int) ==> final(self).total() == old(self).total(),
            !old(self).total_seen(i as int) ==> final(self).total() == sat_add(
                old(self).total(),
                t as nat,
            ),
            final(self).total() >= old(self).total(),
    {
        if !self.totals_seen[i] {
            self.totals_seen[i] = true;
            self.total_sum = saturating_add_usize(self.total_sum, t);
        }
    }

    /// Fold one cumulative bytes-read delivery in. Only growth beyond the
    /// latest value seen for that file counts, so a stale or repeated value
    /// contributes nothing and the running sum never decreases.
    pub fn note_read(&mut self, i: usize, v: usize)
        requires
            old(self).wf(),
            i < old(self).files(),
        ensures
            final(self).wf(),
            final(self).files() == old(self).files(),
            final(self).total() == old(self).total(),
            v <= old(self).latest_at(i as int) ==> final(self).read() == old(self).read(),
            v > old(self).latest_at(i as int) ==> final(self).read() == sat_add(
                old(self).read(),
                (v - old(self).latest_at(i as int)) as nat,
            ),
            final(self).read() >= old(self).read(),
    {
        let seen = self.latest[i];
        if v > seen {
            self.latest[i] = v;
            self.read_sum = saturating_add_usize(self.read_sum, v - seen);
        }
    }

    /// What the current sums call for, exactly `decide`.
    fn decide_now(&self) -> (r: PollAction)
        ensures
            r == decide(self.read(), self.total()),
    {
        if self.total_sum == 0 {
            PollAction::Quiet
        } else if self.read_sum >= self.total_sum {
            PollAction::Done
        } else {
            let p = compute_percent(self.read_sum, self.total_sum);
            PollAction::Report(p)
        }
    }

    /// One non-blocking round over every file's channels: drain what has
    /// arrived, fold it in, and decide. Both sums only ever grow, and the
    /// decision is exactly `decide` on the new sums.
    pub fn poll(&mut self) -> (r: PollAction)
        requires
            old(self).wf(),
        ensures
            final(self).wf(),
            final(self).files() == old(self).files(),
            final(self).total() >= old(self).total(),
            final(self).read() >= old(self).read(),
            r == decide(final(self).read(), final(self).total()),
    {
        let n = self.total_rxs.len();
        let mut i: usize = 0;
        while i < n
            invariant
                self.wf(),
                n == self.files(),
                self.files() == old(self).files(),
                self.total() >= old(self).total(),
                self.read() >= old(self).read(),
            decreases n - i,
        {
            match try_recv_at(&mut self.total_rxs, i) {
                Some(t) => self.note_total(i, t),
                None => {},
            }
            i += 1;
        }
        let mut j: usize = 0;
        while j < n
            invariant
                self.wf(),
                n == self.files(),
                self.files() == old(self).files(),
                self.total() >= old(self).total(),
                self.read() >= old(self).read(),
            decreases n - j,
        {
            match try_recv_at(&mut self.read_rxs, j) {
                Some(v) => self.note_read(j, v),
                None => {},
            }
            j += 1;
        }
        self.decide_now()
    }
}

} // verus!
