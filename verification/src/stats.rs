//! The figures of a run: how many files were considered and how many deleted.
//!
//! Outcomes are counted in two ways, one for each mode. A precomputed run
//! knows the number of candidates before it handles the first and then counts
//! deletions; a streaming run counts one file at a time, and parts counted
//! apart are merged. Both come to the same figures, in whatever order the
//! outcomes arrive.

use vstd::prelude::*;
use vstd::seq_lib::{lemma_multiset_commutative, to_multiset_build, to_multiset_len};
use crate::cli::RunMode;
use crate::task::Outcome;

verus! {

/// The figures of a run as numbers without bound.
pub struct Counts {
    pub total: nat,
    pub deleted: nat,
}

/// The figures before any file was handled.
pub open spec fn zero() -> Counts {
    Counts { total: 0, deleted: 0 }
}

/// The figures after one more outcome: the file was considered, and deleted
/// if the outcome says so.
pub open spec fn recorded(counts: Counts, outcome: Outcome) -> Counts {
    Counts {
        total: counts.total + 1,
        deleted: if outcome == Outcome::Deleted {
            counts.deleted + 1
        } else {
            counts.deleted
        },
    }
}

/// The figures of two parts of a run taken together.
pub open spec fn merged(a: Counts, b: Counts) -> Counts {
    Counts { total: a.total + b.total, deleted: a.deleted + b.deleted }
}

/// The figures of a run with the given outcomes: every outcome is one file
/// considered, every `Deleted` among them one file deleted.
pub open spec fn counts_of(outcomes: Seq<Outcome>) -> Counts {
    Counts { total: outcomes.len(), deleted: outcomes.to_multiset().count(Outcome::Deleted) }
}

/// The figures that counting one outcome after the other arrives at.
pub open spec fn streamed(outcomes: Seq<Outcome>) -> Counts
    decreases outcomes.len(),
{
    if outcomes.len() == 0 {
        zero()
    } else {
        recorded(streamed(outcomes.drop_last()), outcomes.last())
    }
}

/// One more outcome at the end changes the figures as recording it does.
pub proof fn lemma_counts_push(outcomes: Seq<Outcome>, outcome: Outcome)
    ensures
        counts_of(outcomes.push(outcome)) == recorded(counts_of(outcomes), outcome),
{
    to_multiset_build(outcomes, outcome);
}

/// Counting one by one gives the figures of the run.
pub proof fn law_streamed_counts(outcomes: Seq<Outcome>)
    ensures
        streamed(outcomes) == counts_of(outcomes),
    decreases outcomes.len(),
{
    if outcomes.len() == 0 {
        assert(outcomes.to_multiset().count(Outcome::Deleted) == 0) by {
            to_multiset_len(outcomes);
        }
    } else {
        law_streamed_counts(outcomes.drop_last());
        lemma_counts_push(outcomes.drop_last(), outcomes.last());
        assert(outcomes.drop_last().push(outcomes.last()) =~= outcomes);
    }
}

/// No run deletes more files than it considers.
pub proof fn law_deleted_within_total(outcomes: Seq<Outcome>)
    ensures
        counts_of(outcomes).deleted <= counts_of(outcomes).total,
        streamed(outcomes).deleted <= streamed(outcomes).total,
    decreases outcomes.len(),
{
    law_streamed_counts(outcomes);
    if outcomes.len() > 0 {
        law_deleted_within_total(outcomes.drop_last());
        law_streamed_counts(outcomes.drop_last());
    }
}

/// The order in which files are handled does not matter: the same outcomes
/// in another order give the same figures.
pub proof fn law_order_is_irrelevant(a: Seq<Outcome>, b: Seq<Outcome>)
    requires
        a.to_multiset() == b.to_multiset(),
    ensures
        counts_of(a) == counts_of(b),
{
    to_multiset_len(a);
    to_multiset_len(b);
}

/// Parts of a run that are counted apart and merged give the figures of the
/// whole.
pub proof fn law_merge_counts(a: Seq<Outcome>, b: Seq<Outcome>)
    ensures
        counts_of(a + b) == merged(counts_of(a), counts_of(b)),
{
    lemma_multiset_commutative(a, b);
}

/// The two modes agree: counting the candidates up front and then the
/// deletions among them gives the figures that counting file by file gives,
/// also where the two runs handle the files in different orders.
pub proof fn law_modes_agree(precomputed: Seq<Outcome>, streaming: Seq<Outcome>)
    requires
        precomputed.to_multiset() == streaming.to_multiset(),
    ensures
        counts_of(precomputed) == streamed(streaming),
{
    law_order_is_irrelevant(precomputed, streaming);
    law_streamed_counts(streaming);
}

/// The counters of a run. The number of deleted files never exceeds the
/// number of files considered.
#[derive(Clone, Copy, Debug, PartialEq, Eq)]
pub struct RunStatistics {
    total_considered: usize,
    deleted_count: usize,
}

impl View for RunStatistics {
    type V = Counts;

    closed spec fn view(&self) -> Counts {
        Counts { total: self.total_considered as nat, deleted: self.deleted_count as nat }
    }
}

impl RunStatistics {
    #[verifier::type_invariant]
    spec fn consistent(self) -> bool {
        self.deleted_count <= self.total_considered
    }

    /// The counters of a run that has handled nothing yet.
    pub fn new() -> (stats: RunStatistics)
        ensures
            stats@ == zero(),
    {
        RunStatistics { total_considered: 0, deleted_count: 0 }
    }

    /// The number of files considered.
    pub fn total_considered(&self) -> (total: usize)
        ensures
            total == self@.total,
    {
        self.total_considered
    }

    /// The number of files deleted, which is at most the number considered.
    pub fn deleted_count(&self) -> (deleted: usize)
        ensures
            deleted == self@.deleted,
            deleted <= self@.total,
    {
        proof {
            use_type_invariant(self);
        }
        self.deleted_count
    }

    /// Counts one outcome: one more file considered, and one more deleted if
    /// the outcome is `Deleted`.
    pub fn record(&mut self, outcome: Outcome)
        requires
            old(self)@.total < usize::MAX,
        ensures
            final(self)@ == recorded(old(self)@, outcome),
            final(self)@.deleted <= final(self)@.total,
    {
        proof {
            use_type_invariant(&*self);
        }
        let deleted = match outcome {
            Outcome::Deleted => self.deleted_count + 1,
            _ => self.deleted_count,
        };
        *self = RunStatistics { total_considered: self.total_considered + 1, deleted_count: deleted };
    }

    /// The counters of two parts of a run taken together.
    pub fn merge(self, other: RunStatistics) -> (sum: RunStatistics)
        requires
            self@.total + other@.total <= usize::MAX,
        ensures
            sum@ == merged(self@, other@),
            sum@.deleted <= sum@.total,
    {
        proof {
            use_type_invariant(&self);
            use_type_invariant(&other);
        }
        RunStatistics {
            total_considered: self.total_considered + other.total_considered,
            deleted_count: self.deleted_count + other.deleted_count,
        }
    }

    /// The deleted files as a share of the files considered, as numerator and
    /// denominator; `None` for a run that considered no file, whose share
    /// counts as zero.
    pub fn deleted_share(&self) -> (share: Option<(usize, usize)>)
        ensures
            share is None <==> self@.total == 0,
            share matches Some((deleted, total)) ==> {
                &&& deleted == self@.deleted
                &&& total == self@.total
                &&& deleted <= total
            },
    {
        proof {
            use_type_invariant(self);
        }
        if self.total_considered == 0 {
            None
        } else {
            Some((self.deleted_count, self.total_considered))
        }
    }
}

/// Counts the outcomes of candidates that were all collected beforehand: the
/// total is their number, known at once, and the deletions are counted after.
pub fn tally_precomputed(outcomes: &[Outcome]) -> (stats: RunStatistics)
    ensures
        stats@ == counts_of(outcomes@),
        stats@.deleted <= stats@.total,
{
    let total = outcomes.len();
    let mut deleted: usize = 0;
    let mut i: usize = 0;
    proof {
        law_streamed_counts(outcomes@.take(0));
    }
    while i < total
        invariant
            i <= total,
            total == outcomes.len(),
            deleted == counts_of(outcomes@.take(i as int)).deleted,
            deleted <= i,
        decreases total - i,
    {
        proof {
            lemma_counts_push(outcomes@.take(i as int), outcomes[i as int]);
            assert(outcomes@.take(i as int).push(outcomes[i as int]) =~= outcomes@.take(i + 1));
        }
        if outcomes[i] == Outcome::Deleted {
            deleted += 1;
        }
        i += 1;
    }
    assert(outcomes@.take(total as int) =~= outcomes@);
    RunStatistics { total_considered: total, deleted_count: deleted }
}

/// Counts outcomes one after the other, as they arrive.
pub fn tally_streaming(outcomes: &[Outcome]) -> (stats: RunStatistics)
    ensures
        stats@ == streamed(outcomes@),
        stats@ == counts_of(outcomes@),
        stats@.deleted <= stats@.total,
{
    let mut stats = RunStatistics::new();
    let mut i: usize = 0;
    while i < outcomes.len()
        invariant
            i <= outcomes.len(),
            stats@ == streamed(outcomes@.take(i as int)),
            stats@.total == i,
            stats@.deleted <= stats@.total,
        decreases outcomes.len() - i,
    {
        proof {
            assert(outcomes@.take(i + 1).drop_last() =~= outcomes@.take(i as int));
        }
        stats.record(outcomes[i]);
        i += 1;
    }
    proof {
        assert(outcomes@.take(outcomes.len() as int) =~= outcomes@);
        law_streamed_counts(outcomes@);
    }
    stats
}

/// The figures of a run in the given mode. The mode decides how the outcomes
/// are counted, not what the count is.
pub fn tally(mode: RunMode, outcomes: &[Outcome]) -> (stats: RunStatistics)
    ensures
        stats@ == counts_of(outcomes@),
        stats@.deleted <= stats@.total,
{
    match mode {
        RunMode::Precompute => tally_precomputed(outcomes),
        RunMode::Streaming => tally_streaming(outcomes),
    }
}

} // verus!
