//! A whole run over a tree, as mathematics.
//!
//! The tree is taken as it was when the run began: every entry with what
//! reading it would give and whether removing it would work. The figures of a
//! run and the files it leaves behind are then functions of that snapshot,
//! built from the handling of single files and from the counting of outcomes.

use vstd::prelude::*;
use vstd::seq_lib::{
    lemma_multiset_commutative,
    to_multiset_contains,
    to_multiset_len,
    to_multiset_remove,
};
use crate::entry::{candidate, EntryView};
use crate::stats::{
    counts_of,
    law_deleted_within_total,
    law_order_is_irrelevant,
    law_streamed_counts,
    lemma_counts_push,
    streamed,
    Counts,
};
use crate::task::{handled, FileTask, Outcome};

verus! {

/// One entry of the tree at the start of a run.
pub struct FileSnapshot {
    pub entry: EntryView,
    /// What reading the file gives; `None` where it cannot be read.
    pub contents: Option<Seq<u8>>,
    /// Whether removing the file works.
    pub removable: bool,
}

/// Where the handling of the file ends.
pub open spec fn fate(file: FileSnapshot) -> FileTask {
    handled(file.entry, file.contents, file.removable)
}

/// The file is still there after the run.
pub open spec fn survives(file: FileSnapshot) -> bool {
    fate(file) != FileTask::Done(Outcome::Deleted)
}

/// The outcomes of a walk that meets the entries in the given order: one for
/// each candidate, none for any other entry.
pub open spec fn outcomes_of(walk: Seq<FileSnapshot>) -> Seq<Outcome>
    decreases walk.len(),
{
    if walk.len() == 0 {
        Seq::empty()
    } else {
        match fate(walk.last()) {
            FileTask::Done(outcome) => outcomes_of(walk.drop_last()).push(outcome),
            _ => outcomes_of(walk.drop_last()),
        }
    }
}

/// The candidates among the entries of a walk.
pub open spec fn candidates(walk: Seq<FileSnapshot>) -> Seq<FileSnapshot> {
    walk.filter(|file: FileSnapshot| candidate(file.entry))
}

/// The entries that a run leaves behind.
pub open spec fn survivors(walk: Seq<FileSnapshot>) -> Seq<FileSnapshot> {
    walk.filter(|file: FileSnapshot| survives(file))
}

/// The figures of a precomputed run: the total is the number of candidates
/// collected, the deletions are counted among their outcomes.
pub open spec fn precompute_run(walk: Seq<FileSnapshot>) -> Counts {
    Counts { total: candidates(walk).len(), deleted: counts_of(outcomes_of(walk)).deleted }
}

/// The figures of a streaming run: each outcome is counted as it arrives.
pub open spec fn streaming_run(walk: Seq<FileSnapshot>) -> Counts {
    streamed(outcomes_of(walk))
}

/// The outcomes of two stretches of a walk, one after the other.
pub proof fn lemma_outcomes_concat(a: Seq<FileSnapshot>, b: Seq<FileSnapshot>)
    ensures
        outcomes_of(a + b) == outcomes_of(a) + outcomes_of(b),
    decreases b.len(),
{
    if b.len() == 0 {
        assert(a + b =~= a);
        assert(outcomes_of(a) + outcomes_of(b) =~= outcomes_of(a));
    } else {
        lemma_outcomes_concat(a, b.drop_last());
        assert((a + b).drop_last() =~= a + b.drop_last());
        assert((a + b).last() == b.last());
        match fate(b.last()) {
            FileTask::Done(outcome) => {
                assert((outcomes_of(a) + outcomes_of(b.drop_last())).push(outcome) =~= outcomes_of(
                    a,
                ) + outcomes_of(b.drop_last()).push(outcome));
            },
            _ => {},
        }
    }
}

/// Every candidate is counted exactly once: a walk has as many outcomes as
/// candidates.
pub proof fn law_every_candidate_counted(walk: Seq<FileSnapshot>)
    ensures
        outcomes_of(walk).len() == candidates(walk).len(),
        precompute_run(walk) == counts_of(outcomes_of(walk)),
    decreases walk.len(),
{
    reveal(Seq::filter);
    if walk.len() > 0 {
        law_every_candidate_counted(walk.drop_last());
    }
}

/// Walks that meet the same entries, in whatever order, end in the same
/// outcomes, in whatever order.
pub proof fn lemma_outcomes_permuted(a: Seq<FileSnapshot>, b: Seq<FileSnapshot>)
    requires
        a.to_multiset() == b.to_multiset(),
    ensures
        outcomes_of(a).to_multiset() == outcomes_of(b).to_multiset(),
    decreases a.len(),
{
    to_multiset_len(a);
    to_multiset_len(b);
    if a.len() > 0 {
        let x = a.last();
        let a_rest = a.drop_last();
        assert(a.contains(x)) by {
            assert(a[a.len() - 1] == x);
        }
        to_multiset_contains(a, x);
        to_multiset_contains(b, x);
        let j = choose|j: int| 0 <= j < b.len() && b[j] == x;
        let b_rest = b.remove(j);
        assert(a_rest =~= a.remove(a.len() - 1));
        to_multiset_remove(a, a.len() - 1);
        to_multiset_remove(b, j);
        lemma_outcomes_permuted(a_rest, b_rest);

        let front = b.take(j);
        let back = b.skip(j + 1);
        let one = seq![x];
        assert(b =~= front + one + back);
        assert(b_rest =~= front + back);
        assert(a =~= a_rest + one);
        lemma_outcomes_concat(front, one);
        lemma_outcomes_concat(front + one, back);
        lemma_outcomes_concat(front, back);
        lemma_outcomes_concat(a_rest, one);
        lemma_multiset_commutative(outcomes_of(front), outcomes_of(one));
        lemma_multiset_commutative(outcomes_of(front) + outcomes_of(one), outcomes_of(back));
        lemma_multiset_commutative(outcomes_of(front), outcomes_of(back));
        lemma_multiset_commutative(outcomes_of(a_rest), outcomes_of(one));
        assert(outcomes_of(a).to_multiset() =~= outcomes_of(b).to_multiset());
    }
}

/// No run deletes more files than it considers, in either mode.
pub proof fn law_run_deletes_within_total(walk: Seq<FileSnapshot>)
    ensures
        precompute_run(walk).deleted <= precompute_run(walk).total,
        streaming_run(walk).deleted <= streaming_run(walk).total,
{
    law_every_candidate_counted(walk);
    law_deleted_within_total(outcomes_of(walk));
}

/// The two modes agree: on the same tree, a precomputed run and a streaming
/// run end with the same figures, also where their walks meet the entries in
/// different orders.
pub proof fn law_modes_agree_on_tree(precomputed: Seq<FileSnapshot>, streaming: Seq<FileSnapshot>)
    requires
        precomputed.to_multiset() == streaming.to_multiset(),
    ensures
        precompute_run(precomputed) == streaming_run(streaming),
{
    law_every_candidate_counted(precomputed);
    lemma_outcomes_permuted(precomputed, streaming);
    law_order_is_irrelevant(outcomes_of(precomputed), outcomes_of(streaming));
    law_streamed_counts(outcomes_of(streaming));
}

/// A run leaves a walk over files that all survive as it is.
pub proof fn lemma_all_survive(walk: Seq<FileSnapshot>)
    requires
        forall|i: int| 0 <= i < walk.len() ==> survives(#[trigger] walk[i]),
    ensures
        survivors(walk) == walk,
    decreases walk.len(),
{
    reveal(Seq::filter);
    if walk.len() > 0 {
        let rest = walk.drop_last();
        assert forall|i: int| 0 <= i < rest.len() implies survives(#[trigger] rest[i]) by {
            assert(rest[i] == walk[i]);
        }
        lemma_all_survive(rest);
        assert(survives(walk[walk.len() - 1]));
        assert(rest.push(walk.last()) =~= walk);
    }
}

/// A walk over files that all survive deletes nothing.
pub proof fn lemma_survivors_delete_nothing(walk: Seq<FileSnapshot>)
    requires
        forall|i: int| 0 <= i < walk.len() ==> survives(#[trigger] walk[i]),
    ensures
        counts_of(outcomes_of(walk)).deleted == 0,
    decreases walk.len(),
{
    if walk.len() == 0 {
        to_multiset_len(outcomes_of(walk));
    } else {
        let rest = walk.drop_last();
        assert forall|i: int| 0 <= i < rest.len() implies survives(#[trigger] rest[i]) by {
            assert(rest[i] == walk[i]);
        }
        lemma_survivors_delete_nothing(rest);
        assert(survives(walk[walk.len() - 1]));
        match fate(walk.last()) {
            FileTask::Done(outcome) => {
                lemma_counts_push(outcomes_of(rest), outcome);
            },
            _ => {},
        }
    }
}

/// What a run leaves behind: every entry that is no candidate, and every
/// candidate but the deleted ones. So the candidates of a second run are
/// those of the first less its deletions.
pub proof fn lemma_survivors_candidates(walk: Seq<FileSnapshot>)
    ensures
        candidates(survivors(walk)).len() + counts_of(outcomes_of(walk)).deleted == candidates(
            walk,
        ).len(),
    decreases walk.len(),
{
    reveal(Seq::filter);
    if walk.len() == 0 {
        to_multiset_len(outcomes_of(walk));
    } else {
        let rest = walk.drop_last();
        lemma_survivors_candidates(rest);
        match fate(walk.last()) {
            FileTask::Done(outcome) => {
                lemma_counts_push(outcomes_of(rest), outcome);
            },
            _ => {},
        }
        if survives(walk.last()) {
            assert(survivors(walk) == survivors(rest).push(walk.last()));
            assert(survivors(walk).drop_last() =~= survivors(rest));
        }
    }
}

/// A second run deletes nothing: on the entries that a run leaves behind,
/// with contents and permissions as they were, a run in either mode ends with
/// zero deletions and leaves every entry where it is. It considers the
/// candidates that the first run did not delete.
pub proof fn law_second_run_deletes_nothing(walk: Seq<FileSnapshot>)
    ensures
        precompute_run(survivors(walk)).deleted == 0,
        streaming_run(survivors(walk)).deleted == 0,
        survivors(survivors(walk)) == survivors(walk),
        streaming_run(survivors(walk)).total == streaming_run(walk).total - streaming_run(
            walk,
        ).deleted,
{
    let left = survivors(walk);
    assert forall|i: int| 0 <= i < left.len() implies survives(#[trigger] left[i]) by {
        walk.lemma_filter_pred(|file: FileSnapshot| survives(file), i);
    }
    lemma_survivors_delete_nothing(left);
    lemma_all_survive(left);
    lemma_survivors_candidates(walk);
    law_every_candidate_counted(walk);
    law_every_candidate_counted(left);
    law_streamed_counts(outcomes_of(left));
    law_streamed_counts(outcomes_of(walk));
}

} // verus!
