//! A run as a whole, as a mathematical model: what it counts and which files
//! it writes into the destination, given the listing of the source directory
//! and the bytes of its entries. Reading and writing are taken to succeed.

use vstd::prelude::*;
use crate::convert::conversion_of;
use crate::pipeline::{lemma_candidate_positions, planned_jobs, PlannedJob};
use crate::progress::{
    lemma_all_converted_reaches_total,
    lemma_succeeded_within_total,
    succeeded_after,
};
use crate::scan::{candidate_name, candidate_positions};

verus! {

/// Whether the file of a job converts, `contents` giving the bytes of each
/// entry of the listing.
pub open spec fn converts(job: PlannedJob, contents: Seq<Seq<u8>>) -> bool {
    conversion_of(contents[job.source_index]) is Ok
}

/// The number of files that a run over these jobs counts as converted.
pub open spec fn converted_count(jobs: Seq<PlannedJob>, contents: Seq<Seq<u8>>) -> nat {
    succeeded_after(jobs.len(), Seq::new(jobs.len(), |k: int| converts(jobs[k], contents)))
}

/// The names of the files that a run writes: the output names of the jobs
/// whose file converts.
pub open spec fn written_names(jobs: Seq<PlannedJob>, contents: Seq<Seq<u8>>) -> Set<Seq<char>> {
    Set::new(
        |name: Seq<char>|
            exists|k: int|
                0 <= k < jobs.len() && converts(#[trigger] jobs[k], contents) && jobs[k].output_name
                    == name,
    )
}

/// The names in the destination directory after a run, from those before it.
pub open spec fn destination_after(
    before: Set<Seq<char>>,
    jobs: Seq<PlannedJob>,
    contents: Seq<Seq<u8>>,
) -> Set<Seq<char>> {
    before.union(written_names(jobs, contents))
}

/// A run never counts more converted files than it has jobs, and it counts
/// all of them when every file converts.
pub proof fn lemma_converted_count_within_jobs(jobs: Seq<PlannedJob>, contents: Seq<Seq<u8>>)
    ensures
        0 <= converted_count(jobs, contents) <= jobs.len(),
        (forall|k: int| 0 <= k < jobs.len() ==> converts(#[trigger] jobs[k], contents))
            ==> converted_count(jobs, contents) == jobs.len(),
{
    let results = Seq::new(jobs.len(), |k: int| converts(jobs[k], contents));
    lemma_succeeded_within_total(jobs.len(), results);
    if forall|k: int| 0 <= k < jobs.len() ==> converts(#[trigger] jobs[k], contents) {
        lemma_all_converted_reaches_total(jobs.len(), results);
    }
}

/// Entries without a supported extension, listed after the others, change
/// nothing in the plan.
pub proof fn lemma_other_entries_change_no_plan(names: Seq<Seq<char>>, others: Seq<Seq<char>>)
    requires
        forall|i: int| 0 <= i < others.len() ==> !candidate_name(#[trigger] others[i]),
    ensures
        candidate_positions(names + others) == candidate_positions(names),
        planned_jobs(names + others) == planned_jobs(names),
    decreases others.len(),
{
    if others.len() == 0 {
        assert(names + others == names);
    } else {
        let front = others.drop_last();
        assert forall|i: int| 0 <= i < front.len() implies !candidate_name(#[trigger] front[i]) by {
            assert(front[i] == others[i]);
        }
        lemma_other_entries_change_no_plan(names, front);
        assert((names + others).drop_last() == names + front);
        assert((names + others).last() == others[others.len() - 1]);
        lemma_candidate_positions(names);
        assert(planned_jobs(names + others) =~= planned_jobs(names));
    }
}

/// Running twice is running once. The second run finds the source as the
/// first did, but for files that are no candidates (such as the JPEG files of
/// the first run, where both directories are one). It has the same jobs,
/// counts the same number of converted files, and writes the files of the
/// first run again and no others.
pub proof fn lemma_second_run_repeats_first(
    before: Set<Seq<char>>,
    names: Seq<Seq<char>>,
    contents: Seq<Seq<u8>>,
    others: Seq<Seq<char>>,
    other_contents: Seq<Seq<u8>>,
)
    requires
        contents.len() == names.len(),
        forall|i: int| 0 <= i < others.len() ==> !candidate_name(#[trigger] others[i]),
    ensures
        ({
            let first = planned_jobs(names);
            let second = planned_jobs(names + others);
            let after_first = destination_after(before, first, contents);
            &&& second == first
            &&& converted_count(second, contents + other_contents) == converted_count(
                first,
                contents,
            )
            &&& written_names(second, contents + other_contents) == written_names(first, contents)
            &&& destination_after(after_first, second, contents + other_contents) == after_first
        }),
{
    let first = planned_jobs(names);
    let both = contents + other_contents;
    lemma_other_entries_change_no_plan(names, others);
    lemma_candidate_positions(names);
    assert forall|k: int| 0 <= k < first.len() implies converts(#[trigger] first[k], both)
        == converts(first[k], contents) by {
        assert(both[first[k].source_index] == contents[first[k].source_index]);
    }
    assert(Seq::new(first.len(), |k: int| converts(first[k], both)) =~= Seq::new(
        first.len(),
        |k: int| converts(first[k], contents),
    ));
    assert(written_names(first, both) =~= written_names(first, contents));
    assert(destination_after(destination_after(before, first, contents), first, both)
        =~= destination_after(before, first, contents));
}

} // verus!
