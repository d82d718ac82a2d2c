//! The start of a conversion run: the directories are checked, the listing of
//! the source directory is turned into a plan, and the plan opens the count
//! of progress. A run fails as a whole only here; once it has a plan, the
//! failure of one file never ends it.

use vstd::prelude::*;
use crate::progress::ConversionProgress;
use crate::scan::{
    candidate_name,
    candidate_positions,
    candidates,
    name_views,
    output_file_name,
    output_name_of,
};

verus! {

/// Why a run could not start.
#[derive(Debug, PartialEq, Eq)]
pub enum ConversionError {
    /// The source or the destination is missing or is not a directory.
    InvalidDirectories,
    /// The source directory could not be listed; the text says why.
    ScanError(String),
    /// The source directory holds no file with a supported extension.
    NoCandidates,
}

/// A reason for which a run could not start, as a mathematical value.
pub enum ConversionFailure {
    InvalidDirectories,
    ScanError(Seq<char>),
    NoCandidates,
}

impl View for ConversionError {
    type V = ConversionFailure;

    open spec fn view(&self) -> ConversionFailure {
        match self {
            ConversionError::InvalidDirectories => ConversionFailure::InvalidDirectories,
            ConversionError::ScanError(message) => ConversionFailure::ScanError(message@),
            ConversionError::NoCandidates => ConversionFailure::NoCandidates,
        }
    }
}

/// One file to convert: where its entry stands in the listing of the source
/// directory, and the name of the JPEG file to write for it.
#[derive(Debug, PartialEq, Eq)]
pub struct ConversionJob {
    pub source_index: usize,
    pub output_name: String,
}

/// A job as a mathematical value.
pub struct PlannedJob {
    pub source_index: int,
    pub output_name: Seq<char>,
}

impl View for ConversionJob {
    type V = PlannedJob;

    open spec fn view(&self) -> PlannedJob {
        PlannedJob { source_index: self.source_index as int, output_name: self.output_name@ }
    }
}

/// The jobs as mathematical values.
pub open spec fn job_views(jobs: Seq<ConversionJob>) -> Seq<PlannedJob> {
    Seq::new(jobs.len(), |i: int| jobs[i]@)
}

/// The jobs of a listing: one for each candidate, in the order of the listing.
pub open spec fn planned_jobs(names: Seq<Seq<char>>) -> Seq<PlannedJob> {
    Seq::new(
        candidate_positions(names).len(),
        |i: int|
            PlannedJob {
                source_index: candidate_positions(names)[i],
                output_name: output_name_of(names[candidate_positions(names)[i]]),
            },
    )
}

/// What becomes of a run once the source directory has answered: a failed
/// listing ends it, a listing without candidates ends it, and any other
/// listing gives its jobs.
pub open spec fn planned(listing: Result<Seq<Seq<char>>, Seq<char>>) -> Result<
    Seq<PlannedJob>,
    ConversionFailure,
> {
    match listing {
        Err(message) => Err(ConversionFailure::ScanError(message)),
        Ok(names) => if candidate_positions(names).len() == 0 {
            Err(ConversionFailure::NoCandidates)
        } else {
            Ok(planned_jobs(names))
        },
    }
}

/// The listing of a directory, or the reason why it could not be listed, as
/// mathematical values.
pub open spec fn listing_view(listing: Result<Vec<String>, String>) -> Result<
    Seq<Seq<char>>,
    Seq<char>,
> {
    match listing {
        Ok(names) => Ok(name_views(names@)),
        Err(message) => Err(message@),
    }
}

/// The plan of a run: its jobs, of which there is at least one.
#[derive(Debug)]
pub struct ConversionPlan {
    jobs: Vec<ConversionJob>,
}

impl ConversionPlan {
    #[verifier::type_invariant]
    spec fn has_jobs(self) -> bool {
        self.jobs@.len() > 0
    }

    /// The jobs of the plan as mathematical values.
    pub closed spec fn view_jobs(self) -> Seq<PlannedJob> {
        job_views(self.jobs@)
    }

    /// The jobs, in the order of the listing. Nothing depends on the order in
    /// which they are carried out.
    pub fn jobs(&self) -> (jobs: &Vec<ConversionJob>)
        ensures
            job_views(jobs@) == self.view_jobs(),
            jobs@.len() > 0,
    {
        proof {
            use_type_invariant(self);
        }
        &self.jobs
    }

    /// The number of candidates of the run, which is not zero.
    pub fn total_count(&self) -> (total: usize)
        ensures
            total == self.view_jobs().len(),
            total > 0,
    {
        proof {
            use_type_invariant(self);
        }
        self.jobs.len()
    }

    /// Opens the count of progress of the run: nothing converted yet, out of
    /// as many files as there are jobs.
    pub fn start(&self) -> (progress: ConversionProgress)
        ensures
            progress.succeeded() == 0,
            progress.total() == self.view_jobs().len(),
            progress.total() > 0,
    {
        proof {
            use_type_invariant(self);
        }
        ConversionProgress::new(self.jobs.len())
    }
}

/// A plan, or the reason why there is none, as mathematical values.
pub open spec fn plan_view(result: Result<ConversionPlan, ConversionError>) -> Result<
    Seq<PlannedJob>,
    ConversionFailure,
> {
    match result {
        Ok(plan) => Ok(plan.view_jobs()),
        Err(error) => Err(error@),
    }
}

/// Checks what the file system said of the two directories. A run goes on
/// only if both exist and are directories.
pub fn check_directories(source_is_directory: bool, destination_is_directory: bool) -> (result:
    Result<(), ConversionError>)
    ensures
        result is Ok <==> source_is_directory && destination_is_directory,
        result matches Err(e) ==> e@ == ConversionFailure::InvalidDirectories,
{
    if source_is_directory && destination_is_directory {
        Ok(())
    } else {
        Err(ConversionError::InvalidDirectories)
    }
}

/// Plans a run from the listing of the source directory, given as the names
/// of its entries, or from the reason why it could not be listed.
pub fn plan(listing: Result<Vec<String>, String>) -> (result: Result<
    ConversionPlan,
    ConversionError,
>)
    ensures
        plan_view(result) == planned(listing_view(listing)),
{
    let names = match listing {
        Ok(names) => names,
        Err(message) => {
            return Err(ConversionError::ScanError(message));
        },
    };
    let positions = candidates(&names);
    let ghost listed = name_views(names@);
    let ghost expected = candidate_positions(listed);
    proof {
        lemma_candidate_positions(listed);
        assert(positions@.len() == expected.len()) by {
            assert(positions@.map_values(|p: usize| p as int).len() == expected.len());
        }
    }
    if positions.len() == 0 {
        return Err(ConversionError::NoCandidates);
    }
    let mut jobs: Vec<ConversionJob> = Vec::new();
    let mut i: usize = 0;
    while i < positions.len()
        invariant
            i <= positions.len(),
            listed == name_views(names@),
            expected == candidate_positions(listed),
            positions@.map_values(|p: usize| p as int) == expected,
            forall|k: int| 0 <= k < expected.len() ==> 0 <= #[trigger] expected[k] < listed.len(),
            jobs@.len() == i,
            forall|k: int| 0 <= k < i ==> (#[trigger] jobs[k])@ == planned_jobs(listed)[k],
        decreases positions.len() - i,
    {
        let position = positions[i];
        assert(position as int == expected[i as int]) by {
            assert(positions@.map_values(|p: usize| p as int)[i as int] == position as int);
        }
        let output_name = output_file_name(names[position].as_str());
        jobs.push(ConversionJob { source_index: position, output_name });
        i = i + 1;
    }
    assert(job_views(jobs@) =~= planned_jobs(listed));
    Ok(ConversionPlan { jobs })
}

/// Every position of a candidate is a position of the listing, they ascend,
/// and they are the positions of the names with a supported extension.
pub proof fn lemma_candidate_positions(names: Seq<Seq<char>>)
    ensures
        candidate_positions(names).len() <= names.len(),
        forall|k: int|
            0 <= k < candidate_positions(names).len() ==> 0 <= #[trigger] candidate_positions(
                names,
            )[k] < names.len() && candidate_name(names[candidate_positions(names)[k]]),
        forall|j: int, k: int|
            0 <= j < k < candidate_positions(names).len() ==> candidate_positions(names)[j]
                < candidate_positions(names)[k],
        forall|p: int|
            0 <= p < names.len() && candidate_name(names[p]) ==> candidate_positions(
                names,
            ).contains(p),
    decreases names.len(),
{
    if names.len() > 0 {
        let front = names.drop_last();
        lemma_candidate_positions(front);
        let found = candidate_positions(front);
        assert forall|p: int| 0 <= p < names.len() && candidate_name(names[p]) implies (
        #[trigger] candidate_positions(names).contains(p)) by {
            if p < front.len() {
                assert(candidate_name(front[p]));
                assert(found.contains(p));
                let k = choose|k: int| 0 <= k < found.len() && found[k] == p;
                assert(candidate_positions(names)[k] == p);
            } else {
                assert(candidate_positions(names).last() == p);
            }
        }
    }
}

/// A directory in which every entry carries a supported extension is
/// converted whole: its run has one job for each entry, in their order, and
/// so counts as many files as the directory holds.
pub proof fn lemma_all_supported_all_planned(names: Seq<Seq<char>>)
    requires
        forall|i: int| 0 <= i < names.len() ==> candidate_name(#[trigger] names[i]),
    ensures
        candidate_positions(names) == Seq::new(names.len(), |i: int| i),
        planned_jobs(names).len() == names.len(),
        names.len() > 0 ==> planned(Ok(names)) == Ok::<Seq<PlannedJob>, ConversionFailure>(
            planned_jobs(names),
        ),
    decreases names.len(),
{
    if names.len() > 0 {
        let front = names.drop_last();
        assert forall|i: int| 0 <= i < front.len() implies candidate_name(#[trigger] front[i]) by {
            assert(front[i] == names[i]);
        }
        lemma_all_supported_all_planned(front);
        assert(candidate_name(names[names.len() - 1]));
        assert(candidate_positions(names) =~= Seq::new(names.len(), |i: int| i));
    } else {
        assert(candidate_positions(names) =~= Seq::new(names.len(), |i: int| i));
    }
}

/// A directory in which no entry carries a supported extension gives no run
/// at all: the listing is answered with `NoCandidates`, never with an empty
/// plan.
pub proof fn lemma_no_supported_no_run(names: Seq<Seq<char>>)
    requires
        forall|i: int| 0 <= i < names.len() ==> !candidate_name(#[trigger] names[i]),
    ensures
        candidate_positions(names).len() == 0,
        planned(Ok(names)) == Err::<Seq<PlannedJob>, ConversionFailure>(
            ConversionFailure::NoCandidates,
        ),
    decreases names.len(),
{
    if names.len() > 0 {
        let front = names.drop_last();
        assert forall|i: int| 0 <= i < front.len() implies !candidate_name(#[trigger] front[i]) by {
            assert(front[i] == names[i]);
        }
        lemma_no_supported_no_run(front);
        assert(!candidate_name(names[names.len() - 1]));
    }
}

/// A plan is never empty: whenever a listing gives jobs at all, it gives at
/// least one, so the total of a run that started is not zero.
pub proof fn lemma_planned_run_has_jobs(listing: Result<Seq<Seq<char>>, Seq<char>>)
    ensures
        planned(listing) matches Ok(jobs) ==> jobs.len() > 0,
        planned(listing) matches Ok(jobs) ==> listing matches Ok(names) && jobs.len()
            <= names.len(),
{
    if let Ok(names) = listing {
        lemma_candidate_positions(names);
    }
}

} // verus!
