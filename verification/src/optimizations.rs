//! The gas-optimization rules.

use vstd::prelude::*;
use crate::engine::EngineError;
use crate::outcome::{Outcome, OutcomeModel};
use crate::source::{paths_of, SourceCollection, SourceFileView};

pub mod event_indexing;

verus! {

/// The rule that flags events whose parameters could be indexed and are
/// not.
#[derive(Clone, Copy, Debug)]
pub struct EventIndexing;

/// The optimization rules that a run can be asked to apply.
#[derive(Clone, Copy, Debug, PartialEq, Eq, Structural)]
pub enum OptimizationTarget {
    EventIndexing,
}

/// What an optimization rule reported, by rule.
#[derive(Debug)]
pub enum OptimizationOutcome {
    EventIndexing(Outcome),
}

/// What a rule handed back, as a mathematical value.
pub open spec fn reported(r: Result<OptimizationOutcome, EngineError>) -> Result<
    OutcomeModel,
    EngineError,
> {
    match r {
        Ok(outcome) => Ok(outcome.model()),
        Err(e) => Err(e),
    }
}

/// An optimization rule: a function from the source collection to one
/// outcome, or to the failure that stopped it.
pub trait OptimizationPattern {
    /// What the rule reports on `source`.
    spec fn detection(source: Seq<SourceFileView>) -> Result<OutcomeModel, EngineError>;

    /// Applies the rule to every file of `source`.
    fn find(source: &SourceCollection) -> (r: Result<OptimizationOutcome, EngineError>)
        ensures
            reported(r) == Self::detection(source@),
    ;
}

impl OptimizationOutcome {
    /// The rule that reported this outcome.
    pub open spec fn rule(self) -> OptimizationTarget {
        match self {
            OptimizationOutcome::EventIndexing(_) => OptimizationTarget::EventIndexing,
        }
    }

    /// The files in order, and the findings of each.
    pub open spec fn model(self) -> OutcomeModel {
        match self {
            OptimizationOutcome::EventIndexing(outcome) => outcome.model(),
        }
    }

    /// The rule that reported this outcome.
    pub fn target(&self) -> (target: OptimizationTarget)
        ensures
            target == self.rule(),
    {
        match self {
            OptimizationOutcome::EventIndexing(_) => OptimizationTarget::EventIndexing,
        }
    }

    /// The findings, by file.
    pub fn outcome(&self) -> (outcome: &Outcome)
        ensures
            outcome.model() == self.model(),
    {
        match self {
            OptimizationOutcome::EventIndexing(outcome) => outcome,
        }
    }

    /// The number of findings over all files; `usize::MAX` where there are
    /// more.
    pub fn len(&self) -> (n: usize)
        ensures
            n == if self.total() <= usize::MAX {
                self.total()
            } else {
                usize::MAX as nat
            },
    {
        self.outcome().finding_count()
    }

    /// The number of findings, over all files.
    pub open spec fn total(self) -> nat {
        crate::outcome::findings_in(self.model().findings, self.model().files)
    }
}

impl Clone for OptimizationOutcome {
    fn clone(&self) -> (copy: OptimizationOutcome)
        ensures
            copy.model() == self.model(),
            copy.rule() == self.rule(),
    {
        match self {
            OptimizationOutcome::EventIndexing(outcome) => OptimizationOutcome::EventIndexing(
                outcome.clone(),
            ),
        }
    }
}

impl OptimizationTarget {
    /// What the rule reports on `source`.
    pub open spec fn detection(self, source: Seq<SourceFileView>) -> Result<
        OutcomeModel,
        EngineError,
    > {
        match self {
            OptimizationTarget::EventIndexing => EventIndexing::detection(source),
        }
    }

    /// Applies the rule to every file of `source`.
    pub fn find(&self, source: &SourceCollection) -> (r: Result<OptimizationOutcome, EngineError>)
        ensures
            reported(r) == self.detection(source@),
            r matches Ok(outcome) ==> outcome.rule() == *self,
    {
        match self {
            OptimizationTarget::EventIndexing => EventIndexing::find(source),
        }
    }
}

/// The number of rules, from the first on, that complete before one
/// fails.
pub open spec fn completed(targets: Seq<OptimizationTarget>, source: Seq<SourceFileView>) -> nat
    decreases targets.len(),
{
    if targets.len() == 0 {
        0
    } else {
        let earlier = completed(targets.drop_last(), source);
        if earlier == targets.len() - 1 && targets.last().detection(source) is Ok {
            targets.len()
        } else {
            earlier
        }
    }
}

/// Fail-fast truncation: the rules before `completed` complete, the rule
/// at `completed` fails, and `completed` is the number of rules exactly
/// when none fails.
pub proof fn lemma_completed(targets: Seq<OptimizationTarget>, source: Seq<SourceFileView>)
    ensures
        completed(targets, source) <= targets.len(),
        forall|j: int|
            0 <= j < completed(targets, source) ==> (#[trigger] targets[j]).detection(source) is Ok,
        completed(targets, source) < targets.len() ==> targets[completed(
            targets,
            source,
        ) as int].detection(source) is Err,
        completed(targets, source) == targets.len() <==> forall|j: int|
            0 <= j < targets.len() ==> (#[trigger] targets[j]).detection(source) is Ok,
    decreases targets.len(),
{
    if targets.len() > 0 {
        let rest = targets.drop_last();
        lemma_completed(rest, source);
        assert forall|j: int| 0 <= j < completed(targets, source) implies (
        #[trigger] targets[j]).detection(source) is Ok by {
            if j < rest.len() {
                assert(rest[j] == targets[j]);
            }
        }
        if completed(targets, source) < targets.len() {
            let k = completed(targets, source) as int;
            if k < rest.len() {
                assert(rest[k] == targets[k]);
            }
        }
        if forall|j: int|
            0 <= j < targets.len() ==> (#[trigger] targets[j]).detection(source) is Ok {
            assert forall|j: int| 0 <= j < rest.len() implies (#[trigger] rest[j]).detection(
                source,
            ) is Ok by {
                assert(rest[j] == targets[j]);
            }
        }
    }
}

/// Where the first `n` rules complete and the next one, if there is one,
/// fails, `n` rules complete before the first failure.
pub proof fn lemma_completed_at(
    targets: Seq<OptimizationTarget>,
    source: Seq<SourceFileView>,
    n: int,
)
    requires
        0 <= n <= targets.len(),
        forall|j: int| 0 <= j < n ==> (#[trigger] targets[j]).detection(source) is Ok,
        n < targets.len() ==> targets[n].detection(source) is Err,
    ensures
        completed(targets, source) == n,
{
    lemma_completed(targets, source);
    let k = completed(targets, source) as int;
    if k < n {
        assert(targets[k].detection(source) is Ok);
    }
    if n < k {
        assert(targets[n].detection(source) is Ok);
    }
}

/// Determinism: what a rule reports depends on the source collection
/// alone. Two results of one rule over one collection are the same.
pub proof fn lemma_find_deterministic(
    target: OptimizationTarget,
    source: Seq<SourceFileView>,
    first: Result<OptimizationOutcome, EngineError>,
    second: Result<OptimizationOutcome, EngineError>,
)
    requires
        reported(first) == target.detection(source),
        reported(second) == target.detection(source),
    ensures
        reported(first) == reported(second),
{
}

/// The files of an outcome are files of the source collection.
pub proof fn lemma_outcome_files(target: OptimizationTarget, source: Seq<SourceFileView>)
    ensures
        target.detection(source) matches Ok(outcome) ==> {
            &&& outcome.findings.dom() == outcome.files.to_set()
            &&& forall|path: Seq<char>| #[trigger]
                outcome.findings.dom().contains(path) ==> paths_of(source).contains(path)
        },
{
    crate::optimizations::event_indexing::lemma_report_files(source);
}

} // verus!
