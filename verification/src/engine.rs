//! The engine: one analysis run over a source collection.

use vstd::prelude::*;
use vstd::std_specs::convert::FromSpecImpl;
use crate::extractors::ExtractionError;
use crate::optimizations::{completed, lemma_completed_at, OptimizationOutcome, OptimizationTarget};
use crate::outcome::{Outcome, OutcomeModel};
use crate::source::{SourceCollection, SourceFileView};

verus! {

/// `regex::Error`: the error of a pattern that does not compile. Declared
/// without its content: a value is carried along as the cause of a failure.
#[verifier::external_type_specification]
#[verifier::external_body]
pub struct ExRegexError(regex::Error);

/// `core::num::ParseIntError`: the error of a text that is no integer.
/// Declared without its content: a value is carried along as the cause of
/// a failure.
#[verifier::external_type_specification]
#[verifier::external_body]
pub struct ExParseIntError(core::num::ParseIntError);

/// Why a rule failed. Every failure belongs to one rule and carries its
/// cause.
#[derive(Debug)]
pub enum EngineError {
    /// The constructs of a file could not be had.
    ExtractionError(ExtractionError),
    /// A rule's pattern did not compile.
    RegexError(regex::Error),
    /// A rule could not read a number from a literal.
    ParseIntError(core::num::ParseIntError),
}

impl EngineError {
    /// The message of the error.
    pub fn to_string(&self) -> (message: String)
        ensures
            message@ == match *self {
                EngineError::ExtractionError(_) => "Error while extracting source units"@,
                EngineError::RegexError(_) => "Error while running regex"@,
                EngineError::ParseIntError(_) => "Error while parsing int"@,
            },
    {
        match self {
            EngineError::ExtractionError(_) => "Error while extracting source units".to_owned(),
            EngineError::RegexError(_) => "Error while running regex".to_owned(),
            EngineError::ParseIntError(_) => "Error while parsing int".to_owned(),
        }
    }
}

impl From<ExtractionError> for EngineError {
    fn from(cause: ExtractionError) -> (error: EngineError) {
        EngineError::ExtractionError(cause)
    }
}

impl FromSpecImpl<ExtractionError> for EngineError {
    open spec fn obeys_from_spec() -> bool {
        true
    }

    open spec fn from_spec(cause: ExtractionError) -> EngineError {
        EngineError::ExtractionError(cause)
    }
}

impl From<regex::Error> for EngineError {
    fn from(cause: regex::Error) -> (error: EngineError) {
        EngineError::RegexError(cause)
    }
}

impl FromSpecImpl<regex::Error> for EngineError {
    open spec fn obeys_from_spec() -> bool {
        true
    }

    open spec fn from_spec(cause: regex::Error) -> EngineError {
        EngineError::RegexError(cause)
    }
}

impl From<core::num::ParseIntError> for EngineError {
    fn from(cause: core::num::ParseIntError) -> (error: EngineError) {
        EngineError::ParseIntError(cause)
    }
}

impl FromSpecImpl<core::num::ParseIntError> for EngineError {
    open spec fn obeys_from_spec() -> bool {
        true
    }

    open spec fn from_spec(cause: core::num::ParseIntError) -> EngineError {
        EngineError::ParseIntError(cause)
    }
}

/// A category module: the rules of one category, in the order in which they
/// run, and the outcomes of the rules that completed in the last run.
///
/// A run applies the rules one after the other and stops at the first that
/// fails: the module then holds the outcomes of the rules before it, and
/// the run returns the failure.
pub trait EngineModule<T> {
    /// The number of rules.
    spec fn rule_count(&self) -> nat;

    /// The number of outcomes that the module holds.
    spec fn outcome_count(&self) -> nat;

    /// Whether every rule can be applied to `source`.
    spec fn runnable(&self, source: &SourceCollection) -> bool;

    /// Runs the rules over `source`. Returns the outcomes of all of them,
    /// or the failure of the first that failed.
    fn run(&mut self, source: &SourceCollection) -> (r: Result<Vec<T>, EngineError>)
        requires
            old(self).runnable(source),
        ensures
            final(self).rule_count() == old(self).rule_count(),
            match r {
                Ok(outcomes) => outcomes@.len() == final(self).rule_count()
                    && final(self).outcome_count() == final(self).rule_count(),
                Err(_) => final(self).outcome_count() < final(self).rule_count(),
            },
    ;
}

/// The optimization rules of a run.
#[derive(Debug)]
pub struct OptimizationModule {
    pub targets: Vec<OptimizationTarget>,
    pub outcomes: Vec<OptimizationOutcome>,
}

/// The vulnerability rules of a run: detectors that the caller supplies.
pub struct VulnerabilityModule<F> {
    pub targets: Vec<F>,
    pub outcomes: Vec<Outcome>,
}

/// The code-quality rules of a run: detectors that the caller supplies.
pub struct QualityAssuranceModule<F> {
    pub targets: Vec<F>,
    pub outcomes: Vec<Outcome>,
}

/// Copies a list of outcomes.
fn copy_outcomes(outcomes: &Vec<Outcome>) -> (copies: Vec<Outcome>)
    ensures
        copies@.len() == outcomes@.len(),
        forall|j: int|
            0 <= j < copies@.len() ==> (#[trigger] copies@[j]).model() == outcomes@[j].model(),
{
    let mut copies: Vec<Outcome> = Vec::new();
    let mut i: usize = 0;
    while i < outcomes.len()
        invariant
            i <= outcomes@.len(),
            copies@.len() == i,
            forall|j: int| 0 <= j < i ==> (#[trigger] copies@[j]).model() == outcomes@[j].model(),
        decreases outcomes@.len() - i,
    {
        copies.push(outcomes[i].clone());
        i = i + 1;
    }
    copies
}

/// Runs caller-supplied detectors in order, up to the first that fails.
/// `outcomes` receives the outcome of each detector that completed.
fn run_detectors<F: Fn(&SourceCollection) -> Result<Outcome, EngineError>>(
    targets: &Vec<F>,
    source: &SourceCollection,
    outcomes: &mut Vec<Outcome>,
) -> (failure: Option<EngineError>)
    requires
        forall|j: int|
            0 <= j < targets@.len() ==> call_requires(#[trigger] targets@[j], (source,)),
    ensures
        final(outcomes)@.len() <= targets@.len(),
        forall|j: int|
            0 <= j < final(outcomes)@.len() ==> call_ensures(
                #[trigger] targets@[j],
                (source,),
                Ok(final(outcomes)@[j]),
            ),
        match failure {
            None => final(outcomes)@.len() == targets@.len(),
            Some(e) => final(outcomes)@.len() < targets@.len() && call_ensures(
                targets@[final(outcomes)@.len() as int],
                (source,),
                Err(e),
            ),
        },
{
    outcomes.clear();
    let mut i: usize = 0;
    while i < targets.len()
        invariant
            i <= targets@.len(),
            outcomes@.len() == i,
            forall|j: int|
                0 <= j < targets@.len() ==> call_requires(#[trigger] targets@[j], (source,)),
            forall|j: int|
                0 <= j < i ==> call_ensures(#[trigger] targets@[j], (source,), Ok(outcomes@[j])),
        decreases targets@.len() - i,
    {
        let detector = &targets[i];
        match detector(source) {
            Ok(outcome) => {
                outcomes.push(outcome);
            },
            Err(e) => {
                return Some(e);
            },
        }
        i = i + 1;
    }
    None
}

impl OptimizationModule {
    /// A module with these rules and no outcome yet.
    pub fn new(targets: Vec<OptimizationTarget>) -> (module: OptimizationModule)
        ensures
            module.targets == targets,
            module.outcomes@.len() == 0,
    {
        OptimizationModule { targets, outcomes: Vec::new() }
    }
}

impl EngineModule<OptimizationOutcome> for OptimizationModule {
    open spec fn rule_count(&self) -> nat {
        self.targets@.len()
    }

    open spec fn outcome_count(&self) -> nat {
        self.outcomes@.len()
    }

    open spec fn runnable(&self, source: &SourceCollection) -> bool {
        true
    }

    /// Applies the rules in order. The module ends up holding the outcome
    /// of each rule that completed before the first failure; the outcomes
    /// of an earlier run are gone.
    fn run(&mut self, source: &SourceCollection) -> (r: Result<
        Vec<OptimizationOutcome>,
        EngineError,
    >)
        ensures
            final(self).targets == old(self).targets,
            final(self).outcomes@.len() == completed(final(self).targets@, source@),
            forall|j: int|
                0 <= j < final(self).outcomes@.len() ==> {
                    &&& (#[trigger] final(self).targets@[j]).detection(source@) == Ok::<
                        OutcomeModel,
                        EngineError,
                    >(final(self).outcomes@[j].model())
                    &&& final(self).outcomes@[j].rule() == final(self).targets@[j]
                },
            match r {
                Ok(outcomes) => forall|j: int|
                    0 <= j < outcomes@.len() ==> {
                        &&& (#[trigger] outcomes@[j]).model() == final(self).outcomes@[j].model()
                        &&& outcomes@[j].rule() == final(self).outcomes@[j].rule()
                    },
                Err(e) => final(self).targets@[final(self).outcomes@.len() as int].detection(
                    source@,
                ) == Err::<OutcomeModel, EngineError>(e),
            },
    {
        self.outcomes = Vec::new();
        let mut i: usize = 0;
        while i < self.targets.len()
            invariant
                i <= self.targets@.len(),
                self.targets == old(self).targets,
                self.outcomes@.len() == i,
                forall|j: int|
                    0 <= j < i ==> {
                        &&& (#[trigger] self.targets@[j]).detection(source@) == Ok::<
                            OutcomeModel,
                            EngineError,
                        >(self.outcomes@[j].model())
                        &&& self.outcomes@[j].rule() == self.targets@[j]
                    },
            decreases self.targets@.len() - i,
        {
            match self.targets[i].find(source) {
                Ok(outcome) => {
                    self.outcomes.push(outcome);
                },
                Err(e) => {
                    proof {
                        lemma_completed_at(self.targets@, source@, i as int);
                    }
                    return Err(e);
                },
            }
            i = i + 1;
        }
        proof {
            lemma_completed_at(self.targets@, source@, i as int);
        }
        let mut outcomes: Vec<OptimizationOutcome> = Vec::new();
        let mut k: usize = 0;
        while k < self.outcomes.len()
            invariant
                k <= self.outcomes@.len(),
                outcomes@.len() == k,
                forall|j: int|
                    0 <= j < k ==> {
                        &&& (#[trigger] outcomes@[j]).model() == self.outcomes@[j].model()
                        &&& outcomes@[j].rule() == self.outcomes@[j].rule()
                    },
            decreases self.outcomes@.len() - k,
        {
            outcomes.push(self.outcomes[k].clone());
            k = k + 1;
        }
        Ok(outcomes)
    }
}

impl<F> VulnerabilityModule<F> {
    /// A module with these detectors and no outcome yet.
    pub fn new(targets: Vec<F>) -> (module: VulnerabilityModule<F>)
        ensures
            module.targets == targets,
            module.outcomes@.len() == 0,
    {
        VulnerabilityModule { targets, outcomes: Vec::new() }
    }
}

impl<F: Fn(&SourceCollection) -> Result<Outcome, EngineError>> EngineModule<
    Outcome,
> for VulnerabilityModule<F> {
    open spec fn rule_count(&self) -> nat {
        self.targets@.len()
    }

    open spec fn outcome_count(&self) -> nat {
        self.outcomes@.len()
    }

    open spec fn runnable(&self, source: &SourceCollection) -> bool {
        forall|j: int|
            0 <= j < self.targets@.len() ==> call_requires(#[trigger] self.targets@[j], (source,))
    }

    /// Applies the detectors in order. The module ends up holding the
    /// outcome of each detector that completed before the first failure;
    /// the outcomes of an earlier run are gone.
    fn run(&mut self, source: &SourceCollection) -> (r: Result<Vec<Outcome>, EngineError>)
        ensures
            final(self).targets == old(self).targets,
            final(self).outcomes@.len() <= final(self).targets@.len(),
            forall|j: int|
                0 <= j < final(self).outcomes@.len() ==> call_ensures(
                    #[trigger] final(self).targets@[j],
                    (source,),
                    Ok(final(self).outcomes@[j]),
                ),
            match r {
                Ok(outcomes) => forall|j: int|
                    0 <= j < outcomes@.len() ==> (#[trigger] outcomes@[j]).model()
                        == final(self).outcomes@[j].model(),
                Err(e) => call_ensures(
                    final(self).targets@[final(self).outcomes@.len() as int],
                    (source,),
                    Err(e),
                ),
            },
    {
        match run_detectors(&self.targets, source, &mut self.outcomes) {
            None => Ok(copy_outcomes(&self.outcomes)),
            Some(e) => Err(e),
        }
    }
}

impl<F> QualityAssuranceModule<F> {
    /// A module with these detectors and no outcome yet.
    pub fn new(targets: Vec<F>) -> (module: QualityAssuranceModule<F>)
        ensures
            module.targets == targets,
            module.outcomes@.len() == 0,
    {
        QualityAssuranceModule { targets, outcomes: Vec::new() }
    }
}

impl<F: Fn(&SourceCollection) -> Result<Outcome, EngineError>> EngineModule<
    Outcome,
> for QualityAssuranceModule<F> {
    open spec fn rule_count(&self) -> nat {
        self.targets@.len()
    }

    open spec fn outcome_count(&self) -> nat {
        self.outcomes@.len()
    }

    open spec fn runnable(&self, source: &SourceCollection) -> bool {
        forall|j: int|
            0 <= j < self.targets@.len() ==> call_requires(#[trigger] self.targets@[j], (source,))
    }

    /// Applies the detectors in order. The module ends up holding the
    /// outcome of each detector that completed before the first failure;
    /// the outcomes of an earlier run are gone.
    fn run(&mut self, source: &SourceCollection) -> (r: Result<Vec<Outcome>, EngineError>)
        ensures
            final(self).targets == old(self).targets,
            final(self).outcomes@.len() <= final(self).targets@.len(),
            forall|j: int|
                0 <= j < final(self).outcomes@.len() ==> call_ensures(
                    #[trigger] final(self).targets@[j],
                    (source,),
                    Ok(final(self).outcomes@[j]),
                ),
            match r {
                Ok(outcomes) => forall|j: int|
                    0 <= j < outcomes@.len() ==> (#[trigger] outcomes@[j]).model()
                        == final(self).outcomes@[j].model(),
                Err(e) => call_ensures(
                    final(self).targets@[final(self).outcomes@.len() as int],
                    (source,),
                    Err(e),
                ),
            },
    {
        match run_detectors(&self.targets, source, &mut self.outcomes) {
            None => Ok(copy_outcomes(&self.outcomes)),
            Some(e) => Err(e),
        }
    }
}

/// Whether `outcomes` can be what the detectors of `targets` hand back on
/// `source`, one each, all of them completing.
pub open spec fn all_complete<F: Fn(&SourceCollection) -> Result<Outcome, EngineError>>(
    targets: Seq<F>,
    source: &SourceCollection,
    outcomes: Seq<Outcome>,
) -> bool {
    &&& outcomes.len() == targets.len()
    &&& forall|j: int|
        0 <= j < targets.len() ==> call_ensures(#[trigger] targets[j], (source,), Ok(outcomes[j]))
}

/// Whether `e` can be the first failure among the detectors of `targets` on
/// `source`: some detector hands it back, and all before it complete.
pub open spec fn first_failure<F: Fn(&SourceCollection) -> Result<Outcome, EngineError>>(
    targets: Seq<F>,
    source: &SourceCollection,
    e: EngineError,
) -> bool {
    exists|done: Seq<Outcome>|
        {
            &&& done.len() < targets.len()
            &&& #[trigger] all_complete(targets.take(done.len() as int), source, done)
            &&& call_ensures(targets[done.len() as int], (source,), Err(e))
        }
}

/// Whether `outcomes` is what the rules of `targets` report on `source`,
/// one each, all of them completing.
pub open spec fn all_report(
    targets: Seq<OptimizationTarget>,
    source: Seq<SourceFileView>,
    outcomes: Seq<OptimizationOutcome>,
) -> bool {
    &&& outcomes.len() == targets.len()
    &&& forall|j: int|
        0 <= j < targets.len() ==> {
            &&& (#[trigger] targets[j]).detection(source) == Ok::<OutcomeModel, EngineError>(
                outcomes[j].model(),
            )
            &&& outcomes[j].rule() == targets[j]
        }
}

/// What a run found, by category.
#[derive(Debug)]
pub struct Analysis {
    pub vulnerabilities: Vec<Outcome>,
    pub optimizations: Vec<OptimizationOutcome>,
    pub qa: Vec<Outcome>,
}

/// One analysis run: the source collection and the three category modules.
/// The engine owns them for the time of the run.
pub struct Engine<V, Q> {
    pub source: SourceCollection,
    pub optimizations: Option<OptimizationModule>,
    pub vulnerabilities: Option<VulnerabilityModule<V>>,
    pub qa: Option<QualityAssuranceModule<Q>>,
}

impl<V, Q> Engine<V, Q> {
    /// The vulnerability detectors; none where the module is absent.
    pub open spec fn vulnerability_targets(self) -> Seq<V> {
        match self.vulnerabilities {
            Some(module) => module.targets@,
            None => Seq::empty(),
        }
    }

    /// The optimization rules; none where the module is absent.
    pub open spec fn optimization_targets(self) -> Seq<OptimizationTarget> {
        match self.optimizations {
            Some(module) => module.targets@,
            None => Seq::empty(),
        }
    }

    /// The code-quality detectors; none where the module is absent.
    pub open spec fn qa_targets(self) -> Seq<Q> {
        match self.qa {
            Some(module) => module.targets@,
            None => Seq::empty(),
        }
    }

    /// An engine over `source` with one module per rule list. A category
    /// with an empty list gets a module without rules.
    pub fn new(
        source: SourceCollection,
        vulnerabilities: Vec<V>,
        optimizations: Vec<OptimizationTarget>,
        qa: Vec<Q>,
    ) -> (engine: Engine<V, Q>)
        ensures
            engine.source == source,
            engine.vulnerabilities matches Some(module) && module.targets == vulnerabilities
                && module.outcomes@.len() == 0,
            engine.optimizations matches Some(module) && module.targets == optimizations
                && module.outcomes@.len() == 0,
            engine.qa matches Some(module) && module.targets == qa && module.outcomes@.len() == 0,
    {
        Engine {
            source,
            optimizations: Some(
                OptimizationModule { targets: optimizations, outcomes: Vec::new() },
            ),
            vulnerabilities: Some(
                VulnerabilityModule { targets: vulnerabilities, outcomes: Vec::new() },
            ),
            qa: Some(QualityAssuranceModule { targets: qa, outcomes: Vec::new() }),
        }
    }
}

impl<
    V: Fn(&SourceCollection) -> Result<Outcome, EngineError>,
    Q: Fn(&SourceCollection) -> Result<Outcome, EngineError>,
> Engine<V, Q> {
    /// Whether every detector of the engine can be applied to its source
    /// collection.
    pub open spec fn runnable(self) -> bool {
        &&& forall|j: int|
            0 <= j < self.vulnerability_targets().len() ==> call_requires(
                #[trigger] self.vulnerability_targets()[j],
                (&self.source,),
            )
        &&& forall|j: int|
            0 <= j < self.qa_targets().len() ==> call_requires(
                #[trigger] self.qa_targets()[j],
                (&self.source,),
            )
    }

    /// Runs the three modules over the source collection: vulnerabilities,
    /// then optimizations, then code quality. Returns what every rule
    /// found, or the failure of the first rule that failed; no rule runs
    /// after a failure.
    pub fn run(self) -> (r: Result<Analysis, EngineError>)
        requires
            self.runnable(),
        ensures
            match r {
                Ok(analysis) => {
                    &&& all_complete(
                        self.vulnerability_targets(),
                        &self.source,
                        analysis.vulnerabilities@,
                    )
                    &&& all_report(
                        self.optimization_targets(),
                        self.source@,
                        analysis.optimizations@,
                    )
                    &&& all_complete(self.qa_targets(), &self.source, analysis.qa@)
                },
                Err(e) => {
                    ||| first_failure(self.vulnerability_targets(), &self.source, e)
                    ||| {
                        &&& exists|found: Seq<Outcome>| #[trigger]
                            all_complete(self.vulnerability_targets(), &self.source, found)
                        &&& completed(self.optimization_targets(), self.source@)
                            < self.optimization_targets().len()
                        &&& self.optimization_targets()[completed(
                            self.optimization_targets(),
                            self.source@,
                        ) as int].detection(self.source@) == Err::<OutcomeModel, EngineError>(e)
                    }
                    ||| {
                        &&& exists|found: Seq<Outcome>| #[trigger]
                            all_complete(self.vulnerability_targets(), &self.source, found)
                        &&& completed(self.optimization_targets(), self.source@)
                            == self.optimization_targets().len()
                        &&& first_failure(self.qa_targets(), &self.source, e)
                    }
                },
            },
    {
        let Engine { source, optimizations, vulnerabilities, qa } = self;
        let mut vulnerability_outcomes: Vec<Outcome> = Vec::new();
        if let Some(module) = vulnerabilities {
            proof {
                assert forall|j: int| 0 <= j < module.targets@.len() implies call_requires(
                    #[trigger] module.targets@[j],
                    (&source,),
                ) by {
                    assert(self.vulnerability_targets()[j] == module.targets@[j]);
                }
            }
            let failure = run_detectors(&module.targets, &source, &mut vulnerability_outcomes);
            if let Some(e) = failure {
                proof {
                    let done = vulnerability_outcomes@;
                    assert(all_complete(module.targets@.take(done.len() as int), &source, done));
                }
                return Err(e);
            }
        }
        assert(all_complete(self.vulnerability_targets(), &source, vulnerability_outcomes@));
        let mut optimization_outcomes: Vec<OptimizationOutcome> = Vec::new();
        if let Some(module) = optimizations {
            let mut module = module;
            match module.run(&source) {
                Ok(outcomes) => {
                    optimization_outcomes = outcomes;
                },
                Err(e) => {
                    return Err(e);
                },
            }
        }
        proof {
            crate::optimizations::lemma_completed(self.optimization_targets(), source@);
        }
        let mut qa_outcomes: Vec<Outcome> = Vec::new();
        if let Some(module) = qa {
            proof {
                assert forall|j: int| 0 <= j < module.targets@.len() implies call_requires(
                    #[trigger] module.targets@[j],
                    (&source,),
                ) by {
                    assert(self.qa_targets()[j] == module.targets@[j]);
                }
            }
            let failure = run_detectors(&module.targets, &source, &mut qa_outcomes);
            if let Some(e) = failure {
                proof {
                    let done = qa_outcomes@;
                    assert(all_complete(module.targets@.take(done.len() as int), &source, done));
                }
                return Err(e);
            }
        }
        Ok(
            Analysis {
                vulnerabilities: vulnerability_outcomes,
                optimizations: optimization_outcomes,
                qa: qa_outcomes,
            },
        )
    }
}

impl<V, Q> Default for Engine<V, Q> {
    /// An engine without sources and without modules.
    fn default() -> (engine: Engine<V, Q>)
        ensures
            engine.source@.len() == 0,
            engine.optimizations is None,
            engine.vulnerabilities is None,
            engine.qa is None,
    {
        Engine {
            source: SourceCollection::new(),
            optimizations: None,
            vulnerabilities: None,
            qa: None,
        }
    }
}

} // verus!
