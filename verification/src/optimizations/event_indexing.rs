//! Event indexing.
//!
//! An event can index up to three parameters; indexed parameters are cheaper
//! to filter on. The rule flags an event that leaves an indexable parameter
//! unindexed: with three or more non-array parameters it wants three
//! indexed, with fewer it wants all of them indexed.

use vstd::prelude::*;
use crate::engine::EngineError;
use crate::extractors::{
    extraction, lemma_first_degenerate_none, matching, EventExtractor, ExtractionError, Extractor,
};
use crate::optimizations::{EventIndexing, OptimizationOutcome, OptimizationPattern};
use crate::outcome::{FindingView, Outcome, OutcomeModel, Pushable};
use crate::source::{paths_of, SourceCollection, SourceFileView};
use crate::tree::{
    construct_views, Construct, ConstructKind, ConstructView, EventField, NodeView, TypeShape,
};

verus! {

/// The number of parameters that an event can index.
pub const INDEXED_LIMIT: usize = 3;

/// Whether the type of a parameter is an array or a slice.
pub open spec fn is_array(parameter: EventField) -> bool {
    parameter.ty == TypeShape::Array || parameter.ty == TypeShape::Slice
}

/// The number of indexed parameters.
pub open spec fn indexed_count(fields: Seq<EventField>) -> nat {
    fields.filter(|parameter: EventField| parameter.indexed).len()
}

/// The number of parameters whose type is no array and no slice.
pub open spec fn non_array_count(fields: Seq<EventField>) -> nat {
    fields.filter(|parameter: EventField| !is_array(parameter)).len()
}

/// Whether an event with these parameters is flagged.
pub open spec fn is_flagged(fields: Seq<EventField>) -> bool {
    let indexed = indexed_count(fields);
    let non_array = non_array_count(fields);
    if non_array >= INDEXED_LIMIT {
        indexed < INDEXED_LIMIT
    } else {
        indexed != non_array
    }
}

/// The finding for an event, if the event is flagged.
pub open spec fn finding_of(event: ConstructView) -> Option<FindingView> {
    if is_flagged(event.fields) {
        Some(FindingView { loc: event.loc, snippet: event.snippet })
    } else {
        None
    }
}

/// The findings for a list of events: one for each flagged event, in the
/// order of the events.
pub open spec fn flagged(events: Seq<ConstructView>) -> Seq<FindingView> {
    events.filter_map(|event: ConstructView| finding_of(event))
}

/// The findings for one tree, or the failure of its extraction.
pub open spec fn tree_findings(tree: Seq<NodeView>) -> Result<Seq<FindingView>, ExtractionError> {
    match extraction(tree, ConstructKind::Event) {
        Ok(events) => Ok(flagged(events)),
        Err(e) => Err(e),
    }
}

/// The outcome of the rule on a list of files: the files are read in
/// order, each file with a finding gets an entry, and the first failing
/// extraction ends the rule without an outcome.
pub open spec fn report(files: Seq<SourceFileView>) -> Result<OutcomeModel, ExtractionError>
    decreases files.len(),
{
    if files.len() == 0 {
        Ok(OutcomeModel::empty())
    } else {
        match report(files.drop_last()) {
            Err(e) => Err(e),
            Ok(earlier) => match tree_findings(files.last().tree) {
                Err(e) => Err(e),
                Ok(findings) => if findings.len() == 0 {
                    Ok(earlier)
                } else {
                    Ok(earlier.with_file(files.last().path, findings))
                },
            },
        }
    }
}

/// One more parameter adds to each count what it is.
pub proof fn lemma_count_step(fields: Seq<EventField>)
    requires
        fields.len() > 0,
    ensures
        indexed_count(fields) == indexed_count(fields.drop_last()) + if fields.last().indexed {
            1nat
        } else {
            0nat
        },
        non_array_count(fields) == non_array_count(fields.drop_last()) + if is_array(
            fields.last(),
        ) {
            0nat
        } else {
            1nat
        },
        indexed_count(fields) <= fields.len(),
        non_array_count(fields) <= fields.len(),
{
    reveal(Seq::filter);
    fields.lemma_filter_len(|parameter: EventField| parameter.indexed);
    fields.lemma_filter_len(|parameter: EventField| !is_array(parameter));
}

/// Counts the indexed parameters and the non-array parameters.
pub fn count_parameters(fields: &Vec<EventField>) -> (counts: (usize, usize))
    ensures
        counts.0 == indexed_count(fields@),
        counts.1 == non_array_count(fields@),
{
    let mut indexed: usize = 0;
    let mut non_array: usize = 0;
    let mut i: usize = 0;
    proof {
        reveal(Seq::filter);
        assert(fields@.take(0) =~= Seq::<EventField>::empty());
    }
    while i < fields.len()
        invariant
            i <= fields@.len(),
            indexed == indexed_count(fields@.take(i as int)),
            non_array == non_array_count(fields@.take(i as int)),
            indexed <= i,
            non_array <= i,
        decreases fields@.len() - i,
    {
        proof {
            assert(fields@.take(i + 1).drop_last() =~= fields@.take(i as int));
            lemma_count_step(fields@.take(i + 1));
        }
        let parameter = fields[i];
        if parameter.indexed {
            indexed = indexed + 1;
        }
        match parameter.ty {
            TypeShape::Plain => {
                non_array = non_array + 1;
            },
            _ => {},
        }
        i = i + 1;
    }
    assert(fields@.take(i as int) =~= fields@);
    (indexed, non_array)
}

/// Decides from the two counts whether an event is flagged.
pub fn needs_indexing(indexed: usize, non_array: usize) -> (flag: bool)
    ensures
        flag == if non_array >= INDEXED_LIMIT {
            indexed < INDEXED_LIMIT
        } else {
            indexed != non_array
        },
{
    if non_array >= INDEXED_LIMIT && indexed < INDEXED_LIMIT {
        true
    } else if non_array < INDEXED_LIMIT && indexed != non_array {
        true
    } else {
        false
    }
}

/// An outcome after the findings of one file came in: nothing changes where
/// there are none; else they follow what the file's entry held, and a file
/// without an entry gets one, which comes last.
pub open spec fn extended(
    outcome: OutcomeModel,
    path: Seq<char>,
    findings: Seq<FindingView>,
) -> OutcomeModel {
    if findings.len() == 0 {
        outcome
    } else if outcome.findings.dom().contains(path) {
        OutcomeModel {
            files: outcome.files,
            findings: outcome.findings.insert(path, outcome.findings[path] + findings),
        }
    } else {
        outcome.with_file(path, findings)
    }
}

/// Flags the events of one file: adds to `outcome`, under `path`, one
/// finding for each flagged event, in the order of the events.
pub fn flag_events(path: &String, events: &Vec<Construct>, outcome: &mut Outcome)
    ensures
        final(outcome).model() == extended(
            old(outcome).model(),
            path@,
            flagged(construct_views(events@)),
        ),
{
    let ghost before = outcome.model();
    let ghost views = construct_views(events@);
    let mut k: usize = 0;
    assert(views.take(0) =~= Seq::<ConstructView>::empty());
    while k < events.len()
        invariant
            k <= events@.len(),
            views == construct_views(events@),
            outcome.model() == extended(before, path@, flagged(views.take(k as int))),
        decreases events@.len() - k,
    {
        let event = &events[k];
        let ghost current = outcome.model();
        let ghost so_far = flagged(views.take(k as int));
        proof {
            assert(views.take(k + 1).drop_last() =~= views.take(k as int));
            assert(views.take(k + 1).last() == event@);
        }
        let (indexed, non_array) = count_parameters(&event.fields);
        if needs_indexing(indexed, non_array) {
            outcome.push_or_insert(path.clone(), event.loc, event.snippet.clone());
            proof {
                let finding = FindingView { loc: event.loc, snippet: event.snippet@ };
                assert(flagged(views.take(k + 1)) =~= so_far.push(finding));
                let next = extended(before, path@, so_far.push(finding));
                assert(outcome@ =~= next.findings) by {
                    if so_far.len() > 0 && before.findings.dom().contains(path@) {
                        assert(before.findings[path@] + so_far.push(finding) =~= (
                        before.findings[path@] + so_far).push(finding));
                    }
                    if so_far.len() == 0 && before.findings.dom().contains(path@) {
                        assert(before.findings[path@] + so_far.push(finding)
                            =~= before.findings[path@].push(finding));
                    }
                    if so_far.len() == 0 && !before.findings.dom().contains(path@) {
                        assert(so_far.push(finding) =~= seq![finding]);
                    }
                }
                assert(outcome.files() =~= next.files);
            }
        } else {
            assert(flagged(views.take(k + 1)) =~= so_far);
        }
        k = k + 1;
    }
    assert(views.take(k as int) =~= views);
}

/// A rule that failed on the first files of a list fails alike on the
/// whole list.
pub proof fn lemma_report_failure(files: Seq<SourceFileView>, n: int)
    requires
        0 <= n <= files.len(),
        report(files.take(n)) is Err,
    ensures
        report(files) == report(files.take(n)),
    decreases files.len() - n,
{
    if n < files.len() {
        assert(files.take(n + 1).drop_last() =~= files.take(n));
        lemma_report_failure(files, n + 1);
    } else {
        assert(files.take(n) =~= files);
    }
}

/// Every file of an outcome is a file of the source collection and has a
/// finding, and the outcome lists exactly the files that it has findings
/// for.
pub proof fn lemma_report_files(files: Seq<SourceFileView>)
    ensures
        report(files) matches Ok(outcome) ==> {
            &&& outcome.findings.dom() == outcome.files.to_set()
            &&& forall|path: Seq<char>| #[trigger]
                outcome.findings.dom().contains(path) ==> paths_of(files).contains(path)
                    && outcome.findings[path].len() > 0
        },
    decreases files.len(),
{
    if files.len() > 0 {
        let rest = files.drop_last();
        lemma_report_files(rest);
        if let Ok(outcome) = report(files) {
            let earlier = report(rest)->Ok_0;
            assert forall|path: Seq<char>| #[trigger]
                outcome.findings.dom().contains(path) implies paths_of(files).contains(path)
                && outcome.findings[path].len() > 0 by {
                if earlier.findings.dom().contains(path) {
                    let i = paths_of(rest).index_of(path);
                    assert(paths_of(rest)[i] == path);
                    assert(paths_of(files)[i] == path);
                } else {
                    assert(paths_of(files)[files.len() - 1] == path);
                }
            }
            assert(outcome.findings.dom() =~= outcome.files.to_set()) by {
                if outcome != earlier {
                    let path = files.last().path;
                    assert forall|p: Seq<char>| outcome.files.contains(p) <==> (
                    earlier.files.contains(p) || p == path) by {
                        if earlier.files.contains(p) {
                            let i = earlier.files.index_of(p);
                            assert(outcome.files[i] == p);
                        }
                        if p == path {
                            assert(outcome.files[earlier.files.len() as int] == p);
                        }
                    }
                }
            }
        }
    } else {
        assert(OutcomeModel::empty().findings.dom() =~= OutcomeModel::empty().files.to_set());
    }
}

/// A finding never points outside the tree it was taken from: it carries
/// the location and the text of a flagged event of that tree, and its
/// location is a span of a source file.
pub proof fn lemma_findings_located(tree: Seq<NodeView>)
    ensures
        tree_findings(tree) matches Ok(findings) ==> forall|i: int|
            0 <= i < findings.len() ==> {
                &&& (#[trigger] findings[i]).loc.is_span()
                &&& exists|j: int|
                    {
                        &&& 0 <= j < matching(tree, ConstructKind::Event).len()
                        &&& finding_of(#[trigger] matching(tree, ConstructKind::Event)[j]) == Some(
                            findings[i],
                        )
                    }
            },
{
    if let Ok(findings) = tree_findings(tree) {
        let events = matching(tree, ConstructKind::Event);
        lemma_first_degenerate_none(events);
        assert forall|i: int| 0 <= i < findings.len() implies {
            &&& (#[trigger] findings[i]).loc.is_span()
            &&& exists|j: int|
                {
                    &&& 0 <= j < events.len()
                    &&& finding_of(#[trigger] events[j]) == Some(findings[i])
                }
        } by {
            assert(findings.contains(findings[i]));
            events.lemma_filter_map_contains(
                |event: ConstructView| finding_of(event),
                findings[i],
            );
            let event = choose|event: ConstructView| #[trigger]
                events.contains(event) && finding_of(event) == Some(findings[i]);
            let j = events.index_of(event);
            assert(events[j] == event);
            assert(events[j].loc.is_span());
        }
    }
}

impl OptimizationPattern for EventIndexing {
    open spec fn detection(source: Seq<SourceFileView>) -> Result<OutcomeModel, EngineError> {
        match report(source) {
            Ok(outcome) => Ok(outcome),
            Err(e) => Err(EngineError::ExtractionError(e)),
        }
    }

    /// Flags, in every file, the events that leave an indexable parameter
    /// unindexed. A file whose events cannot be extracted ends the rule
    /// with that failure, and no outcome.
    fn find(source: &SourceCollection) -> (r: Result<OptimizationOutcome, EngineError>)
        ensures
            r matches Ok(outcome) ==> forall|path: Seq<char>| #[trigger]
                outcome.model().findings.dom().contains(path) ==> source.has_path(path),
    {
        let files = source.files();
        let mut outcome = Outcome::new();
        let mut i: usize = 0;
        assert(source@.take(0) =~= Seq::<SourceFileView>::empty());
        while i < files.len()
            invariant
                i <= files@.len(),
                files@.len() == source@.len(),
                forall|j: int| 0 <= j < files@.len() ==> (#[trigger] files@[j])@ == source@[j],
                source.paths().no_duplicates(),
                report(source@.take(i as int)) == Ok::<OutcomeModel, ExtractionError>(
                    outcome.model(),
                ),
            decreases files@.len() - i,
        {
            let file = &files[i];
            let ghost seen = source@.take(i as int);
            let ghost next = source@.take(i + 1);
            proof {
                assert(next.drop_last() =~= seen);
                assert(next.last() == file@);
                lemma_report_files(seen);
                if outcome@.dom().contains(file.path@) {
                    let j = paths_of(seen).index_of(file.path@);
                    assert(paths_of(seen)[j] == file.path@);
                    assert(source.paths()[j] == file.path@);
                    assert(source.paths()[i as int] == file.path@);
                }
            }
            match EventExtractor::extract(&file.tree) {
                Ok(events) => {
                    flag_events(&file.path, &events, &mut outcome);
                },
                Err(e) => {
                    proof {
                        lemma_report_failure(source@, i + 1);
                    }
                    return Err(EngineError::ExtractionError(e));
                },
            }
            i = i + 1;
        }
        proof {
            assert(source@.take(i as int) =~= source@);
            lemma_report_files(source@);
        }
        Ok(OptimizationOutcome::EventIndexing(outcome))
    }
}

} // verus!
