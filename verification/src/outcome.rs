//! What a rule reports: per file, the findings in the order of the source.

use vstd::prelude::*;
use crate::loc::Loc;

verus! {

/// The text of a flagged construct.
pub type Snippet = String;

/// One flagged occurrence: where it stands and what it reads.
#[derive(Debug)]
pub struct Finding {
    pub loc: Loc,
    pub snippet: Snippet,
}

/// A finding as a mathematical value.
pub ghost struct FindingView {
    pub loc: Loc,
    pub snippet: Seq<char>,
}

impl View for Finding {
    type V = FindingView;

    open spec fn view(&self) -> FindingView {
        FindingView { loc: self.loc, snippet: self.snippet@ }
    }
}

/// The views of a list of findings, in order.
pub open spec fn finding_views(findings: Seq<Finding>) -> Seq<FindingView> {
    Seq::new(findings.len(), |i: int| findings[i]@)
}

/// The number of findings that `outcome` holds for the files of `files`.
pub open spec fn findings_in(
    outcome: Map<Seq<char>, Seq<FindingView>>,
    files: Seq<Seq<char>>,
) -> nat
    decreases files.len(),
{
    if files.len() == 0 {
        0
    } else {
        findings_in(outcome, files.drop_last()) + outcome[files.last()].len()
    }
}

/// The findings of one file.
#[derive(Debug)]
pub struct FileFindings {
    pub path: String,
    pub findings: Vec<Finding>,
}

/// The result of one rule: a map from file path to the findings in that
/// file. A file without a finding has no entry. Files are kept in the order
/// in which their first finding came in.
#[derive(Debug)]
pub struct Outcome {
    entries: Vec<FileFindings>,
}

/// An outcome as a mathematical value: the files in order, and the
/// findings of each.
pub ghost struct OutcomeModel {
    pub files: Seq<Seq<char>>,
    pub findings: Map<Seq<char>, Seq<FindingView>>,
}

impl OutcomeModel {
    /// The outcome without findings.
    pub open spec fn empty() -> OutcomeModel {
        OutcomeModel { files: Seq::empty(), findings: Map::empty() }
    }

    /// The outcome with one more file, which comes last.
    pub open spec fn with_file(self, path: Seq<char>, findings: Seq<FindingView>) -> OutcomeModel {
        OutcomeModel {
            files: self.files.push(path),
            findings: self.findings.insert(path, findings),
        }
    }
}

/// Adding one finding to the entry of its file.
pub trait Pushable {
    fn push_or_insert(&mut self, path: String, loc: Loc, snippet: Snippet);
}

impl Outcome {
    #[verifier::type_invariant]
    spec fn well_formed(self) -> bool {
        &&& forall|i: int, j: int|
            0 <= i < j < self.entries@.len() ==> (#[trigger] self.entries@[i]).path@ != (
            #[trigger] self.entries@[j]).path@
        &&& forall|i: int|
            0 <= i < self.entries@.len() ==> (#[trigger] self.entries@[i]).findings@.len() > 0
    }

    /// The paths of the files that have an entry, in order.
    pub closed spec fn files(self) -> Seq<Seq<char>> {
        Seq::new(self.entries@.len(), |i: int| self.entries@[i].path@)
    }

    /// An outcome without findings.
    pub fn new() -> (outcome: Outcome)
        ensures
            outcome@ == Map::<Seq<char>, Seq<FindingView>>::empty(),
            outcome.files() == Seq::<Seq<char>>::empty(),
    {
        let outcome = Outcome { entries: Vec::new() };
        assert(outcome@ =~= Map::<Seq<char>, Seq<FindingView>>::empty());
        assert(outcome.files() =~= Seq::<Seq<char>>::empty());
        outcome
    }

    /// The number of findings, over all files.
    pub open spec fn total(self) -> nat {
        findings_in(self@, self.files())
    }

    /// The files in order, and the findings of each.
    pub open spec fn model(self) -> OutcomeModel {
        OutcomeModel { files: self.files(), findings: self@ }
    }

    /// The entries, one per file, in the order of `files`. No path occurs
    /// twice, and no entry is empty.
    pub fn entries(&self) -> (entries: &Vec<FileFindings>)
        ensures
            entries@.len() == self.files().len(),
            forall|i: int|
                0 <= i < entries@.len() ==> {
                    &&& (#[trigger] entries@[i]).path@ == self.files()[i]
                    &&& finding_views(entries@[i].findings@) == self@[self.files()[i]]
                    &&& entries@[i].findings@.len() > 0
                },
            self.files().no_duplicates(),
            self@.dom() == self.files().to_set(),
    {
        proof {
            use_type_invariant(self);
            assert forall|i: int| 0 <= i < self.entries@.len() implies finding_views(
                (#[trigger] self.entries@[i]).findings@,
            ) == self@[self.files()[i]] by {
                let k = self.files().index_of(self.files()[i]);
                assert(self.files()[k] == self.files()[i]);
            }
            assert(self@.dom() =~= self.files().to_set());
        }
        &self.entries
    }

    /// The number of files that have a finding.
    pub fn len(&self) -> (n: usize)
        ensures
            n == self.files().len(),
            n == self@.dom().len(),
    {
        let entries = self.entries();
        proof {
            self.files().unique_seq_to_set();
        }
        entries.len()
    }

    /// Whether no file has a finding.
    pub fn is_empty(&self) -> (b: bool)
        ensures
            b == (self@.dom().len() == 0),
    {
        self.len() == 0
    }

    /// The findings of the file at `path`, if it has any.
    pub fn get(&self, path: &String) -> (found: Option<&Vec<Finding>>)
        ensures
            match found {
                Some(findings) => self@.dom().contains(path@) && finding_views(findings@)
                    == self@[path@],
                None => !self@.dom().contains(path@),
            },
    {
        let entries = self.entries();
        let mut i: usize = 0;
        while i < entries.len()
            invariant
                i <= entries@.len(),
                entries@.len() == self.files().len(),
                forall|j: int|
                    0 <= j < entries@.len() ==> {
                        &&& (#[trigger] entries@[j]).path@ == self.files()[j]
                        &&& finding_views(entries@[j].findings@) == self@[self.files()[j]]
                    },
                self@.dom() == self.files().to_set(),
                forall|j: int| 0 <= j < i ==> self.files()[j] != path@,
            decreases entries@.len() - i,
        {
            if entries[i].path == *path {
                assert(self.files()[i as int] == path@);
                return Some(&entries[i].findings);
            }
            i = i + 1;
        }
        None
    }

    /// The number of findings over all files; `usize::MAX` where there are
    /// more.
    pub fn finding_count(&self) -> (n: usize)
        ensures
            n == if self.total() <= usize::MAX {
                self.total()
            } else {
                usize::MAX as nat
            },
    {
        let entries = self.entries();
        let mut n: usize = 0;
        let mut i: usize = 0;
        assert(self.files().take(0) =~= Seq::<Seq<char>>::empty());
        while i < entries.len()
            invariant
                i <= entries@.len(),
                entries@.len() == self.files().len(),
                forall|j: int|
                    0 <= j < entries@.len() ==> finding_views((#[trigger] entries@[j]).findings@)
                        == self@[self.files()[j]],
                n == if findings_in(self@, self.files().take(i as int)) <= usize::MAX {
                    findings_in(self@, self.files().take(i as int))
                } else {
                    usize::MAX as nat
                },
            decreases entries@.len() - i,
        {
            proof {
                assert(self.files().take(i + 1).drop_last() =~= self.files().take(i as int));
                assert(finding_views(entries@[i as int].findings@).len()
                    == entries@[i as int].findings@.len());
            }
            n = n.saturating_add(entries[i].findings.len());
            i = i + 1;
        }
        assert(self.files().take(i as int) =~= self.files());
        n
    }
}

impl Clone for Finding {
    fn clone(&self) -> (copy: Finding)
        ensures
            copy@ == self@,
    {
        Finding { loc: self.loc, snippet: self.snippet.clone() }
    }
}

impl Clone for Outcome {
    fn clone(&self) -> (copy: Outcome)
        ensures
            copy@ == self@,
            copy.files() == self.files(),
    {
        proof {
            use_type_invariant(self);
        }
        let mut entries: Vec<FileFindings> = Vec::new();
        let mut i: usize = 0;
        while i < self.entries.len()
            invariant
                i <= self.entries@.len(),
                entries@.len() == i,
                forall|j: int|
                    0 <= j < i ==> {
                        &&& (#[trigger] entries@[j]).path@ == self.entries@[j].path@
                        &&& finding_views(entries@[j].findings@) == finding_views(
                            self.entries@[j].findings@,
                        )
                    },
            decreases self.entries@.len() - i,
        {
            let source = &self.entries[i];
            let mut findings: Vec<Finding> = Vec::new();
            let mut k: usize = 0;
            while k < source.findings.len()
                invariant
                    k <= source.findings@.len(),
                    findings@.len() == k,
                    forall|j: int|
                        0 <= j < k ==> (#[trigger] findings@[j])@ == source.findings@[j]@,
                decreases source.findings@.len() - k,
            {
                findings.push(source.findings[k].clone());
                k = k + 1;
            }
            assert(finding_views(findings@) =~= finding_views(source.findings@));
            entries.push(FileFindings { path: source.path.clone(), findings });
            i = i + 1;
        }
        proof {
            assert forall|j: int| 0 <= j < entries@.len() implies (
            #[trigger] entries@[j]).findings@.len() > 0 by {
                assert(finding_views(entries@[j].findings@).len() == finding_views(
                    self.entries@[j].findings@,
                ).len());
            }
        }
        let copy = Outcome { entries };
        proof {
            assert(copy.files() =~= self.files());
            assert(copy@ =~= self@);
        }
        copy
    }
}

impl View for Outcome {
    type V = Map<Seq<char>, Seq<FindingView>>;

    closed spec fn view(&self) -> Map<Seq<char>, Seq<FindingView>> {
        Map::new(
            |path: Seq<char>| self.files().contains(path),
            |path: Seq<char>| finding_views(self.entries@[self.files().index_of(path)].findings@),
        )
    }
}

/// The entry of `path` after one more finding: what it held, if anything,
/// and then `finding`.
pub open spec fn pushed(
    outcome: Map<Seq<char>, Seq<FindingView>>,
    path: Seq<char>,
    finding: FindingView,
) -> Map<Seq<char>, Seq<FindingView>> {
    if outcome.dom().contains(path) {
        outcome.insert(path, outcome[path].push(finding))
    } else {
        outcome.insert(path, seq![finding])
    }
}

impl Pushable for Outcome {
    /// Appends a finding to the entry of `path`, making the entry first
    /// where the file has none.
    fn push_or_insert(&mut self, path: String, loc: Loc, snippet: Snippet)
        ensures
            final(self)@ == pushed(old(self)@, path@, FindingView { loc, snippet: snippet@ }),
            final(self).files() == if old(self)@.dom().contains(path@) {
                old(self).files()
            } else {
                old(self).files().push(path@)
            },
    {
        proof {
            use_type_invariant(&*self);
        }
        let ghost before = *self;
        let ghost added = FindingView { loc, snippet: snippet@ };
        let finding = Finding { loc, snippet };
        let mut i: usize = 0;
        while i < self.entries.len() && !(self.entries[i].path == path)
            invariant
                i <= self.entries@.len(),
                *self == before,
                forall|j: int| 0 <= j < i ==> (#[trigger] self.entries@[j]).path@ != path@,
            decreases self.entries@.len() - i,
        {
            i = i + 1;
        }
        let mut taken = Outcome { entries: Vec::new() };
        core::mem::swap(self, &mut taken);
        let mut entries = taken.entries;
        if i < entries.len() {
            entries[i].findings.push(finding);
            *self = Outcome { entries };
            proof {
                assert(self.files() =~= before.files());
                assert(before.files()[i as int] == path@);
                assert(before.files().index_of(path@) == i);
                assert forall|p: Seq<char>| self.files().contains(p) implies #[trigger] self@[p]
                    == pushed(before@, path@, added)[p] by {
                    let k = self.files().index_of(p);
                    assert(self.files()[k] == p);
                    if k == i {
                        assert(self@[p] =~= before@[p].push(added));
                    } else {
                        assert(self.entries@[k] == before.entries@[k]);
                    }
                }
                assert(self@ =~= pushed(before@, path@, added));
            }
        } else {
            entries.push(FileFindings { path, findings: vec![finding] });
            *self = Outcome { entries };
            proof {
                assert(self.files() =~= before.files().push(path@));
                assert(!before.files().contains(path@));
                let n = before.entries@.len() as int;
                assert(self.files()[n] == path@);
                assert forall|p: Seq<char>| self.files().contains(p) implies #[trigger] self@[p]
                    == pushed(before@, path@, added)[p] by {
                    let k = self.files().index_of(p);
                    assert(self.files()[k] == p);
                    if k == n {
                        assert(self@[p] =~= seq![added]);
                    } else {
                        assert(before.files()[k] == p);
                        let m = before.files().index_of(p);
                        assert(before.files()[m] == p);
                        assert(m == k);
                    }
                }
                assert forall|p: Seq<char>|
                    before.files().contains(p) || p == path@ implies self.files().contains(p) by {
                    if p != path@ {
                        let m = before.files().index_of(p);
                        assert(self.files()[m] == p);
                    }
                }
                assert(self@.dom() =~= before@.dom().insert(path@));
                assert(self@ =~= pushed(before@, path@, added));
            }
        }
    }
}

} // verus!
