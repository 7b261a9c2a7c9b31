//! The source collection: the parsed trees of one run, by file path.

use vstd::prelude::*;
use crate::tree::{NodeView, SourceTree};

verus! {

/// One parsed source file.
#[derive(Debug)]
pub struct SourceFile {
    pub path: String,
    pub tree: SourceTree,
}

/// A parsed source file as a mathematical value.
pub ghost struct SourceFileView {
    pub path: Seq<char>,
    pub tree: Seq<NodeView>,
}

impl View for SourceFile {
    type V = SourceFileView;

    open spec fn view(&self) -> SourceFileView {
        SourceFileView { path: self.path@, tree: self.tree@ }
    }
}

/// The paths of a list of files, in order.
pub open spec fn paths_of(files: Seq<SourceFileView>) -> Seq<Seq<char>> {
    Seq::new(files.len(), |i: int| files[i].path)
}

/// A list of files after `tree` was put at `path`: a path that the list
/// holds keeps its place and gets the tree; a new path goes to the end.
pub open spec fn placed(
    files: Seq<SourceFileView>,
    path: Seq<char>,
    tree: Seq<NodeView>,
) -> Seq<SourceFileView> {
    let file = SourceFileView { path, tree };
    if paths_of(files).contains(path) {
        files.update(paths_of(files).index_of(path), file)
    } else {
        files.push(file)
    }
}

/// The parsed trees of one run. Each path has one tree; the files are kept
/// in the order in which they came in. Rules read the collection and never
/// change it.
#[derive(Debug)]
pub struct SourceCollection {
    files: Vec<SourceFile>,
}

impl View for SourceCollection {
    type V = Seq<SourceFileView>;

    closed spec fn view(&self) -> Seq<SourceFileView> {
        Seq::new(self.files@.len(), |i: int| self.files@[i]@)
    }
}

impl SourceCollection {
    #[verifier::type_invariant]
    spec fn well_formed(self) -> bool {
        forall|i: int, j: int|
            0 <= i < j < self.files@.len() ==> (#[trigger] self.files@[i]).path@ != (
            #[trigger] self.files@[j]).path@
    }

    /// The paths of the files, in order.
    pub open spec fn paths(self) -> Seq<Seq<char>> {
        paths_of(self@)
    }

    /// Whether the collection holds a file at `path`.
    pub open spec fn has_path(self, path: Seq<char>) -> bool {
        self.paths().contains(path)
    }

    /// A collection without files.
    pub fn new() -> (collection: SourceCollection)
        ensures
            collection@ == Seq::<SourceFileView>::empty(),
    {
        let collection = SourceCollection { files: Vec::new() };
        assert(collection@ =~= Seq::<SourceFileView>::empty());
        collection
    }

    /// The files, in order. No path occurs twice.
    pub fn files(&self) -> (files: &Vec<SourceFile>)
        ensures
            files@.len() == self@.len(),
            forall|i: int| 0 <= i < files@.len() ==> (#[trigger] files@[i])@ == self@[i],
            self.paths().no_duplicates(),
    {
        proof {
            use_type_invariant(self);
        }
        &self.files
    }

    /// The number of files.
    pub fn len(&self) -> (n: usize)
        ensures
            n == self@.len(),
    {
        self.files.len()
    }

    /// Whether the collection holds no file.
    pub fn is_empty(&self) -> (b: bool)
        ensures
            b == (self@.len() == 0),
    {
        self.files.len() == 0
    }

    /// The tree of the file at `path`, if the collection holds one.
    pub fn get(&self, path: &String) -> (found: Option<&SourceTree>)
        ensures
            match found {
                Some(tree) => self.has_path(path@) && tree@ == self@[self.paths().index_of(
                    path@,
                )].tree,
                None => !self.has_path(path@),
            },
    {
        let mut i: usize = 0;
        while i < self.files.len()
            invariant
                i <= self.files@.len(),
                forall|j: int| 0 <= j < i ==> (#[trigger] self@[j]).path != path@,
            decreases self.files@.len() - i,
        {
            if self.files[i].path == *path {
                proof {
                    use_type_invariant(self);
                    assert(self.paths()[i as int] == path@);
                    let k = self.paths().index_of(path@);
                    assert(self.paths()[k] == path@);
                    assert(self@[k].path == path@);
                    assert(k == i);
                }
                return Some(&self.files[i].tree);
            }
            i = i + 1;
        }
        proof {
            if self.has_path(path@) {
                let k = self.paths().index_of(path@);
                assert(self.paths()[k] == path@);
                assert(self@[k].path == path@);
            }
        }
        None
    }

    /// Puts `tree` at `path`. A path that the collection holds keeps its
    /// place and gets the new tree, and the tree it had is returned; a new
    /// path goes to the end.
    pub fn insert(&mut self, path: String, tree: SourceTree) -> (replaced: Option<SourceTree>)
        ensures
            final(self)@ == placed(old(self)@, path@, tree@),
            match replaced {
                Some(previous) => old(self).has_path(path@) && previous@ == old(
                    self,
                )@[old(self).paths().index_of(path@)].tree,
                None => !old(self).has_path(path@),
            },
    {
        proof {
            use_type_invariant(&*self);
        }
        let ghost before = *self;
        let ghost added = SourceFileView { path: path@, tree: tree@ };
        let mut i: usize = 0;
        while i < self.files.len() && !(self.files[i].path == path)
            invariant
                i <= self.files@.len(),
                *self == before,
                forall|j: int| 0 <= j < i ==> (#[trigger] self@[j]).path != path@,
            decreases self.files@.len() - i,
        {
            i = i + 1;
        }
        let mut taken = SourceCollection { files: Vec::new() };
        core::mem::swap(self, &mut taken);
        let mut files = taken.files;
        if i < files.len() {
            let mut file = SourceFile { path, tree };
            core::mem::swap(&mut files[i], &mut file);
            *self = SourceCollection { files };
            proof {
                assert(before.paths()[i as int] == path@);
                let k = before.paths().index_of(path@);
                assert(before.paths()[k] == path@);
                assert(before@[k].path == path@);
                assert(k == i);
                assert(self@ =~= before@.update(i as int, added));
            }
            Some(file.tree)
        } else {
            proof {
                assert forall|j: int| 0 <= j < before.files@.len() implies (
                #[trigger] before.files@[j]).path@ != path@ by {
                    assert(before@[j].path != path@);
                }
            }
            files.push(SourceFile { path, tree });
            *self = SourceCollection { files };
            proof {
                assert(self@ =~= before@.push(added));
                assert forall|k: int| 0 <= k < before.paths().len() implies before.paths()[k]
                    != path@ by {
                    assert(before@[k].path != path@);
                }
            }
            None
        }
    }
}

} // verus!
