//! The extraction layer: pulls the constructs of one kind out of a tree.
//!
//! Every rule reads a tree through this layer, so no rule walks a tree
//! itself. Constructs come out in the order in which the source declares
//! them, whatever their depth.

use vstd::prelude::*;
use crate::loc::Loc;
use crate::tree::{
    construct_views, lemma_children_view, node_views, Construct, ConstructKind, ConstructView,
    Node, NodeView, SourceTree,
};

verus! {

/// Why the constructs of a file could not be had.
#[derive(Clone, Copy, Debug, PartialEq, Eq, Structural)]
pub enum ExtractionError {
    /// The source did not parse; holds the number of diagnostics.
    Unparsable(usize),
    /// A requested construct stands at a location that is no span of a
    /// source file; holds that location.
    Degenerate(Loc),
}

/// The constructs of `kind` among `nodes` and below them, in the order of
/// the source: a node comes before what it declares, and both come before
/// the node's next sibling.
pub open spec fn matching(nodes: Seq<NodeView>, kind: ConstructKind) -> Seq<ConstructView>
    decreases nodes,
{
    if nodes.len() == 0 {
        Seq::empty()
    } else {
        let last = nodes.last();
        let own = if last.kind == kind {
            seq![last.construct()]
        } else {
            Seq::empty()
        };
        matching(nodes.drop_last(), kind) + own + matching(last.children, kind)
    }
}

/// Whether a construct of `kind` stands among `nodes` or below them.
pub open spec fn occurs(nodes: Seq<NodeView>, kind: ConstructKind) -> bool
    decreases nodes,
{
    if nodes.len() == 0 {
        false
    } else {
        let last = nodes.last();
        occurs(nodes.drop_last(), kind) || last.kind == kind || occurs(last.children, kind)
    }
}

/// The location of the first construct that is no span of a file, if any.
pub open spec fn first_degenerate(constructs: Seq<ConstructView>) -> Option<Loc>
    decreases constructs.len(),
{
    if constructs.len() == 0 {
        None
    } else if !constructs.first().loc.is_span() {
        Some(constructs.first().loc)
    } else {
        first_degenerate(constructs.drop_first())
    }
}

/// What extraction yields: the constructs of `kind` in source order, or
/// the first of them that is degenerate.
pub open spec fn extraction(tree: Seq<NodeView>, kind: ConstructKind) -> Result<
    Seq<ConstructView>,
    ExtractionError,
> {
    let found = matching(tree, kind);
    match first_degenerate(found) {
        Some(loc) => Err(ExtractionError::Degenerate(loc)),
        None => Ok(found),
    }
}

/// `first_degenerate` is `None` exactly when every location is a span.
pub proof fn lemma_first_degenerate_none(constructs: Seq<ConstructView>)
    ensures
        first_degenerate(constructs) is None <==> forall|i: int|
            0 <= i < constructs.len() ==> (#[trigger] constructs[i]).loc.is_span(),
    decreases constructs.len(),
{
    if constructs.len() > 0 {
        let rest = constructs.drop_first();
        lemma_first_degenerate_none(rest);
        if constructs.first().loc.is_span() {
            if first_degenerate(rest) is None {
                assert forall|i: int| 0 <= i < constructs.len() implies (
                #[trigger] constructs[i]).loc.is_span() by {
                    if i > 0 {
                        assert(constructs[i] == rest[i - 1]);
                    }
                }
            } else {
                let j = choose|j: int| 0 <= j < rest.len() && !(#[trigger] rest[j]).loc.is_span();
                assert(constructs[j + 1] == rest[j]);
            }
        }
    }
}

/// Where the first `n` locations are spans and the next one is not, that
/// next one is the first degenerate location.
pub proof fn lemma_first_degenerate_at(constructs: Seq<ConstructView>, n: int)
    requires
        0 <= n < constructs.len(),
        forall|i: int| 0 <= i < n ==> (#[trigger] constructs[i]).loc.is_span(),
        !constructs[n].loc.is_span(),
    ensures
        first_degenerate(constructs) == Some(constructs[n].loc),
    decreases n,
{
    if n > 0 {
        let rest = constructs.drop_first();
        assert(constructs[0].loc.is_span());
        assert forall|i: int| 0 <= i < n - 1 implies (#[trigger] rest[i]).loc.is_span() by {
            assert(rest[i] == constructs[i + 1]);
        }
        lemma_first_degenerate_at(rest, n - 1);
    }
}

/// A tree that holds no construct of a kind yields none of that kind.
pub proof fn lemma_matching_absent(nodes: Seq<NodeView>, kind: ConstructKind)
    requires
        !occurs(nodes, kind),
    ensures
        matching(nodes, kind) == Seq::<ConstructView>::empty(),
    decreases nodes,
{
    if nodes.len() > 0 {
        lemma_matching_absent(nodes.drop_last(), kind);
        lemma_matching_absent(nodes.last().children, kind);
        assert(matching(nodes, kind) =~= Seq::<ConstructView>::empty());
    }
}

/// Extraction over a tree without a construct of the kind asked for gives
/// the empty sequence, and does not fail.
pub proof fn lemma_extraction_absent(tree: Seq<NodeView>, kind: ConstructKind)
    requires
        !occurs(tree, kind),
    ensures
        extraction(tree, kind) == Ok::<Seq<ConstructView>, ExtractionError>(Seq::empty()),
{
    lemma_matching_absent(tree, kind);
}

/// Every construct that extraction yields is of the kind asked for.
pub proof fn lemma_matching_kind(nodes: Seq<NodeView>, kind: ConstructKind)
    ensures
        forall|i: int|
            0 <= i < matching(nodes, kind).len() ==> (#[trigger] matching(nodes, kind)[i]).kind
                == kind,
    decreases nodes,
{
    if nodes.len() > 0 {
        lemma_matching_kind(nodes.drop_last(), kind);
        lemma_matching_kind(nodes.last().children, kind);
    }
}

/// Appends to `found` the constructs of `kind` among `nodes` and below.
fn collect(nodes: &Vec<Node>, kind: ConstructKind, found: &mut Vec<Construct>)
    ensures
        construct_views(final(found)@) == construct_views(old(found)@) + matching(
            node_views(nodes@),
            kind,
        ),
    decreases nodes,
{
    let ghost views = node_views(nodes@);
    let ghost before = construct_views(found@);
    let mut i: usize = 0;
    assert(views.take(0) =~= Seq::<NodeView>::empty());
    assert(before + matching(views.take(0), kind) =~= before);
    while i < nodes.len()
        invariant
            i <= nodes@.len(),
            views == node_views(nodes@),
            construct_views(found@) == before + matching(views.take(i as int), kind),
        decreases nodes@.len() - i,
    {
        let node = &nodes[i];
        let ghost head = matching(views.take(i as int), kind);
        proof {
            lemma_children_view(*node);
            assert(views.take(i + 1).drop_last() =~= views.take(i as int));
            assert(views.take(i + 1).last() == node@);
        }
        if node.kind == kind {
            let ghost prior = construct_views(found@);
            let c = node.construct();
            found.push(c);
            assert(construct_views(found@) =~= prior + seq![node@.construct()]);
        }
        let ghost middle = construct_views(found@);
        collect(&node.children, kind, found);
        proof {
            let own = if node@.kind == kind {
                seq![node@.construct()]
            } else {
                Seq::empty()
            };
            assert(middle =~= before + head + own);
            assert(construct_views(found@) =~= before + (head + own + matching(
                node@.children,
                kind,
            )));
        }
        i = i + 1;
    }
    assert(views.take(i as int) =~= views);
}

/// Pulls the constructs of `kind` out of `tree`, in the order in which the
/// source declares them, whatever their depth.
///
/// Fails only on a degenerate tree: one that holds a construct of `kind`
/// whose location is no span of a source file. The error names the first
/// such location.
pub fn extract(tree: &SourceTree, kind: ConstructKind) -> (r: Result<
    Vec<Construct>,
    ExtractionError,
>)
    ensures
        match r {
            Ok(found) => extraction(tree@, kind) == Ok::<Seq<ConstructView>, ExtractionError>(
                construct_views(found@),
            ),
            Err(e) => extraction(tree@, kind) == Err::<Seq<ConstructView>, ExtractionError>(e),
        },
{
    let mut found: Vec<Construct> = Vec::new();
    collect(&tree.nodes, kind, &mut found);
    let ghost all = construct_views(found@);
    assert(all =~= matching(tree@, kind));
    let mut i: usize = 0;
    while i < found.len()
        invariant
            i <= found@.len(),
            all == construct_views(found@),
            all == matching(tree@, kind),
            forall|j: int| 0 <= j < i ==> (#[trigger] all[j]).loc.is_span(),
        decreases found@.len() - i,
    {
        if !found[i].loc.in_file() {
            proof {
                lemma_first_degenerate_at(all, i as int);
            }
            return Err(ExtractionError::Degenerate(found[i].loc));
        }
        i = i + 1;
    }
    proof {
        lemma_first_degenerate_none(all);
    }
    Ok(found)
}

/// An extractor pulls the constructs of one fixed kind.
pub trait Extractor {
    /// The kind that this extractor pulls.
    spec fn kind() -> ConstructKind;

    fn extract(tree: &SourceTree) -> (r: Result<Vec<Construct>, ExtractionError>)
        ensures
            match r {
                Ok(found) => extraction(tree@, Self::kind()) == Ok::<
                    Seq<ConstructView>,
                    ExtractionError,
                >(construct_views(found@)),
                Err(e) => extraction(tree@, Self::kind()) == Err::<
                    Seq<ConstructView>,
                    ExtractionError,
                >(e),
            },
    ;
}

/// Pulls the event declarations.
pub struct EventExtractor;

impl Extractor for EventExtractor {
    open spec fn kind() -> ConstructKind {
        ConstructKind::Event
    }

    fn extract(tree: &SourceTree) -> (r: Result<Vec<Construct>, ExtractionError>) {
        self::extract(tree, ConstructKind::Event)
    }
}

} // verus!
