//! The parsed source tree, as far as the rules read it.
//!
//! A tree is the ordered list of the constructs that a source file declares.
//! A construct that declares others, as a contract does, holds them as its
//! children, in the order of the source.

use vstd::prelude::*;
use crate::loc::Loc;

verus! {

/// The syntactic kind of a declared construct.
#[derive(Clone, Copy, Debug, PartialEq, Eq, Structural)]
pub enum ConstructKind {
    Pragma,
    Import,
    Contract,
    Event,
    Function,
    Variable,
    Struct,
    Enum,
    Error,
    TypeDefinition,
    Using,
    Other,
}

/// The outermost form of a type expression.
#[derive(Clone, Copy, Debug, PartialEq, Eq, Structural)]
pub enum TypeShape {
    /// `T[]` or `T[n]`.
    Array,
    /// `T[a:b]`.
    Slice,
    /// Any other type.
    Plain,
}

/// One parameter of an event declaration.
#[derive(Clone, Copy, Debug, PartialEq, Eq, Structural)]
pub struct EventField {
    pub ty: TypeShape,
    pub indexed: bool,
}

/// A declared construct, without what it declares inside.
#[derive(Debug)]
pub struct Construct {
    pub kind: ConstructKind,
    pub loc: Loc,
    /// The text of the construct.
    pub snippet: String,
    /// The parameters of an event; empty for every other kind.
    pub fields: Vec<EventField>,
}

/// A construct as a mathematical value.
pub ghost struct ConstructView {
    pub kind: ConstructKind,
    pub loc: Loc,
    pub snippet: Seq<char>,
    pub fields: Seq<EventField>,
}

impl View for Construct {
    type V = ConstructView;

    open spec fn view(&self) -> ConstructView {
        ConstructView {
            kind: self.kind,
            loc: self.loc,
            snippet: self.snippet@,
            fields: self.fields@,
        }
    }
}

/// A node of the tree: a construct and the constructs declared inside it.
#[derive(Debug)]
pub struct Node {
    pub kind: ConstructKind,
    pub loc: Loc,
    /// The text of the construct.
    pub snippet: String,
    /// The parameters of an event; empty for every other kind.
    pub fields: Vec<EventField>,
    pub children: Vec<Node>,
}

/// A node as a mathematical value: a construct and the nodes below it.
pub ghost struct NodeView {
    pub kind: ConstructKind,
    pub loc: Loc,
    pub snippet: Seq<char>,
    pub fields: Seq<EventField>,
    pub children: Seq<NodeView>,
}

impl NodeView {
    /// The construct at this node.
    pub open spec fn construct(self) -> ConstructView {
        ConstructView { kind: self.kind, loc: self.loc, snippet: self.snippet, fields: self.fields }
    }
}

impl Node {
    /// The node as a mathematical value: its own data and the models of
    /// its children.
    pub open spec fn model(self) -> NodeView
        decreases self,
    {
        NodeView {
            kind: self.kind,
            loc: self.loc,
            snippet: self.snippet@,
            fields: self.fields@,
            children: Seq::new(
                self.children@.len(),
                |i: int|
                    if 0 <= i < self.children@.len() {
                        self.children@[i].model()
                    } else {
                        arbitrary()
                    },
            ),
        }
    }
}

impl View for Node {
    type V = NodeView;

    open spec fn view(&self) -> NodeView {
        self.model()
    }
}

/// The views of a list of nodes, in order.
pub open spec fn node_views(nodes: Seq<Node>) -> Seq<NodeView> {
    Seq::new(nodes.len(), |i: int| nodes[i]@)
}

/// The views of a list of constructs, in order.
pub open spec fn construct_views(constructs: Seq<Construct>) -> Seq<ConstructView> {
    Seq::new(constructs.len(), |i: int| constructs[i]@)
}

/// The children of a node's view are the views of its children.
pub proof fn lemma_children_view(node: Node)
    ensures
        node@.children == node_views(node.children@),
{
    reveal_with_fuel(Node::model, 2);
    assert(node@.children =~= node_views(node.children@));
}

/// The parsed tree of one source file.
#[derive(Debug)]
pub struct SourceTree {
    pub nodes: Vec<Node>,
}

impl View for SourceTree {
    type V = Seq<NodeView>;

    open spec fn view(&self) -> Seq<NodeView> {
        node_views(self.nodes@)
    }
}

impl Node {
    /// The construct at this node, without its children.
    pub fn construct(&self) -> (c: Construct)
        ensures
            c@ == self@.construct(),
    {
        let mut fields: Vec<EventField> = Vec::new();
        let mut i: usize = 0;
        while i < self.fields.len()
            invariant
                i <= self.fields@.len(),
                fields@ == self.fields@.take(i as int),
            decreases self.fields@.len() - i,
        {
            fields.push(self.fields[i]);
            assert(self.fields@.take(i + 1) =~= self.fields@.take(i as int).push(
                self.fields@[i as int],
            ));
            i = i + 1;
        }
        assert(self.fields@.take(i as int) =~= self.fields@);
        Construct { kind: self.kind, loc: self.loc, snippet: self.snippet.clone(), fields }
    }
}

} // verus!
