//! Solidity sources: from text to the tree that the rules read.
//!
//! Parsing is the work of `solang_parser`. Its parse tree is read here
//! through a few small functions whose contracts are taken on trust, and
//! turned into a `SourceTree` by verified code.

use vstd::prelude::*;
use solang_parser::pt::{CodeLocation, ContractPart, Expression, SourceUnitPart};
use solang_parser::diagnostics::Diagnostic;
use crate::extractors::ExtractionError;
use crate::loc::Loc;
use crate::source::{placed, SourceCollection, SourceFileView};
use crate::tree::{
    lemma_children_view, ConstructKind, EventField, Node, NodeView, SourceTree, TypeShape,
};

verus! {

/// `solang_parser::pt::SourceUnitPart`: a part of a source unit in the
/// parse tree, that is a declaration or a directive at the top of a file.
/// Declared without its content: a value is carried along and read through
/// the functions below.
#[verifier::external_type_specification]
#[verifier::external_body]
pub struct ExSourceUnitPart(SourceUnitPart);

/// `solang_parser::pt::ContractPart`: a part of a contract in the parse
/// tree. Declared without its content.
#[verifier::external_type_specification]
#[verifier::external_body]
pub struct ExContractPart(ContractPart);

/// `solang_parser::pt::EventParameter`: a parameter of an event in the
/// parse tree. Declared without its content.
#[verifier::external_type_specification]
#[verifier::external_body]
pub struct ExEventParameter(solang_parser::pt::EventParameter);

/// `solang_parser::diagnostics::Diagnostic`: a message of the parser about
/// a source that it rejects. Declared without its content; only the number
/// of messages is used.
#[verifier::external_type_specification]
#[verifier::external_body]
pub struct ExDiagnostic(Diagnostic);

/// What the rules read of a part of a source unit.
pub ghost struct PartView {
    pub kind: ConstructKind,
    pub loc: Loc,
    pub text: Seq<char>,
    /// The parameters of an event; empty for every other part.
    pub fields: Seq<solang_parser::pt::EventParameter>,
    /// The parts of a contract; empty for every other part.
    pub members: Seq<ContractPart>,
}

/// What the rules read of a part of a contract.
pub ghost struct MemberView {
    pub kind: ConstructKind,
    pub loc: Loc,
    pub text: Seq<char>,
    /// The parameters of an event; empty for every other part.
    pub fields: Seq<solang_parser::pt::EventParameter>,
}

/// What `solang_parser::parse` returns for a source text and a file
/// number: the parts of the source unit, or the diagnostics. Nothing is
/// said of it but that the same arguments give the same result.
pub uninterp spec fn parsed(text: Seq<char>, file_no: usize) -> Result<
    Seq<SourceUnitPart>,
    Seq<Diagnostic>,
>;

/// What a value of `solang_parser::pt::SourceUnitPart` holds, as far as it
/// is read here: its variant as a kind, its location, its printed text,
/// and the parameters or parts inside it.
pub uninterp spec fn part_view(part: SourceUnitPart) -> PartView;

/// What a value of `solang_parser::pt::ContractPart` holds, as far as it is
/// read here: its variant as a kind, its location, its printed text, and
/// the parameters inside it.
pub uninterp spec fn member_view(member: ContractPart) -> MemberView;

/// What a value of `solang_parser::pt::EventParameter` holds, as far as it
/// is read here: whether it is indexed, and the outermost form of its type.
pub uninterp spec fn parameter_view(parameter: solang_parser::pt::EventParameter) -> EventField;

/// Calls `solang_parser::parse` and keeps the parts of the source unit,
/// without the comments. Taken on trust: the call returns for every text,
/// and its result depends on the text and the file number alone.
#[verifier::external_body]
fn parse(text: &str, file_no: usize) -> (r: Result<Vec<SourceUnitPart>, Vec<Diagnostic>>)
    ensures
        match r {
            Ok(parts) => parsed(text@, file_no) == Ok::<Seq<SourceUnitPart>, Seq<Diagnostic>>(
                parts@,
            ),
            Err(diagnostics) => parsed(text@, file_no) == Err::<
                Seq<SourceUnitPart>,
                Seq<Diagnostic>,
            >(diagnostics@),
        },
{
    solang_parser::parse(text, file_no).map(|(unit, _)| unit.0)
}

/// Tells the variants of `solang_parser::pt::SourceUnitPart` apart, one
/// kind for each; annotations and stray semicolons are `Other`. Taken on
/// trust: the kind depends on the part alone.
#[verifier::external_body]
fn part_kind(part: &SourceUnitPart) -> (kind: ConstructKind)
    ensures
        kind == part_view(*part).kind,
{
    match part {
        SourceUnitPart::PragmaDirective(_) => ConstructKind::Pragma,
        SourceUnitPart::ImportDirective(_) => ConstructKind::Import,
        SourceUnitPart::ContractDefinition(_) => ConstructKind::Contract,
        SourceUnitPart::EnumDefinition(_) => ConstructKind::Enum,
        SourceUnitPart::StructDefinition(_) => ConstructKind::Struct,
        SourceUnitPart::EventDefinition(_) => ConstructKind::Event,
        SourceUnitPart::ErrorDefinition(_) => ConstructKind::Error,
        SourceUnitPart::FunctionDefinition(_) => ConstructKind::Function,
        SourceUnitPart::VariableDefinition(_) => ConstructKind::Variable,
        SourceUnitPart::TypeDefinition(_) => ConstructKind::TypeDefinition,
        SourceUnitPart::Using(_) => ConstructKind::Using,
        _ => ConstructKind::Other,
    }
}

/// Calls `solang_parser::pt::CodeLocation::loc` on a part of a source unit
/// and writes the location in the library's `Loc`, variant for variant.
/// Taken on trust: the call returns, and the location depends on the part
/// alone.
#[verifier::external_body]
fn part_loc(part: &SourceUnitPart) -> (loc: Loc)
    ensures
        loc == part_view(*part).loc,
{
    match part.loc() {
        solang_parser::pt::Loc::Builtin => Loc::Builtin,
        solang_parser::pt::Loc::CommandLine => Loc::CommandLine,
        solang_parser::pt::Loc::Implicit => Loc::Implicit,
        solang_parser::pt::Loc::Codegen => Loc::Codegen,
        solang_parser::pt::Loc::File(file_no, start, end) => Loc::File(file_no, start, end),
    }
}

/// Calls `to_string` on a part of a source unit, which prints it with the
/// `Display` of `solang_parser`. Taken on trust: the call returns, and the
/// text depends on the part alone.
#[verifier::external_body]
fn part_text(part: &SourceUnitPart) -> (text: String)
    ensures
        text@ == part_view(*part).text,
{
    part.to_string()
}

/// Borrows the field `fields` of the event definition in a
/// `SourceUnitPart::EventDefinition`; any other part gives the empty
/// slice. Taken on trust: the slice depends on the part alone.
#[verifier::external_body]
fn part_fields(part: &SourceUnitPart) -> (fields: &[solang_parser::pt::EventParameter])
    ensures
        fields@ == part_view(*part).fields,
{
    match part {
        SourceUnitPart::EventDefinition(event) => &event.fields,
        _ => &[],
    }
}

/// Borrows the field `parts` of the contract definition in a
/// `SourceUnitPart::ContractDefinition`; any other part gives the empty
/// slice. Taken on trust: the slice depends on the part alone.
#[verifier::external_body]
fn part_members(part: &SourceUnitPart) -> (members: &[ContractPart])
    ensures
        members@ == part_view(*part).members,
{
    match part {
        SourceUnitPart::ContractDefinition(contract) => &contract.parts,
        _ => &[],
    }
}

/// Tells the variants of `solang_parser::pt::ContractPart` apart, one kind
/// for each; annotations and stray semicolons are `Other`. Taken on trust:
/// the kind depends on the part alone.
#[verifier::external_body]
fn member_kind(member: &ContractPart) -> (kind: ConstructKind)
    ensures
        kind == member_view(*member).kind,
{
    match member {
        ContractPart::StructDefinition(_) => ConstructKind::Struct,
        ContractPart::EventDefinition(_) => ConstructKind::Event,
        ContractPart::EnumDefinition(_) => ConstructKind::Enum,
        ContractPart::ErrorDefinition(_) => ConstructKind::Error,
        ContractPart::VariableDefinition(_) => ConstructKind::Variable,
        ContractPart::FunctionDefinition(_) => ConstructKind::Function,
        ContractPart::TypeDefinition(_) => ConstructKind::TypeDefinition,
        ContractPart::Using(_) => ConstructKind::Using,
        _ => ConstructKind::Other,
    }
}

/// Calls `solang_parser::pt::CodeLocation::loc` on a part of a contract
/// and writes the location in the library's `Loc`, variant for variant.
/// Taken on trust: the call returns, and the location depends on the part
/// alone.
#[verifier::external_body]
fn member_loc(member: &ContractPart) -> (loc: Loc)
    ensures
        loc == member_view(*member).loc,
{
    match member.loc() {
        solang_parser::pt::Loc::Builtin => Loc::Builtin,
        solang_parser::pt::Loc::CommandLine => Loc::CommandLine,
        solang_parser::pt::Loc::Implicit => Loc::Implicit,
        solang_parser::pt::Loc::Codegen => Loc::Codegen,
        solang_parser::pt::Loc::File(file_no, start, end) => Loc::File(file_no, start, end),
    }
}

/// Calls `to_string` on a part of a contract, which prints it with the
/// `Display` of `solang_parser`. Taken on trust: the call returns, and the
/// text depends on the part alone.
#[verifier::external_body]
fn member_text(member: &ContractPart) -> (text: String)
    ensures
        text@ == member_view(*member).text,
{
    member.to_string()
}

/// Borrows the field `fields` of the event definition in a
/// `ContractPart::EventDefinition`; any other part gives the empty slice.
/// Taken on trust: the slice depends on the part alone.
#[verifier::external_body]
fn member_fields(member: &ContractPart) -> (fields: &[solang_parser::pt::EventParameter])
    ensures
        fields@ == member_view(*member).fields,
{
    match member {
        ContractPart::EventDefinition(event) => &event.fields,
        _ => &[],
    }
}

/// Reads the fields `indexed` and `ty` of a
/// `solang_parser::pt::EventParameter`. Of the type it keeps the variant
/// of the expression: `ArraySubscript` is an array, `ArraySlice` a slice,
/// anything else plain. Taken on trust: the answer depends on the
/// parameter alone.
#[verifier::external_body]
fn parameter_shape(parameter: &solang_parser::pt::EventParameter) -> (shape: EventField)
    ensures
        shape == parameter_view(*parameter),
{
    EventField {
        ty: match parameter.ty {
            Expression::ArraySubscript(..) => TypeShape::Array,
            Expression::ArraySlice(..) => TypeShape::Slice,
            _ => TypeShape::Plain,
        },
        indexed: parameter.indexed,
    }
}

/// The parameters of an event, as the rules read them.
pub open spec fn fields_of(raw: Seq<solang_parser::pt::EventParameter>) -> Seq<EventField> {
    Seq::new(raw.len(), |i: int| parameter_view(raw[i]))
}

/// The node for a part of a contract: a node without children.
pub open spec fn member_node(member: ContractPart) -> NodeView {
    let view = member_view(member);
    NodeView {
        kind: view.kind,
        loc: view.loc,
        snippet: view.text,
        fields: fields_of(view.fields),
        children: Seq::empty(),
    }
}

/// The node for a part of a source unit: its children are the nodes of the
/// parts that it holds, in order.
pub open spec fn part_node(part: SourceUnitPart) -> NodeView {
    let view = part_view(part);
    NodeView {
        kind: view.kind,
        loc: view.loc,
        snippet: view.text,
        fields: fields_of(view.fields),
        children: Seq::new(view.members.len(), |i: int| member_node(view.members[i])),
    }
}

/// The tree for the parts of a source unit: one node for each part, in
/// order.
pub open spec fn tree_of(parts: Seq<SourceUnitPart>) -> Seq<NodeView> {
    Seq::new(parts.len(), |i: int| part_node(parts[i]))
}

/// What loading a source gives: its tree, or the number of diagnostics.
pub open spec fn loaded(text: Seq<char>, file_no: usize) -> Result<Seq<NodeView>, ExtractionError> {
    match parsed(text, file_no) {
        Ok(parts) => Ok(tree_of(parts)),
        Err(diagnostics) => Err(ExtractionError::Unparsable(diagnostics.len() as usize)),
    }
}

/// Reads the parameters of an event, in order.
fn read_fields(raw: &[solang_parser::pt::EventParameter]) -> (fields: Vec<EventField>)
    ensures
        fields@ == fields_of(raw@),
{
    let mut fields: Vec<EventField> = Vec::new();
    let mut i: usize = 0;
    while i < raw.len()
        invariant
            i <= raw@.len(),
            fields@.len() == i,
            forall|j: int| 0 <= j < i ==> fields@[j] == parameter_view(raw@[j]),
        decreases raw@.len() - i,
    {
        fields.push(parameter_shape(&raw[i]));
        i = i + 1;
    }
    assert(fields@ =~= fields_of(raw@));
    fields
}

/// Builds the node for a part of a contract.
fn read_member(member: &ContractPart) -> (node: Node)
    ensures
        node@ == member_node(*member),
{
    let node = Node {
        kind: member_kind(member),
        loc: member_loc(member),
        snippet: member_text(member),
        fields: read_fields(member_fields(member)),
        children: Vec::new(),
    };
    proof {
        lemma_children_view(node);
        assert(node@.children =~= Seq::<NodeView>::empty());
    }
    node
}

/// Builds the node for a part of a source unit, with the nodes of the
/// parts inside it.
fn read_part(part: &SourceUnitPart) -> (node: Node)
    ensures
        node@ == part_node(*part),
{
    let members = part_members(part);
    let mut children: Vec<Node> = Vec::new();
    let mut i: usize = 0;
    while i < members.len()
        invariant
            i <= members@.len(),
            children@.len() == i,
            forall|j: int| 0 <= j < i ==> (#[trigger] children@[j])@ == member_node(members@[j]),
        decreases members@.len() - i,
    {
        children.push(read_member(&members[i]));
        i = i + 1;
    }
    let node = Node {
        kind: part_kind(part),
        loc: part_loc(part),
        snippet: part_text(part),
        fields: read_fields(part_fields(part)),
        children,
    };
    proof {
        lemma_children_view(node);
        assert(node@.children =~= part_node(*part).children);
    }
    node
}

impl SourceTree {
    /// Builds the tree for the parts of a parsed source unit: one node for
    /// each part, and below a contract one node for each of its parts.
    pub fn from_parts(parts: &Vec<SourceUnitPart>) -> (tree: SourceTree)
        ensures
            tree@ == tree_of(parts@),
    {
        let mut nodes: Vec<Node> = Vec::new();
        let mut i: usize = 0;
        while i < parts.len()
            invariant
                i <= parts@.len(),
                nodes@.len() == i,
                forall|j: int| 0 <= j < i ==> (#[trigger] nodes@[j])@ == part_node(parts@[j]),
            decreases parts@.len() - i,
        {
            nodes.push(read_part(&parts[i]));
            i = i + 1;
        }
        let tree = SourceTree { nodes };
        assert(tree@ =~= tree_of(parts@));
        tree
    }
}

/// Parses a Solidity source and builds its tree. `file_no` is the number
/// that the locations of the tree carry. A source that does not parse gives
/// `Unparsable` with the number of diagnostics.
pub fn parse_source(text: &str, file_no: usize) -> (r: Result<SourceTree, ExtractionError>)
    ensures
        match r {
            Ok(tree) => loaded(text@, file_no) == Ok::<Seq<NodeView>, ExtractionError>(tree@),
            Err(e) => loaded(text@, file_no) == Err::<Seq<NodeView>, ExtractionError>(e),
        },
{
    match parse(text, file_no) {
        Ok(parts) => Ok(SourceTree::from_parts(&parts)),
        Err(diagnostics) => Err(ExtractionError::Unparsable(diagnostics.len())),
    }
}

/// What loading a list of sources gives. Each source is a path and a
/// text; a source is parsed under the number of files that came before it.
/// The first source that does not parse ends loading, and nothing is
/// loaded.
pub open spec fn collected(sources: Seq<(Seq<char>, Seq<char>)>) -> Result<
    Seq<SourceFileView>,
    ExtractionError,
>
    decreases sources.len(),
{
    if sources.len() == 0 {
        Ok(Seq::empty())
    } else {
        match collected(sources.drop_last()) {
            Err(e) => Err(e),
            Ok(files) => match loaded(sources.last().1, files.len() as usize) {
                Err(e) => Err(e),
                Ok(tree) => Ok(placed(files, sources.last().0, tree)),
            },
        }
    }
}

/// The paths and texts of a list of sources.
pub open spec fn source_views(sources: Seq<(String, String)>) -> Seq<(Seq<char>, Seq<char>)> {
    Seq::new(sources.len(), |i: int| (sources[i].0@, sources[i].1@))
}

/// A failure among the first sources of a list is the failure of the list.
pub proof fn lemma_collected_failure(sources: Seq<(Seq<char>, Seq<char>)>, n: int)
    requires
        0 <= n <= sources.len(),
        collected(sources.take(n)) is Err,
    ensures
        collected(sources) == collected(sources.take(n)),
    decreases sources.len() - n,
{
    if n < sources.len() {
        assert(sources.take(n + 1).drop_last() =~= sources.take(n));
        lemma_collected_failure(sources, n + 1);
    } else {
        assert(sources.take(n) =~= sources);
    }
}

impl SourceCollection {
    /// Parses `text` and puts its tree at `path`. The locations of the tree
    /// carry the number of files that the collection held before. A text
    /// that does not parse leaves the collection as it was.
    pub fn add_source(&mut self, path: String, text: &str) -> (r: Result<(), ExtractionError>)
        ensures
            match r {
                Ok(_) => loaded(text@, old(self)@.len() as usize) matches Ok(tree) && final(self)@
                    == placed(old(self)@, path@, tree),
                Err(e) => loaded(text@, old(self)@.len() as usize) == Err::<
                    Seq<NodeView>,
                    ExtractionError,
                >(e) && final(self)@ == old(self)@,
            },
    {
        match parse_source(text, self.len()) {
            Ok(tree) => {
                let _ = self.insert(path, tree);
                Ok(())
            },
            Err(e) => Err(e),
        }
    }

    /// Parses every source of a list, each a path and a text, and collects
    /// the trees. A source that does not parse ends loading with its
    /// failure: there is no collection of some of the files.
    pub fn from_sources(sources: &Vec<(String, String)>) -> (r: Result<
        SourceCollection,
        ExtractionError,
    >)
        ensures
            match r {
                Ok(collection) => collected(source_views(sources@)) == Ok::<
                    Seq<SourceFileView>,
                    ExtractionError,
                >(collection@),
                Err(e) => collected(source_views(sources@)) == Err::<
                    Seq<SourceFileView>,
                    ExtractionError,
                >(e),
            },
    {
        let ghost views = source_views(sources@);
        let mut collection = SourceCollection::new();
        let mut i: usize = 0;
        assert(views.take(0) =~= Seq::<(Seq<char>, Seq<char>)>::empty());
        while i < sources.len()
            invariant
                i <= sources@.len(),
                views == source_views(sources@),
                collected(views.take(i as int)) == Ok::<Seq<SourceFileView>, ExtractionError>(
                    collection@,
                ),
            decreases sources@.len() - i,
        {
            proof {
                assert(views.take(i + 1).drop_last() =~= views.take(i as int));
                assert(views.take(i + 1).last() == (sources@[i as int].0@, sources@[i as int].1@));
            }
            let path = sources[i].0.clone();
            match collection.add_source(path, sources[i].1.as_str()) {
                Ok(_) => {},
                Err(e) => {
                    proof {
                        lemma_collected_failure(views, i + 1);
                    }
                    return Err(e);
                },
            }
            i = i + 1;
        }
        assert(views.take(i as int) =~= views);
        Ok(collection)
    }
}

} // verus!
