use sstan::extractors::{extract, EventExtractor, ExtractionError, Extractor};
use sstan::loc::Loc;
use sstan::solidity::parse_source;
use sstan::source::SourceCollection;
use sstan::tree::{ConstructKind, EventField, SourceTree, TypeShape};

const SOURCE: &str = "pragma solidity ^0.8.0;\nimport \"./other.sol\";\nstruct Top { uint256 a; }\nenum Mode { On, Off }\nerror Failed(uint256 code);\ntype Price is uint256;\nuint256 constant LIMIT = 3;\nfunction helper() pure returns (uint256) { return 1; }\nusing Lib for uint256;\nevent Outside(address indexed who, uint256[] ids, bytes data);\ncontract Token {\n    uint256 total;\n    struct Inner { uint256 b; }\n    enum State { A }\n    error Broken();\n    type Id is uint256;\n    using Lib for uint256;\n    event Moved(address indexed from, address to);\n    function move() public {}\n}\n";

#[test]
fn tree_mirrors_the_parts_of_the_source_unit() {
    let tree = parse_source(SOURCE, 7).unwrap();
    let kinds: Vec<ConstructKind> = tree.nodes.iter().map(|n| n.kind).collect();
    assert_eq!(
        kinds,
        vec![
            ConstructKind::Pragma,
            ConstructKind::Import,
            ConstructKind::Struct,
            ConstructKind::Enum,
            ConstructKind::Error,
            ConstructKind::TypeDefinition,
            ConstructKind::Variable,
            ConstructKind::Function,
            ConstructKind::Using,
            ConstructKind::Event,
            ConstructKind::Contract,
        ]
    );
    let contract = &tree.nodes[10];
    let kinds: Vec<ConstructKind> = contract.children.iter().map(|n| n.kind).collect();
    assert_eq!(
        kinds,
        vec![
            ConstructKind::Variable,
            ConstructKind::Struct,
            ConstructKind::Enum,
            ConstructKind::Error,
            ConstructKind::TypeDefinition,
            ConstructKind::Using,
            ConstructKind::Event,
            ConstructKind::Function,
        ]
    );
    for node in tree.nodes.iter() {
        if node.kind != ConstructKind::Contract {
            assert!(node.children.is_empty());
        }
        if node.kind != ConstructKind::Event {
            assert!(node.fields.is_empty());
        }
    }
    for member in contract.children.iter() {
        assert!(member.children.is_empty());
    }
}

#[test]
fn nodes_carry_location_text_and_parameters() {
    let tree = parse_source(SOURCE, 7).unwrap();
    let outside = &tree.nodes[9];
    let start = SOURCE.find("event Outside").unwrap();
    match outside.loc {
        Loc::File(file_no, from, to) => {
            assert_eq!(file_no, 7);
            assert_eq!(from, start);
            assert!(from < to && to <= SOURCE.len());
            assert!(SOURCE[from..to].starts_with("event Outside(address indexed who, uint256[] ids, bytes data)"));
        }
        other => panic!("not in a file: {:?}", other),
    }
    assert_eq!(outside.snippet, "event Outside(address indexed who, uint256[] ids, bytes data);");
    assert_eq!(
        outside.fields,
        vec![
            EventField { ty: TypeShape::Plain, indexed: true },
            EventField { ty: TypeShape::Array, indexed: false },
            EventField { ty: TypeShape::Plain, indexed: false },
        ]
    );
    let moved = &tree.nodes[10].children[6];
    assert_eq!(moved.snippet, "event Moved(address indexed from, address to);");
    assert_eq!(moved.loc, {
        let from = SOURCE.find("event Moved").unwrap();
        let to = match moved.loc {
            Loc::File(_, _, to) => to,
            _ => 0,
        };
        Loc::File(7, from, to)
    });
    assert_eq!(
        moved.fields,
        vec![EventField { ty: TypeShape::Plain, indexed: true }, EventField { ty: TypeShape::Plain, indexed: false }]
    );
    let total = &tree.nodes[10].children[0];
    assert_eq!(total.snippet, "uint256 total;");
    assert!(tree.nodes[0].snippet.starts_with("pragma solidity"));
    assert!(tree.nodes[10].snippet.starts_with("contract Token {"));
    assert!(tree.nodes.iter().all(|n| n.loc.in_file()));
    assert!(tree.nodes[10].children.iter().all(|n| n.loc.in_file()));
}

#[test]
fn extraction_reads_parsed_trees() {
    let tree = parse_source(SOURCE, 0).unwrap();
    let events = EventExtractor::extract(&tree).unwrap();
    let names: Vec<&str> = events.iter().map(|e| e.snippet.as_str()).collect();
    assert_eq!(
        names,
        vec![
            "event Outside(address indexed who, uint256[] ids, bytes data);",
            "event Moved(address indexed from, address to);",
        ]
    );
    assert_eq!(extract(&tree, ConstructKind::Function).unwrap().len(), 2);
    assert_eq!(extract(&tree, ConstructKind::Variable).unwrap().len(), 2);
    assert_eq!(extract(&tree, ConstructKind::Contract).unwrap().len(), 1);
    assert_eq!(extract(&tree, ConstructKind::Other).unwrap().len(), 0);
}

#[test]
fn snippet_of_a_finding_parses_to_the_same_kind() {
    let tree = parse_source(SOURCE, 0).unwrap();
    for event in EventExtractor::extract(&tree).unwrap() {
        let again = parse_source(&event.snippet, 0).unwrap();
        assert_eq!(again.nodes.len(), 1);
        assert_eq!(again.nodes[0].kind, ConstructKind::Event);
        assert_eq!(again.nodes[0].snippet, event.snippet);
        assert_eq!(again.nodes[0].fields, event.fields);
        let (unit, _) = solang_parser::parse(&event.snippet, 0).unwrap();
        assert!(matches!(unit.0[0], solang_parser::pt::SourceUnitPart::EventDefinition(_)));
    }
    for kind in [ConstructKind::Function, ConstructKind::Struct, ConstructKind::Enum, ConstructKind::Error] {
        for found in extract(&tree, kind).unwrap() {
            let again = parse_source(&found.snippet, 0).unwrap();
            assert_eq!(again.nodes.len(), 1);
            assert_eq!(again.nodes[0].kind, kind);
        }
    }
}

#[test]
fn tree_from_parts_of_a_parsed_unit() {
    let (unit, _) = solang_parser::parse("contract A { event E(address a); }\ncontract B {}", 2).unwrap();
    let tree = SourceTree::from_parts(&unit.0);
    assert_eq!(tree.nodes.len(), 2);
    assert_eq!(tree.nodes[0].children.len(), 1);
    assert_eq!(tree.nodes[0].children[0].kind, ConstructKind::Event);
    assert_eq!(tree.nodes[0].children[0].loc, Loc::File(2, 13, 31));
    assert_eq!(tree.nodes[1].kind, ConstructKind::Contract);
    assert!(tree.nodes[1].children.is_empty());
}

#[test]
fn a_source_that_does_not_parse_is_refused() {
    match parse_source("contract {", 0) {
        Err(ExtractionError::Unparsable(count)) => assert!(count >= 1),
        other => panic!("expected a parse failure, got {:?}", other),
    }
    let mut source = SourceCollection::new();
    source.add_source("a.sol".to_string(), "contract A {}").unwrap();
    let refused = source.add_source("b.sol".to_string(), "contract B { event }");
    assert!(matches!(refused, Err(ExtractionError::Unparsable(_))));
    assert_eq!(source.len(), 1);
    assert!(source.get(&"b.sol".to_string()).is_none());
}

#[test]
fn loading_is_all_or_nothing() {
    let good = vec![
        ("a.sol".to_string(), "contract A { event E(address a); }".to_string()),
        ("b.sol".to_string(), "contract B {}".to_string()),
        ("a.sol".to_string(), "contract A2 {}".to_string()),
    ];
    let source = SourceCollection::from_sources(&good).unwrap();
    assert_eq!(source.len(), 2);
    let paths: Vec<&str> = source.files().iter().map(|f| f.path.as_str()).collect();
    assert_eq!(paths, vec!["a.sol", "b.sol"]);
    let a = source.get(&"a.sol".to_string()).unwrap();
    assert_eq!(a.nodes[0].snippet, "contract A2 {}");
    assert_eq!(a.nodes[0].loc, Loc::File(2, 0, 14));
    let b = source.get(&"b.sol".to_string()).unwrap();
    assert_eq!(b.nodes[0].loc, Loc::File(1, 0, 13));

    let bad = vec![
        ("a.sol".to_string(), "contract A {}".to_string()),
        ("b.sol".to_string(), "contract".to_string()),
        ("c.sol".to_string(), "contract C {}".to_string()),
    ];
    assert!(matches!(SourceCollection::from_sources(&bad), Err(ExtractionError::Unparsable(_))));
    assert!(SourceCollection::from_sources(&vec![]).unwrap().is_empty());
}

#[test]
fn parameter_types_keep_their_outermost_form() {
    let tree = parse_source(
        "event Shapes(uint256 a, uint256[] b, uint256[3] indexed c, uint256[][] d, mapping(uint256 => uint256[]) e);",
        0,
    )
    .unwrap();
    let shapes: Vec<TypeShape> = tree.nodes[0].fields.iter().map(|f| f.ty).collect();
    assert_eq!(
        shapes,
        vec![TypeShape::Plain, TypeShape::Array, TypeShape::Array, TypeShape::Array, TypeShape::Plain]
    );
    let indexed: Vec<bool> = tree.nodes[0].fields.iter().map(|f| f.indexed).collect();
    assert_eq!(indexed, vec![false, false, true, false, false]);
    if let Ok(sliced) = parse_source("event Cut(uint256[1:2] a);", 0) {
        assert_eq!(sliced.nodes[0].fields, vec![EventField { ty: TypeShape::Slice, indexed: false }]);
    }
}
