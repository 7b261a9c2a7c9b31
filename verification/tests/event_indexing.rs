use sstan::extractors::ExtractionError;
use sstan::engine::EngineError;
use sstan::loc::Loc;
use sstan::optimizations::event_indexing::{count_parameters, flag_events, needs_indexing, INDEXED_LIMIT};
use sstan::optimizations::{EventIndexing, OptimizationOutcome, OptimizationPattern, OptimizationTarget};
use sstan::outcome::Outcome;
use sstan::source::SourceCollection;
use sstan::tree::{Construct, ConstructKind, EventField, Node, SourceTree, TypeShape};

fn field(indexed: bool) -> EventField {
    EventField { ty: TypeShape::Plain, indexed }
}

fn array_field(indexed: bool) -> EventField {
    EventField { ty: TypeShape::Array, indexed }
}

fn event(start: usize, snippet: &str, fields: Vec<EventField>) -> Node {
    Node {
        kind: ConstructKind::Event,
        loc: Loc::File(0, start, start + snippet.len()),
        snippet: snippet.to_string(),
        fields,
        children: vec![],
    }
}

fn single_file(path: &str, text: &str) -> SourceCollection {
    let mut source = SourceCollection::new();
    source.add_source(path.to_string(), text).unwrap();
    source
}

#[test]
fn test_immutable_variables_optimization() {
    let file_contents = r#"
    
    pragma solidity >= 0.8.0;
    contract Contract {

        event IsNotOptimized(address addr1, address indexed addr2);
        event IsOptimized(address indexed addr1, address indexed addr2, address indexed addr3);
        event AlsoIsNotOptimized(address addr1, address indexed addr2, address indexed addr3);
        
    }
 
    "#;
    let source = single_file("event_indexing.sol", file_contents);
    let optimization_locations = EventIndexing::find(&source).unwrap();
    assert_eq!(optimization_locations.len(), 2);
}

#[test]
fn flags_under_indexed_events_in_declaration_order() {
    let text = "contract C {\n    event A(address addr1, address indexed addr2);\n    event B(address indexed a1, address indexed a2, address indexed a3);\n    event C(address a1, address indexed a2, address indexed a3);\n}\n";
    let source = single_file("events.sol", text);
    let outcome = match EventIndexing::find(&source).unwrap() {
        OptimizationOutcome::EventIndexing(outcome) => outcome,
    };
    assert_eq!(outcome.len(), 1);
    assert_eq!(outcome.finding_count(), 2);
    let findings = outcome.get(&"events.sol".to_string()).unwrap();
    assert_eq!(findings.len(), 2);
    assert_eq!(findings[0].snippet, "event A(address addr1, address indexed addr2);");
    assert_eq!(findings[1].snippet, "event C(address a1, address indexed a2, address indexed a3);");
    let a = text.find("event A").unwrap();
    let c = text.find("event C").unwrap();
    match (findings[0].loc, findings[1].loc) {
        (Loc::File(0, a_start, a_end), Loc::File(0, c_start, c_end)) => {
            assert_eq!(a_start, a);
            assert_eq!(c_start, c);
            assert!(text[a_start..a_end].starts_with("event A(address addr1, address indexed addr2)"));
            assert!(text[c_start..c_end].starts_with("event C(address a1"));
            assert!(a_end <= c_start);
        }
        other => panic!("findings are not in the file: {:?}", other),
    }
}

#[test]
fn counts_indexed_and_non_array_parameters() {
    assert_eq!(count_parameters(&vec![]), (0, 0));
    assert_eq!(count_parameters(&vec![field(false), field(true)]), (1, 2));
    assert_eq!(count_parameters(&vec![field(true), field(true), field(true)]), (3, 3));
    assert_eq!(count_parameters(&vec![array_field(true), field(false), array_field(false)]), (1, 1));
    let slice = EventField { ty: TypeShape::Slice, indexed: true };
    assert_eq!(count_parameters(&vec![slice, field(true)]), (2, 1));
}

#[test]
fn threshold_has_two_branches() {
    assert_eq!(INDEXED_LIMIT, 3);
    // three or more non-array parameters: flagged while fewer than three are indexed
    assert!(needs_indexing(0, 3));
    assert!(needs_indexing(2, 3));
    assert!(!needs_indexing(3, 3));
    assert!(needs_indexing(2, 5));
    assert!(!needs_indexing(3, 5));
    assert!(!needs_indexing(4, 4));
    // fewer than three: flagged unless all of them are indexed
    assert!(!needs_indexing(0, 0));
    assert!(needs_indexing(0, 1));
    assert!(!needs_indexing(1, 1));
    assert!(needs_indexing(1, 2));
    assert!(!needs_indexing(2, 2));
    // an indexed array parameter makes the counts differ
    assert!(needs_indexing(1, 0));
    assert!(needs_indexing(3, 2));
}

#[test]
fn event_without_parameters_is_not_flagged() {
    let source = single_file("empty.sol", "contract C { event Nothing(); }");
    let outcome = EventIndexing::find(&source).unwrap();
    assert_eq!(outcome.len(), 0);
    assert!(outcome.outcome().is_empty());
}

#[test]
fn array_parameters_do_not_ask_for_an_index() {
    let source = single_file(
        "arrays.sol",
        "contract C { event Batch(uint256[] ids, address indexed owner); event Loose(uint256[] ids, address owner); }",
    );
    let outcome = EventIndexing::find(&source).unwrap();
    let findings = outcome.outcome().get(&"arrays.sol".to_string()).unwrap();
    assert_eq!(findings.len(), 1);
    assert_eq!(findings[0].snippet, "event Loose(uint256[] ids, address owner);");
}

#[test]
fn file_level_events_are_found_too() {
    let source = single_file(
        "top.sol",
        "event Top(address who);\ncontract C { event Inner(address who); }\nevent Last(uint256 indexed id);",
    );
    let outcome = EventIndexing::find(&source).unwrap();
    let findings = outcome.outcome().get(&"top.sol".to_string()).unwrap();
    assert_eq!(findings.len(), 2);
    assert_eq!(findings[0].snippet, "event Top(address who);");
    assert_eq!(findings[1].snippet, "event Inner(address who);");
}

#[test]
fn files_without_a_match_have_no_entry() {
    let mut source = SourceCollection::new();
    source.add_source("clean.sol".to_string(), "contract A { event Ok(address indexed who); }").unwrap();
    source.add_source("flagged.sol".to_string(), "contract B { event Bad(address who); }").unwrap();
    source.add_source("none.sol".to_string(), "contract D { uint256 x; }").unwrap();
    let outcome = EventIndexing::find(&source).unwrap();
    let outcome = outcome.outcome();
    assert_eq!(outcome.len(), 1);
    assert!(outcome.get(&"clean.sol".to_string()).is_none());
    assert!(outcome.get(&"none.sol".to_string()).is_none());
    assert!(outcome.get(&"missing.sol".to_string()).is_none());
    let findings = outcome.get(&"flagged.sol".to_string()).unwrap();
    assert_eq!(findings.len(), 1);
    assert_eq!(findings[0].loc, Loc::File(1, 13, 35));
    for entry in outcome.entries() {
        assert!(source.get(&entry.path).is_some());
        assert!(!entry.findings.is_empty());
    }
}

#[test]
fn two_runs_report_the_same() {
    let text = "contract C { event A(address a); event B(address indexed b); event D(uint256 x, uint256 y, uint256 z); }";
    let source = single_file("same.sol", text);
    let first = EventIndexing::find(&source).unwrap();
    let second = OptimizationTarget::EventIndexing.find(&source).unwrap();
    assert_eq!(first.target(), OptimizationTarget::EventIndexing);
    assert_eq!(second.target(), OptimizationTarget::EventIndexing);
    let (first, second) = (first.outcome(), second.outcome());
    assert_eq!(first.len(), second.len());
    let one = first.get(&"same.sol".to_string()).unwrap();
    let two = second.get(&"same.sol".to_string()).unwrap();
    assert_eq!(one.len(), 2);
    assert_eq!(one.len(), two.len());
    for (left, right) in one.iter().zip(two.iter()) {
        assert_eq!(left.loc, right.loc);
        assert_eq!(left.snippet, right.snippet);
    }
}

#[test]
fn rule_fails_on_a_degenerate_tree_without_an_outcome() {
    let mut source = SourceCollection::new();
    let good = SourceTree { nodes: vec![event(0, "event A(address a);", vec![field(false)])] };
    let mut stray = event(0, "event B(address b);", vec![field(false)]);
    stray.loc = Loc::Builtin;
    let bad = SourceTree { nodes: vec![stray] };
    assert!(source.insert("good.sol".to_string(), good).is_none());
    assert!(source.insert("bad.sol".to_string(), bad).is_none());
    match EventIndexing::find(&source) {
        Err(EngineError::ExtractionError(ExtractionError::Degenerate(loc))) => assert_eq!(loc, Loc::Builtin),
        other => panic!("expected a degenerate location, got {:?}", other.map(|o| o.len())),
    }
}

#[test]
fn flagging_appends_to_the_entry_of_the_file() {
    let events = vec![
        Construct {
            kind: ConstructKind::Event,
            loc: Loc::File(0, 0, 5),
            snippet: "event A(address a);".to_string(),
            fields: vec![field(false)],
        },
        Construct {
            kind: ConstructKind::Event,
            loc: Loc::File(0, 6, 9),
            snippet: "event B(address indexed b);".to_string(),
            fields: vec![field(true)],
        },
        Construct {
            kind: ConstructKind::Event,
            loc: Loc::File(0, 10, 19),
            snippet: "event C(uint256 x, uint256 y, uint256 z, uint256 indexed w);".to_string(),
            fields: vec![field(false), field(false), field(false), field(true)],
        },
    ];
    let mut outcome = Outcome::new();
    let path = "a.sol".to_string();
    flag_events(&path, &events, &mut outcome);
    flag_events(&"b.sol".to_string(), &events[1..2].iter().map(|c| Construct {
        kind: c.kind,
        loc: c.loc,
        snippet: c.snippet.clone(),
        fields: c.fields.clone(),
    }).collect(), &mut outcome);
    flag_events(&path, &events, &mut outcome);
    assert_eq!(outcome.len(), 1);
    let findings = outcome.get(&path).unwrap();
    let locs: Vec<Loc> = findings.iter().map(|f| f.loc).collect();
    assert_eq!(locs, vec![Loc::File(0, 0, 5), Loc::File(0, 10, 19), Loc::File(0, 0, 5), Loc::File(0, 10, 19)]);
    assert_eq!(outcome.finding_count(), 4);
}

#[test]
fn outcome_of_a_rule_can_be_copied() {
    let source = single_file("copy.sol", "contract C { event A(address a); event B(uint256 b); }");
    let outcome = EventIndexing::find(&source).unwrap();
    let copy = outcome.clone();
    assert_eq!(copy.target(), OptimizationTarget::EventIndexing);
    assert_eq!(copy.len(), 2);
    let findings = copy.outcome().get(&"copy.sol".to_string()).unwrap();
    assert_eq!(findings[0].snippet, "event A(address a);");
    assert_eq!(findings[1].snippet, "event B(uint256 b);");
    assert_eq!(outcome.len(), 2);
}
