use sstan::loc::Loc;
use sstan::outcome::{Outcome, Pushable};
use sstan::source::SourceCollection;
use sstan::tree::SourceTree;

#[test]
fn push_or_insert_groups_findings_by_file() {
    let mut outcome = Outcome::new();
    assert!(outcome.is_empty());
    assert_eq!(outcome.len(), 0);
    assert_eq!(outcome.finding_count(), 0);
    outcome.push_or_insert("b.sol".to_string(), Loc::File(1, 0, 4), "first".to_string());
    outcome.push_or_insert("a.sol".to_string(), Loc::File(0, 5, 9), "second".to_string());
    outcome.push_or_insert("b.sol".to_string(), Loc::File(1, 10, 14), "third".to_string());
    assert!(!outcome.is_empty());
    assert_eq!(outcome.len(), 2);
    assert_eq!(outcome.finding_count(), 3);
    let paths: Vec<&str> = outcome.entries().iter().map(|e| e.path.as_str()).collect();
    assert_eq!(paths, vec!["b.sol", "a.sol"]);
    let b = outcome.get(&"b.sol".to_string()).unwrap();
    assert_eq!(b.len(), 2);
    assert_eq!((b[0].loc, b[0].snippet.as_str()), (Loc::File(1, 0, 4), "first"));
    assert_eq!((b[1].loc, b[1].snippet.as_str()), (Loc::File(1, 10, 14), "third"));
    let a = outcome.get(&"a.sol".to_string()).unwrap();
    assert_eq!(a.len(), 1);
    assert_eq!(a[0].snippet, "second");
    assert!(outcome.get(&"c.sol".to_string()).is_none());
}

#[test]
fn clone_keeps_the_findings() {
    let mut outcome = Outcome::new();
    outcome.push_or_insert("a.sol".to_string(), Loc::File(0, 1, 2), "x".to_string());
    outcome.push_or_insert("a.sol".to_string(), Loc::Builtin, "y".to_string());
    let copy = outcome.clone();
    outcome.push_or_insert("b.sol".to_string(), Loc::File(0, 3, 4), "z".to_string());
    assert_eq!(copy.len(), 1);
    assert_eq!(copy.finding_count(), 2);
    let a = copy.get(&"a.sol".to_string()).unwrap();
    assert_eq!(a[1].loc, Loc::Builtin);
    assert_eq!(a[1].snippet, "y");
    assert_eq!(outcome.len(), 2);
}

#[test]
fn collection_keeps_one_tree_per_path() {
    let mut source = SourceCollection::new();
    assert!(source.is_empty());
    assert!(source.insert("a.sol".to_string(), SourceTree { nodes: vec![] }).is_none());
    assert!(source.insert("b.sol".to_string(), SourceTree { nodes: vec![] }).is_none());
    let tree = sstan::solidity::parse_source("contract A {}", 0).unwrap();
    let replaced = source.insert("a.sol".to_string(), tree).unwrap();
    assert!(replaced.nodes.is_empty());
    assert_eq!(source.len(), 2);
    let paths: Vec<&str> = source.files().iter().map(|f| f.path.as_str()).collect();
    assert_eq!(paths, vec!["a.sol", "b.sol"]);
    assert_eq!(source.get(&"a.sol".to_string()).unwrap().nodes.len(), 1);
    assert!(source.get(&"c.sol".to_string()).is_none());
}
