use test_runner::names::NameMap;
use test_runner::TestStatus;

#[test]
fn names_hold_what_was_put_last() {
    let mut map: NameMap<TestStatus> = NameMap::new();
    assert_eq!(map.get("a"), None);
    map.insert("a".to_string(), TestStatus::Running);
    map.insert("b".to_string(), TestStatus::Ignored);
    map.insert("a".to_string(), TestStatus::Passed);
    assert_eq!(map.get("a"), Some(&TestStatus::Passed));
    assert_eq!(map.get("b"), Some(&TestStatus::Ignored));
    assert_eq!(map.get("c"), None);
    assert_eq!(map.entries().len(), 2);
    map.clear();
    assert_eq!(map.get("a"), None);
    assert!(map.entries().is_empty());
}

#[test]
fn replacing_touches_one_value_alone() {
    let mut map: NameMap<TestStatus> = NameMap::new();
    map.insert("a".to_string(), TestStatus::Running);
    map.insert("b".to_string(), TestStatus::Failed);
    map.insert("c".to_string(), TestStatus::Running);
    map.replace(TestStatus::Running, TestStatus::NotRun);
    assert_eq!(map.get("a"), Some(&TestStatus::NotRun));
    assert_eq!(map.get("b"), Some(&TestStatus::Failed));
    assert_eq!(map.get("c"), Some(&TestStatus::NotRun));
}

#[test]
fn copies_hold_the_same() {
    let mut map: NameMap<String> = NameMap::new();
    map.insert("x".to_string(), "1".to_string());
    map.insert("y".to_string(), "2".to_string());
    let copy = map.clone();
    map.insert("x".to_string(), "3".to_string());
    assert_eq!(copy.get("x"), Some(&"1".to_string()));
    assert_eq!(copy.get("y"), Some(&"2".to_string()));
    assert_eq!(copy.entries().len(), 2);
}
