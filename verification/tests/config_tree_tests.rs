use mediarr_core::config_tree::{coerce_value, navigate_path, set_path, ConfigTree, TreeEntry};

fn entry(key: &str, value: ConfigTree) -> TreeEntry {
    TreeEntry { key: key.to_string(), value }
}

fn sample() -> ConfigTree {
    ConfigTree::Table(vec![
        entry(
            "general",
            ConfigTree::Table(vec![
                entry("operation", ConfigTree::Text("Move".to_string())),
                entry("create_directories", ConfigTree::Boolean(true)),
            ]),
        ),
        entry(
            "watchers",
            ConfigTree::Array(vec![ConfigTree::Table(vec![
                entry("path", ConfigTree::Text("/w".to_string())),
                entry("debounce_seconds", ConfigTree::Integer(5)),
            ])]),
        ),
    ])
}

fn text_of(t: &ConfigTree) -> String {
    match t {
        ConfigTree::Text(s) => s.clone(),
        other => panic!("not text: {other:?}"),
    }
}

#[test]
fn navigate_reads_tables_and_arrays() {
    let tree = sample();
    assert_eq!(text_of(navigate_path(&tree, "general.operation").unwrap()), "Move");
    assert_eq!(text_of(navigate_path(&tree, "watchers.0.path").unwrap()), "/w");
    assert!(matches!(navigate_path(&tree, "watchers.0.debounce_seconds").unwrap(), ConfigTree::Integer(5)));
}

#[test]
fn navigate_reports_each_kind_of_failure() {
    let tree = sample();
    assert_eq!(navigate_path(&tree, "general.nothing").unwrap_err(), "key not found: general.nothing");
    assert_eq!(navigate_path(&tree, "watchers.x").unwrap_err(), "expected array index, got: x");
    assert_eq!(navigate_path(&tree, "watchers.3").unwrap_err(), "array index 3 out of bounds");
    assert_eq!(
        navigate_path(&tree, "general.operation.deeper").unwrap_err(),
        "cannot navigate into deeper: not a table or array"
    );
}

#[test]
fn coerce_keeps_the_replaced_type() {
    assert!(matches!(coerce_value(&"42".to_string(), &ConfigTree::Integer(1)).unwrap(), ConfigTree::Integer(42)));
    assert!(matches!(coerce_value(&"-7".to_string(), &ConfigTree::Integer(1)).unwrap(), ConfigTree::Integer(-7)));
    assert_eq!(coerce_value(&"4x".to_string(), &ConfigTree::Integer(1)).unwrap_err(), "expected integer, got: 4x");
    assert!(matches!(coerce_value(&"false".to_string(), &ConfigTree::Boolean(true)).unwrap(), ConfigTree::Boolean(false)));
    assert_eq!(coerce_value(&"yes".to_string(), &ConfigTree::Boolean(true)).unwrap_err(), "expected boolean, got: yes");
    assert_eq!(text_of(&coerce_value(&"12".to_string(), &ConfigTree::Text("a".into())).unwrap()), "12");
}

#[test]
fn set_then_read_back() {
    let tree = set_path(sample(), "general.operation", &"Copy".to_string()).unwrap();
    assert_eq!(text_of(navigate_path(&tree, "general.operation").unwrap()), "Copy");
    let tree = set_path(tree, "watchers.0.debounce_seconds", &"10".to_string()).unwrap();
    assert!(matches!(navigate_path(&tree, "watchers.0.debounce_seconds").unwrap(), ConfigTree::Integer(10)));
    let tree = set_path(tree, "general.output_dir", &"/out".to_string()).unwrap();
    assert_eq!(text_of(navigate_path(&tree, "general.output_dir").unwrap()), "/out");
}

#[test]
fn set_reports_failures() {
    assert_eq!(
        set_path(sample(), "nope.leaf", &"v".to_string()).unwrap_err(),
        "key not found: nope"
    );
    assert_eq!(
        set_path(sample(), "general.operation.x", &"v".to_string()).unwrap_err(),
        "parent of x is not a table"
    );
    assert_eq!(
        set_path(sample(), "general.create_directories", &"maybe".to_string()).unwrap_err(),
        "expected boolean, got: maybe"
    );
    assert_eq!(
        set_path(sample(), "watchers.2.path", &"v".to_string()).unwrap_err(),
        "array index 2 out of bounds"
    );
}
