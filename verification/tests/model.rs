use xrs::config::{RootConfiguration, RootMode};
use xrs::text::{text_order, TextOrder};

#[test]
fn default_mode_is_standalone() {
    assert!(matches!(RootMode::default(), RootMode::Standalone));
}

#[test]
fn default_configuration_is_empty() {
    let config = RootConfiguration::default();
    assert!(matches!(config.mode, RootMode::Standalone));
    assert!(config.hoist.is_empty());
    assert!(!config.scripts.contains_key("build"));
}

#[test]
fn scripts_are_declared_in_order() {
    let mut table = xrs::config::ScriptTable::new();
    let entry = |name: &str, cmd: &str| xrs::config::ScriptEntry {
        name: name.to_string(),
        script: xrs::config::ScriptDeclaration(vec![xrs::model::script_step(
            cmd.to_string(),
            None,
            &vec![],
        )]),
    };
    xrs::model::declare_scripts(
        &mut table,
        vec![entry("a", "one"), entry("b", "two"), entry("a", "three")],
    );
    assert_eq!(table.names(), vec!["a".to_string(), "b".to_string()]);
    assert_eq!(table.get("a").unwrap().0[0].cmd, "three");
    assert_eq!(table.get("b").unwrap().0[0].cmd, "two");
    xrs::model::declare_scripts(&mut table, vec![]);
    assert_eq!(table.names().len(), 2);
}

#[test]
fn hoist_declarations_are_appended() {
    let dir = |d: &str| xrs::config::HoistDeclaration::Directory { directory: d.to_string() };
    let mut hoist = vec![dir("a")];
    xrs::model::append_hoist(&mut hoist, vec![dir("b"), dir("a")]);
    assert_eq!(hoist, vec![dir("a"), dir("b"), dir("a")]);
    xrs::model::append_hoist(&mut hoist, vec![]);
    assert_eq!(hoist.len(), 3);
}

#[test]
fn later_transform_of_a_position_counts() {
    let transform = |kind: &str| xrs::config::ProcessArgument::Transform { transform: kind.to_string() };
    let step = xrs::model::script_step(
        "make".to_string(),
        Some("sub".to_string()),
        &vec![(2, transform("one")), (1, transform("two")), (2, transform("three"))],
    );
    assert_eq!(step.cmd, "make");
    assert_eq!(step.cwd, Some("sub".to_string()));
    assert_eq!(step.process_args.len(), 2);
    assert_eq!(step.process_args.get(&1), Some(&transform("two")));
    assert_eq!(step.process_args.get(&2), Some(&transform("three")));
}

#[test]
fn order_of_texts() {
    assert_eq!(text_order("a", "b"), TextOrder::Before);
    assert_eq!(text_order("b", "a"), TextOrder::After);
    assert_eq!(text_order("ab", "ab"), TextOrder::Same);
    assert_eq!(text_order("", ""), TextOrder::Same);
    assert_eq!(text_order("", "a"), TextOrder::Before);
    assert_eq!(text_order("ab", "a"), TextOrder::After);
    assert_eq!(text_order("a", "ab"), TextOrder::Before);
    assert_eq!(text_order("B", "a"), TextOrder::Before);
    assert_eq!(text_order("z", "é"), TextOrder::Before);
    assert_eq!(text_order("abc", "abd"), TextOrder::Before);
    // The order is that of the standard library.
    for (a, b) in [("é", "z"), ("Build", "build"), ("a-b", "a_b"), ("x", "x1")] {
        let expected = if a < b {
            TextOrder::Before
        } else if a == b {
            TextOrder::Same
        } else {
            TextOrder::After
        };
        assert_eq!(text_order(a, b), expected);
    }
}
