use xrs::builtin::{builtin_command, is_builtin_request, BuiltinCommand};
use xrs::config::{RootConfiguration, RootMode, ScriptCmd, ScriptDeclaration, ScriptTable};
use xrs::format::parse_configuration;
use std::collections::BTreeMap;

fn words(items: &[&str]) -> Vec<String> {
    items.iter().map(|s| s.to_string()).collect()
}

fn script(cmd: &str) -> ScriptDeclaration {
    ScriptDeclaration(vec![ScriptCmd { cmd: cmd.to_string(), cwd: None, process_args: BTreeMap::new() }])
}

#[test]
fn builtin_requests() {
    assert!(is_builtin_request(&words(&["-", "root"])));
    assert!(is_builtin_request(&words(&["-"])));
    assert!(!is_builtin_request(&words(&["--", "root"])));
    assert!(!is_builtin_request(&words(&["build", "-"])));
    assert!(!is_builtin_request(&vec![]));
}

#[test]
fn builtin_commands() {
    assert_eq!(builtin_command(&vec![]), BuiltinCommand::Missing);
    assert_eq!(builtin_command(&words(&["root"])), BuiltinCommand::Root);
    assert_eq!(builtin_command(&words(&["root", "more"])), BuiltinCommand::Root);
    assert_eq!(builtin_command(&words(&["print-config"])), BuiltinCommand::PrintConfig);
    assert_eq!(builtin_command(&words(&["which"])), BuiltinCommand::Which { script: None });
    assert_eq!(
        builtin_command(&words(&["which", "Build", "x"])),
        BuiltinCommand::Which { script: Some("Build".to_string()) }
    );
    assert_eq!(
        builtin_command(&words(&["Root"])),
        BuiltinCommand::Unknown { name: "Root".to_string() }
    );
}

#[test]
fn default_configuration() {
    let config = RootConfiguration::default();
    assert_eq!(config.mode, RootMode::Standalone);
    assert_eq!(RootMode::default(), RootMode::Standalone);
    assert!(config.hoist.is_empty());
    assert!(config.scripts.names().is_empty());
}

#[test]
fn script_table() {
    let mut table = ScriptTable::new();
    assert!(!table.contains_key("a"));
    assert_eq!(table.get("a"), None);
    table.insert("b".to_string(), script("one"));
    table.insert("a".to_string(), script("two"));
    table.insert("b".to_string(), script("three"));
    assert!(table.contains_key("a"));
    assert!(table.contains_key("b"));
    assert!(!table.contains_key("B"));
    assert_eq!(table.get("b"), Some(&script("three")));
    assert_eq!(table.get("a"), Some(&script("two")));
    // The names come in the order of texts, whatever the order of declaration.
    assert_eq!(table.names(), words(&["a", "b"]));
    table.insert("B".to_string(), script("four"));
    table.insert("ab".to_string(), script("five"));
    table.insert("".to_string(), script("six"));
    table.insert("é".to_string(), script("seven"));
    assert_eq!(table.names(), words(&["", "B", "a", "ab", "b", "é"]));
    let mut sorted = table.names();
    sorted.sort();
    assert_eq!(table.names(), sorted);
    assert_eq!(table.get("ab"), Some(&script("five")));
    assert_eq!(table.get("b"), Some(&script("three")));
}

#[test]
fn printed_configuration_is_stable() {
    let text = "
hoist: [{dir: bin}]
scripts:
  b: [{cmd: one, process-args: {2: {transform: realpath}, 1: {transform: other}}}]
  a: [{cmd: two, cwd: sub}]
";
    let expected = "RootConfiguration { mode: Standalone, \
        hoist: [Directory { directory: \"bin\" }], \
        scripts: ScriptTable { entries: [\
        ScriptEntry { name: \"a\", script: ScriptDeclaration([ScriptCmd { cmd: \"two\", cwd: Some(\"sub\"), \
        process_args: {} }]) }, \
        ScriptEntry { name: \"b\", script: ScriptDeclaration([ScriptCmd { cmd: \"one\", cwd: None, \
        process_args: {1: Transform { transform: \"other\" }, 2: Transform { transform: \"realpath\" }} }]) }\
        ] } }";
    let once = parse_configuration("x-root.yml", text).unwrap();
    let again = parse_configuration("x-root.yml", text).unwrap();
    assert_eq!(format!("{:?}", once), expected);
    assert_eq!(format!("{:?}", again), expected);
    assert_eq!(once, again);
    assert_eq!(once.clone(), once);
    // The scripts declared in another order give the same configuration.
    let permuted = "
scripts:
  a: [{cmd: two, cwd: sub}]
  b: [{cmd: one, process-args: {1: {transform: other}, 2: {transform: realpath}}}]
hoist: [{dir: bin}]
";
    let other = parse_configuration("x-root.yml", permuted).unwrap();
    assert_eq!(other, once);
    assert_eq!(format!("{:?}", other), expected);
}
