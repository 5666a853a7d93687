use xrs::config::{HoistDeclaration, ProcessArgument, RootMode};
use xrs::error::ParseError;
use xrs::yaml::{YamlEntry, YamlValue};
use xrs::yaml_parser::{config_from_yaml, parse_yaml_configuration};

const FULL: &str = "
mode: passthrough
mode-opts:
  cmd: cargo
  cwd: core
  prepend-args: [run, --]
  append-args: [--quiet]
hoist:
  - directory: tools/bin
  - dir: vendor/bin
scripts:
  build:
    - cmd: cargo build
      cwd: core
      process-args:
        1:
          transform: realpath
    - cmd: echo done
";

fn text(s: &str) -> YamlValue {
    YamlValue::Str(s.to_string())
}

fn entry(key: &str, value: YamlValue) -> YamlEntry {
    YamlEntry { key: text(key), value }
}

#[test]
fn yaml_full_document() {
    let config = parse_yaml_configuration(FULL).unwrap();
    assert_eq!(
        config.mode,
        RootMode::Passthrough {
            cmd: "cargo".to_string(),
            cwd: Some("core".to_string()),
            prepend_args: vec!["run".to_string(), "--".to_string()],
            append_args: vec!["--quiet".to_string()],
        }
    );
    assert_eq!(
        config.hoist,
        vec![
            HoistDeclaration::Directory { directory: "tools/bin".to_string() },
            HoistDeclaration::Directory { directory: "vendor/bin".to_string() },
        ]
    );
    let build = config.scripts.get("build").unwrap();
    assert_eq!(build.0.len(), 2);
    assert_eq!(build.0[0].cmd, "cargo build");
    assert_eq!(build.0[0].cwd, Some("core".to_string()));
    assert_eq!(
        build.0[0].process_args.get(&1),
        Some(&ProcessArgument::Transform { transform: "realpath".to_string() })
    );
    assert_eq!(build.0[1].cmd, "echo done");
    assert_eq!(build.0[1].cwd, None);
}

#[test]
fn yaml_mode_defaults_to_standalone() {
    let config = parse_yaml_configuration("hoist: []").unwrap();
    assert_eq!(config.mode, RootMode::Standalone);
    assert!(config.hoist.is_empty());
    assert!(config.scripts.names().is_empty());
    let config = parse_yaml_configuration("mode: standalone").unwrap();
    assert_eq!(config.mode, RootMode::Standalone);
}

#[test]
fn yaml_text_is_really_read() {
    let one = parse_yaml_configuration("hoist: [{dir: a}]").unwrap();
    let other = parse_yaml_configuration("hoist: [{dir: b}]").unwrap();
    assert_eq!(one.hoist, vec![HoistDeclaration::Directory { directory: "a".to_string() }]);
    assert_eq!(other.hoist, vec![HoistDeclaration::Directory { directory: "b".to_string() }]);
}

#[test]
fn yaml_passthrough_options_default() {
    let config = parse_yaml_configuration("mode: passthrough\nmode-opts: {cmd: make, cwd: ~}").unwrap();
    assert_eq!(
        config.mode,
        RootMode::Passthrough {
            cmd: "make".to_string(),
            cwd: None,
            prepend_args: vec![],
            append_args: vec![],
        }
    );
}

#[test]
fn yaml_syntax_error() {
    assert_eq!(parse_yaml_configuration("hoist: [a"), Err(ParseError::Syntax));
}

#[test]
fn yaml_root_of_wrong_type() {
    assert_eq!(parse_yaml_configuration("- a\n- b"), Err(ParseError::WrongType));
    assert_eq!(parse_yaml_configuration("just text"), Err(ParseError::WrongType));
}

#[test]
fn yaml_unknown_key() {
    assert_eq!(parse_yaml_configuration("bogus: 1"), Err(ParseError::UnknownName));
    assert_eq!(parse_yaml_configuration("1: 1"), Err(ParseError::UnknownName));
    assert_eq!(
        parse_yaml_configuration("scripts: {a: [{cmd: x, dir: y}]}"),
        Err(ParseError::UnknownName)
    );
    assert_eq!(
        parse_yaml_configuration("hoist: [{path: x}]"),
        Err(ParseError::UnknownName)
    );
    assert_eq!(
        parse_yaml_configuration("mode: passthrough\nmode-opts: {cmd: x, shell: y}"),
        Err(ParseError::UnknownName)
    );
    assert_eq!(
        parse_yaml_configuration("scripts: {a: [{cmd: x, process-args: {1: {kind: t}}}]}"),
        Err(ParseError::UnknownName)
    );
}

#[test]
fn yaml_unknown_mode() {
    assert_eq!(parse_yaml_configuration("mode: bogus"), Err(ParseError::UnknownMode));
}

#[test]
fn yaml_mode_of_wrong_type() {
    assert_eq!(parse_yaml_configuration("mode: 1"), Err(ParseError::WrongType));
}

#[test]
fn yaml_passthrough_without_options() {
    assert_eq!(parse_yaml_configuration("mode: passthrough"), Err(ParseError::MissingValue));
    assert_eq!(
        parse_yaml_configuration("mode: passthrough\nmode-opts: {cwd: x}"),
        Err(ParseError::MissingValue)
    );
    assert_eq!(
        parse_yaml_configuration("mode: passthrough\nmode-opts: [a]"),
        Err(ParseError::WrongType)
    );
    assert_eq!(
        parse_yaml_configuration("mode: passthrough\nmode-opts: {cmd: x, prepend-args: [1]}"),
        Err(ParseError::WrongType)
    );
    assert_eq!(
        parse_yaml_configuration("mode: passthrough\nmode-opts: {cmd: x, append-args: y}"),
        Err(ParseError::WrongType)
    );
}

#[test]
fn yaml_hoist_errors() {
    assert_eq!(parse_yaml_configuration("hoist: {dir: a}"), Err(ParseError::WrongType));
    assert_eq!(parse_yaml_configuration("hoist: [a]"), Err(ParseError::WrongType));
    assert_eq!(parse_yaml_configuration("hoist: [{dir: 1}]"), Err(ParseError::WrongType));
    assert_eq!(parse_yaml_configuration("hoist: [{}]"), Err(ParseError::MissingValue));
}

#[test]
fn yaml_script_errors() {
    assert_eq!(parse_yaml_configuration("scripts: [a]"), Err(ParseError::WrongType));
    assert_eq!(parse_yaml_configuration("scripts: {a: x}"), Err(ParseError::WrongType));
    assert_eq!(parse_yaml_configuration("scripts: {1: [{cmd: x}]}"), Err(ParseError::WrongType));
    assert_eq!(parse_yaml_configuration("scripts: {a: []}"), Err(ParseError::EmptyScript));
    assert_eq!(parse_yaml_configuration("scripts: {a: [x]}"), Err(ParseError::WrongType));
    assert_eq!(parse_yaml_configuration("scripts: {a: [{cwd: x}]}"), Err(ParseError::MissingValue));
    assert_eq!(parse_yaml_configuration("scripts: {a: [{cmd: 1}]}"), Err(ParseError::WrongType));
}

#[test]
fn yaml_transform_errors() {
    let with = |args: &str| format!("scripts: {{a: [{{cmd: x, process-args: {}}}]}}", args);
    assert_eq!(parse_yaml_configuration(&with("[1]")), Err(ParseError::WrongType));
    assert_eq!(parse_yaml_configuration(&with("{a: {transform: t}}")), Err(ParseError::WrongType));
    assert_eq!(parse_yaml_configuration(&with("{1.5: {transform: t}}")), Err(ParseError::WrongType));
    assert_eq!(
        parse_yaml_configuration(&with("{65536: {transform: t}}")),
        Err(ParseError::IndexOutOfRange)
    );
    assert_eq!(
        parse_yaml_configuration(&with("{-1: {transform: t}}")),
        Err(ParseError::IndexOutOfRange)
    );
    assert_eq!(parse_yaml_configuration(&with("{1: t}")), Err(ParseError::WrongType));
    assert_eq!(parse_yaml_configuration(&with("{1: {}}")), Err(ParseError::MissingValue));
    assert_eq!(parse_yaml_configuration(&with("{1: {transform: 2}}")), Err(ParseError::WrongType));
    let config = parse_yaml_configuration(&with("{0: {transform: t}, 65535: {transform: u}}")).unwrap();
    let step = &config.scripts.get("a").unwrap().0[0];
    assert!(step.process_args.contains_key(&0));
    assert!(step.process_args.contains_key(&65535));
}

#[test]
fn yaml_value_built_by_hand() {
    // Of two entries with one fixed key the first one counts; of two
    // scripts with one name the later one.
    let step = |cmd: &str| YamlValue::Mapping(vec![entry("cmd", text(cmd))]);
    let value = YamlValue::Mapping(vec![
        entry("mode", text("standalone")),
        entry("mode", text("bogus")),
        entry(
            "scripts",
            YamlValue::Mapping(vec![
                entry("a", YamlValue::List(vec![step("one")])),
                entry("a", YamlValue::List(vec![step("two")])),
            ]),
        ),
    ]);
    let config = config_from_yaml(&value).unwrap();
    assert_eq!(config.mode, RootMode::Standalone);
    assert_eq!(config.scripts.names(), vec!["a".to_string()]);
    assert_eq!(config.scripts.get("a").unwrap().0[0].cmd, "two");
}

#[test]
fn yaml_directory_key_goes_before_dir() {
    let value = YamlValue::Mapping(vec![entry(
        "hoist",
        YamlValue::List(vec![YamlValue::Mapping(vec![
            entry("dir", text("short")),
            entry("directory", text("long")),
        ])]),
    )]);
    let config = config_from_yaml(&value).unwrap();
    assert_eq!(config.hoist, vec![HoistDeclaration::Directory { directory: "long".to_string() }]);
}

#[test]
fn yaml_scalars_of_other_kinds_are_no_strings() {
    for wrong in [YamlValue::Null, YamlValue::Bool(true), YamlValue::Int(3), YamlValue::Number] {
        let value = YamlValue::Mapping(vec![entry("mode", wrong)]);
        assert_eq!(config_from_yaml(&value), Err(ParseError::WrongType));
    }
}
