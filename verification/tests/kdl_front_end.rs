use xrs::config::{HoistDeclaration, ProcessArgument, RootMode};
use xrs::error::ParseError;
use xrs::markup::{Element, Property, Scalar};
use xrs::config::RootConfiguration;
use xrs::parser::{config_from_markup, parse_kdl_configuration};

/// Reads a document written on one line: child nodes are put on lines of
/// their own first, as the format asks.
fn read(text: &str) -> Result<RootConfiguration, ParseError> {
    let spread = text.replace("{ ", "{\n").replace(" }", "\n}").replace("; ", "\n");
    parse_kdl_configuration(&spread)
}

const FULL: &str = r#"
mode "standalone"
hoist {
    directory "tools/bin"
    dir "vendor/bin"
}
scripts {
    script "build" {
        step "cargo build" cwd="core" {
            process-arg 1 transform="realpath"
        }
        step "echo done"
    }
}
"#;

fn directory(h: &HoistDeclaration) -> &str {
    match h {
        HoistDeclaration::Directory { directory } => directory,
    }
}

#[test]
fn kdl_full_document() {
    let config = read(FULL).unwrap();
    assert_eq!(config.mode, RootMode::Standalone);
    assert_eq!(config.hoist.len(), 2);
    assert_eq!(directory(&config.hoist[0]), "tools/bin");
    assert_eq!(directory(&config.hoist[1]), "vendor/bin");
    assert_eq!(config.scripts.names(), vec!["build".to_string()]);
    let build = config.scripts.get("build").unwrap();
    assert_eq!(build.0.len(), 2);
    assert_eq!(build.0[0].cmd, "cargo build");
    assert_eq!(build.0[0].cwd, Some("core".to_string()));
    assert_eq!(
        build.0[0].process_args.get(&1),
        Some(&ProcessArgument::Transform { transform: "realpath".to_string() })
    );
    assert_eq!(build.0[0].process_args.len(), 1);
    assert_eq!(build.0[1].cmd, "echo done");
    assert_eq!(build.0[1].cwd, None);
    assert!(build.0[1].process_args.is_empty());
}

#[test]
fn kdl_empty_document_is_the_default() {
    let config = read("").unwrap();
    assert_eq!(config.mode, RootMode::Standalone);
    assert!(config.hoist.is_empty());
    assert!(config.scripts.names().is_empty());
}

#[test]
fn kdl_text_is_really_read() {
    // The configuration comes from the text, not from the argument handed back.
    let one = read("hoist { dir \"a\" }").unwrap();
    let other = read("hoist { dir \"b\" }").unwrap();
    assert_eq!(directory(&one.hoist[0]), "a");
    assert_eq!(directory(&other.hoist[0]), "b");
}

#[test]
fn kdl_hoist_blocks_are_concatenated_in_order() {
    let text = "hoist { dir \"a\" }\nscripts { }\nhoist { directory \"b\"; dir \"c\" }";
    let config = read(text).unwrap();
    let dirs: Vec<&str> = config.hoist.iter().map(directory).collect();
    assert_eq!(dirs, vec!["a", "b", "c"]);
}

#[test]
fn kdl_later_script_replaces_earlier() {
    let text = r#"
scripts {
    script "a" { step "one" }
    script "b" { step "two" }
}
scripts {
    script "a" { step "three" }
}
"#;
    let config = read(text).unwrap();
    assert_eq!(config.scripts.names(), vec!["a".to_string(), "b".to_string()]);
    assert_eq!(config.scripts.get("a").unwrap().0[0].cmd, "three");
    assert_eq!(config.scripts.get("b").unwrap().0[0].cmd, "two");
}

#[test]
fn kdl_step_nodes_may_carry_any_name() {
    let text = "scripts { script \"a\" { - \"one\"; whatever \"two\" } }";
    let config = read(text).unwrap();
    let a = config.scripts.get("a").unwrap();
    assert_eq!(a.0[0].cmd, "one");
    assert_eq!(a.0[1].cmd, "two");
}

#[test]
fn kdl_later_transform_of_a_position_replaces_earlier() {
    let text = r#"scripts { script "a" { step "x" {
        process-arg 2 transform="one"
        process-arg 2 transform="two"
    } } }"#;
    let config = read(text).unwrap();
    let step = &config.scripts.get("a").unwrap().0[0];
    assert_eq!(
        step.process_args.get(&2),
        Some(&ProcessArgument::Transform { transform: "two".to_string() })
    );
}

#[test]
fn kdl_syntax_error() {
    assert_eq!(read("hoist {"), Err(ParseError::Syntax));
}

#[test]
fn kdl_unknown_top_level_node() {
    assert_eq!(read("bogus 1"), Err(ParseError::UnknownName));
}

#[test]
fn kdl_unknown_mode() {
    assert_eq!(read("mode \"bogus\""), Err(ParseError::UnknownMode));
    assert_eq!(read("mode \"Standalone\""), Err(ParseError::UnknownMode));
}

fn passthrough(cmd: &str, cwd: Option<&str>, prepend: &[&str], append: &[&str]) -> RootMode {
    RootMode::Passthrough {
        cmd: cmd.to_string(),
        cwd: cwd.map(|s| s.to_string()),
        prepend_args: prepend.iter().map(|s| s.to_string()).collect(),
        append_args: append.iter().map(|s| s.to_string()).collect(),
    }
}

#[test]
fn kdl_passthrough_mode() {
    let text = r#"
mode "passthrough" {
    append-args "--quiet"
    cmd "cargo"
    cwd "core"
    prepend-args "run" "--"
}
"#;
    let config = read(text).unwrap();
    assert_eq!(config.mode, passthrough("cargo", Some("core"), &["run", "--"], &["--quiet"]));
    let config = read("mode \"passthrough\" { cmd \"make\" }").unwrap();
    assert_eq!(config.mode, passthrough("make", None, &[], &[]));
    let config = read("mode \"passthrough\" { cmd \"make\"; prepend-args }").unwrap();
    assert_eq!(config.mode, passthrough("make", None, &[], &[]));
}

#[test]
fn kdl_passthrough_first_option_of_a_name_counts() {
    let text = "mode \"passthrough\" { cmd \"one\"; cmd \"two\"; append-args \"a\"; append-args \"b\" }";
    assert_eq!(read(text).unwrap().mode, passthrough("one", None, &[], &["a"]));
}

#[test]
fn kdl_passthrough_errors() {
    assert_eq!(read("mode \"passthrough\""), Err(ParseError::MissingValue));
    assert_eq!(read("mode \"passthrough\" { cwd \"x\" }"), Err(ParseError::MissingValue));
    assert_eq!(read("mode \"passthrough\" { cmd }"), Err(ParseError::MissingValue));
    assert_eq!(read("mode \"passthrough\" { cmd 1 }"), Err(ParseError::WrongType));
    assert_eq!(read("mode \"passthrough\" { cmd \"x\"; cwd true }"), Err(ParseError::WrongType));
    assert_eq!(
        read("mode \"passthrough\" { cmd \"x\"; prepend-args \"a\" 2 }"),
        Err(ParseError::WrongType)
    );
    assert_eq!(
        read("mode \"passthrough\" { cmd \"x\"; shell \"sh\" }"),
        Err(ParseError::UnknownName)
    );
    assert_eq!(
        read("mode \"passthrough\" { cmd \"x\" a=1 }"),
        Err(ParseError::UnknownName)
    );
    assert_eq!(
        read("mode \"passthrough\" a=1 { cmd \"x\" }"),
        Err(ParseError::UnknownName)
    );
    assert_eq!(read("mode \"standalone\" { cmd \"x\" }"), Err(ParseError::UnknownName));
    // An unknown name goes before a missing or wrong value.
    assert_eq!(read("mode \"passthrough\" { cwd 1; shell \"sh\" }"), Err(ParseError::UnknownName));
}

#[test]
fn kdl_first_mode_node_counts() {
    let text = "mode \"passthrough\" { cmd \"x\" }\nmode \"standalone\"";
    assert_eq!(read(text).unwrap().mode, passthrough("x", None, &[], &[]));
    let text = "mode \"standalone\"\nmode \"passthrough\" { cmd \"x\" }";
    assert_eq!(read(text).unwrap().mode, RootMode::Standalone);
    // Every mode node is read, whichever counts.
    let text = "mode \"standalone\"\nmode \"bogus\"";
    assert_eq!(read(text), Err(ParseError::UnknownMode));
}

#[test]
fn kdl_mode_of_wrong_type() {
    assert_eq!(read("mode 1"), Err(ParseError::WrongType));
}

#[test]
fn kdl_mode_without_value() {
    assert_eq!(read("mode"), Err(ParseError::MissingValue));
}

#[test]
fn kdl_mode_with_property() {
    assert_eq!(read("mode \"standalone\" a=1"), Err(ParseError::UnknownName));
}

#[test]
fn kdl_unknown_hoist_child() {
    assert_eq!(read("hoist { file \"a\" }"), Err(ParseError::UnknownName));
}

#[test]
fn kdl_directory_of_wrong_type() {
    assert_eq!(read("hoist { dir true }"), Err(ParseError::WrongType));
}

#[test]
fn kdl_unknown_scripts_child() {
    assert_eq!(read("scripts { task \"a\" }"), Err(ParseError::UnknownName));
}

#[test]
fn kdl_script_without_steps() {
    assert_eq!(read("scripts { script \"a\" }"), Err(ParseError::EmptyScript));
}

#[test]
fn kdl_step_with_unknown_property() {
    let text = "scripts { script \"a\" { step \"x\" dir=\"y\" } }";
    assert_eq!(read(text), Err(ParseError::UnknownName));
}

#[test]
fn kdl_step_with_cwd_of_wrong_type() {
    let text = "scripts { script \"a\" { step \"x\" cwd=1 } }";
    assert_eq!(read(text), Err(ParseError::WrongType));
}

#[test]
fn kdl_step_with_unknown_child() {
    let text = "scripts { script \"a\" { step \"x\" { arg 1 } } }";
    assert_eq!(read(text), Err(ParseError::UnknownName));
}

#[test]
fn kdl_transform_position_out_of_range() {
    let text = "scripts { script \"a\" { step \"x\" { process-arg 65536 transform=\"t\" } } }";
    assert_eq!(read(text), Err(ParseError::IndexOutOfRange));
    let text = "scripts { script \"a\" { step \"x\" { process-arg -1 transform=\"t\" } } }";
    assert_eq!(read(text), Err(ParseError::IndexOutOfRange));
}

#[test]
fn kdl_transform_position_at_the_bounds() {
    let text = "scripts { script \"a\" { step \"x\" { process-arg 0 transform=\"t\"; process-arg 65535 transform=\"u\" } } }";
    let config = read(text).unwrap();
    let step = &config.scripts.get("a").unwrap().0[0];
    assert!(step.process_args.contains_key(&0));
    assert!(step.process_args.contains_key(&65535));
}

#[test]
fn kdl_transform_without_kind() {
    let text = "scripts { script \"a\" { step \"x\" { process-arg 1 } } }";
    assert_eq!(read(text), Err(ParseError::MissingValue));
}

#[test]
fn kdl_transform_position_of_wrong_type() {
    let text = "scripts { script \"a\" { step \"x\" { process-arg \"1\" transform=\"t\" } } }";
    assert_eq!(read(text), Err(ParseError::WrongType));
}

#[test]
fn kdl_first_rejected_node_decides() {
    assert_eq!(read("mode 1\nbogus"), Err(ParseError::WrongType));
    assert_eq!(read("bogus\nmode 1"), Err(ParseError::UnknownName));
}

fn node(name: &str, values: Vec<Scalar>, properties: Vec<Property>, children: Vec<Element>) -> Element {
    Element { name: name.to_string(), values, properties, children }
}

#[test]
fn markup_document_built_by_hand() {
    let step = node(
        "step",
        vec![Scalar::Str("make".to_string())],
        vec![
            Property { key: "cwd".to_string(), value: Scalar::Int(1) },
            Property { key: "cwd".to_string(), value: Scalar::Str("sub".to_string()) },
        ],
        vec![],
    );
    let script = node("script", vec![Scalar::Str("all".to_string())], vec![], vec![step]);
    let document = vec![node("scripts", vec![], vec![], vec![script])];
    let config = config_from_markup(&document).unwrap();
    // Of two properties with one key the last one counts.
    assert_eq!(config.scripts.get("all").unwrap().0[0].cwd, Some("sub".to_string()));
}

#[test]
fn markup_float_is_no_string() {
    let document = vec![node("mode", vec![Scalar::Float], vec![], vec![])];
    assert_eq!(config_from_markup(&document), Err(ParseError::WrongType));
    let document = vec![node("mode", vec![Scalar::Null], vec![], vec![])];
    assert_eq!(config_from_markup(&document), Err(ParseError::WrongType));
    let document = vec![node("mode", vec![Scalar::Bool(true)], vec![], vec![])];
    assert_eq!(config_from_markup(&document), Err(ParseError::WrongType));
}
