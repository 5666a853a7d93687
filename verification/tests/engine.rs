use std::collections::BTreeMap;
use xrs::config::{ProcessArgument, RootConfiguration, RootMode, ScriptCmd};
use xrs::config::ScriptDeclaration;
use xrs::engine::{
    direct_invocation, passthrough_invocation, plan_arguments, plan_step,
    requested_script, resolve_target, runtime_arguments, shell_invocation, transform_by_name,
    working_directory, Invocation, PlannedArgument, ResolveError, StepPlan, Target, Transform,
    UnsupportedTransform, WorkingDirectory,
};
use xrs::find::{DirEntryInfo, DirectoryListing, EntryProbe, HoistedBinary, ScanError};
use xrs::format::parse_configuration;

fn words(items: &[&str]) -> Vec<String> {
    items.iter().map(|s| s.to_string()).collect()
}

fn step(cmd: &str, cwd: Option<&str>, transforms: &[(u16, &str)]) -> ScriptCmd {
    let mut process_args = BTreeMap::new();
    for (position, kind) in transforms {
        process_args.insert(*position, ProcessArgument::Transform { transform: kind.to_string() });
    }
    ScriptCmd { cmd: cmd.to_string(), cwd: cwd.map(|s| s.to_string()), process_args }
}

fn verbatim(s: &str) -> PlannedArgument {
    PlannedArgument::Verbatim(s.to_string())
}

fn realpath(s: &str) -> PlannedArgument {
    PlannedArgument::Transformed { transform: Transform::Realpath, argument: s.to_string() }
}

fn executable(path: &str, name: &str) -> EntryProbe {
    EntryProbe::Entry(DirEntryInfo {
        path: path.to_string(),
        file_name: Some(name.to_string()),
        is_file: true,
        is_executable: true,
    })
}

#[test]
fn transform_kinds() {
    assert_eq!(transform_by_name("realpath"), Some(Transform::Realpath));
    assert_eq!(transform_by_name("Realpath"), None);
    assert_eq!(transform_by_name("bogus"), None);
    assert_eq!(transform_by_name(""), None);
}

#[test]
fn arguments_without_transforms_pass_unchanged() {
    let plan = plan_arguments(&step("x", None, &[]), &words(&["a", "b"]));
    assert_eq!(plan, Ok(vec![verbatim("a"), verbatim("b")]));
    assert_eq!(plan_arguments(&step("x", None, &[]), &vec![]), Ok(vec![]));
}

#[test]
fn transform_applies_to_its_position_only() {
    let plan = plan_arguments(&step("x", None, &[(2, "realpath")]), &words(&["a", "b", "c"]));
    assert_eq!(plan, Ok(vec![verbatim("a"), realpath("b"), verbatim("c")]));
}

#[test]
fn transform_beyond_the_arguments_is_ignored() {
    // A transform at position 3, two arguments: both pass unchanged, and
    // even an unsupported kind there is no failure.
    let given = words(&["a", "b"]);
    let plain = plan_arguments(&step("x", None, &[]), &given);
    assert_eq!(plan_arguments(&step("x", None, &[(3, "realpath")]), &given), plain);
    assert_eq!(plan_arguments(&step("x", None, &[(3, "bogus")]), &given), plain);
    assert_eq!(plain, Ok(vec![verbatim("a"), verbatim("b")]));
}

#[test]
fn transform_at_position_zero_is_never_met() {
    let plan = plan_arguments(&step("x", None, &[(0, "bogus")]), &words(&["a"]));
    assert_eq!(plan, Ok(vec![verbatim("a")]));
}

#[test]
fn unsupported_transform_fails_the_step() {
    let plan = plan_step(&step("x", None, &[(1, "bogus")]), &words(&["a"]));
    assert_eq!(plan, Err(UnsupportedTransform { position: 1, kind: "bogus".to_string() }));
}

#[test]
fn first_unsupported_transform_is_reported() {
    let declared = step("x", None, &[(1, "realpath"), (2, "one"), (3, "two")]);
    let plan = plan_arguments(&declared, &words(&["a", "b", "c"]));
    assert_eq!(plan, Err(UnsupportedTransform { position: 2, kind: "one".to_string() }));
}

#[test]
fn step_plan_holds_command_and_directory() {
    let plan = plan_step(&step("make all", Some("core"), &[(1, "realpath")]), &words(&["f"])).unwrap();
    assert_eq!(plan.command, "make all");
    assert_eq!(plan.arguments, vec![realpath("f")]);
    assert_eq!(plan.directory, WorkingDirectory::Resolve("core".to_string()));
    let plan = plan_step(&step("make", None, &[]), &vec![]).unwrap();
    assert_eq!(plan.directory, WorkingDirectory::Invocation);
}

#[test]
fn working_directories() {
    assert_eq!(working_directory(&None), WorkingDirectory::Invocation);
    assert_eq!(
        working_directory(&Some("sub".to_string())),
        WorkingDirectory::Resolve("sub".to_string())
    );
}

#[test]
fn shell_invocation_words() {
    let invocation = shell_invocation(None, "echo $1", "x", &words(&["a b", "c"]));
    assert_eq!(
        invocation,
        Invocation { program: "sh".to_string(), arguments: words(&["-c", "echo $1", "x", "a b", "c"]) }
    );
    let invocation = shell_invocation(Some("/bin/zsh".to_string()), "ls", "x", &vec![]);
    assert_eq!(
        invocation,
        Invocation { program: "/bin/zsh".to_string(), arguments: words(&["-c", "ls", "x"]) }
    );
}

#[test]
fn direct_invocation_words() {
    let invocation = direct_invocation("cargo", &words(&["run", "--"]), &words(&["a"]), &words(&["-q"]));
    assert_eq!(
        invocation,
        Invocation { program: "cargo".to_string(), arguments: words(&["run", "--", "a", "-q"]) }
    );
    let invocation = direct_invocation("cargo", &vec![], &vec![], &vec![]);
    assert_eq!(invocation, Invocation { program: "cargo".to_string(), arguments: vec![] });
}

#[test]
fn passthrough_invocations() {
    assert_eq!(passthrough_invocation(&RootMode::Standalone, &words(&["a"])), None);
    let mode = RootMode::Passthrough {
        cmd: "make".to_string(),
        cwd: Some("build".to_string()),
        prepend_args: words(&["-j", "4"]),
        append_args: words(&["V=1"]),
    };
    let (invocation, directory) = passthrough_invocation(&mode, &words(&["all"])).unwrap();
    assert_eq!(invocation.program, "make");
    assert_eq!(invocation.arguments, words(&["-j", "4", "all", "V=1"]));
    assert_eq!(directory, WorkingDirectory::Resolve("build".to_string()));
    let mode = RootMode::Passthrough {
        cmd: "make".to_string(),
        cwd: None,
        prepend_args: vec![],
        append_args: vec![],
    };
    let (invocation, directory) = passthrough_invocation(&mode, &vec![]).unwrap();
    assert_eq!(invocation.arguments, Vec::<String>::new());
    assert_eq!(directory, WorkingDirectory::Invocation);
}

#[test]
fn requested_script_is_the_first_argument_as_typed() {
    assert_eq!(requested_script(&words(&["BUILD", "Arg"])), Some("BUILD".to_string()));
    assert_eq!(requested_script(&words(&["Éa"])), Some("Éa".to_string()));
    assert_eq!(requested_script(&words(&["test"])), Some("test".to_string()));
    assert_eq!(requested_script(&vec![]), None);
}

#[test]
fn script_names_are_matched_as_written() {
    let config = parse_configuration("x-root.yml", "scripts: {Build: [{cmd: echo hi}]}").unwrap();
    let arguments = words(&["Build"]);
    let name = requested_script(&arguments).unwrap();
    match resolve_target(&config, &vec![], &name) {
        Ok(Target::Script(script)) => assert_eq!(script.0[0].cmd, "echo hi"),
        other => panic!("no script: {:?}", other),
    }
    assert_eq!(
        resolve_target(&config, &vec![], "build"),
        Err(ResolveError::UnknownScriptOrBinary)
    );
}

#[test]
fn runtime_arguments_follow_the_name() {
    assert_eq!(runtime_arguments(&words(&["build", "A", "b"])), words(&["A", "b"]));
    assert_eq!(runtime_arguments(&words(&["build"])), Vec::<String>::new());
    assert_eq!(runtime_arguments(&vec![]), Vec::<String>::new());
}

#[test]
fn declared_script_runs_through_the_shell() {
    let config = parse_configuration("x-root.yml", "scripts:\n  build:\n    - cmd: echo hi\n").unwrap();
    let arguments = words(&["build"]);
    let name = requested_script(&arguments).unwrap();
    let rest = runtime_arguments(&arguments);
    let script = match resolve_target(&config, &vec![], &name) {
        Ok(Target::Script(script)) => script,
        other => panic!("no script: {:?}", other),
    };
    assert_eq!(script.0.len(), 1);
    let plan = plan_step(&script.0[0], &rest).unwrap();
    assert_eq!(plan.command, "echo hi");
    assert_eq!(plan.arguments, vec![]);
    assert_eq!(plan.directory, WorkingDirectory::Invocation);
    let invocation = shell_invocation(None, &plan.command, "x", &rest);
    assert_eq!(invocation.program, "sh");
    assert_eq!(invocation.arguments, words(&["-c", "echo hi", "x"]));
}

#[test]
fn hoisted_binary_is_resolved() {
    let config = parse_configuration("x-root.yml", "hoist:\n  - directory: /proj/bin\n").unwrap();
    let listings = vec![DirectoryListing::Entries(vec![executable("/proj/bin/foo", "foo")])];
    let found = resolve_target(&config, &listings, "foo");
    let expected = HoistedBinary { directory: 0, entry: 0, path: "/proj/bin/foo".to_string() };
    assert_eq!(found, Ok(Target::Hoisted(expected)));
}

#[test]
fn script_goes_before_a_hoisted_binary() {
    let config = parse_configuration("x-root.yml", "scripts: {foo: [{cmd: a}]}").unwrap();
    // The listings are not even looked at.
    let listings = vec![DirectoryListing::Unreadable];
    match resolve_target(&config, &listings, "foo") {
        Ok(Target::Script(script)) => assert_eq!(script.0[0].cmd, "a"),
        other => panic!("no script: {:?}", other),
    }
}

#[test]
fn unknown_name_and_failed_search() {
    let config = RootConfiguration::default();
    let listings = vec![DirectoryListing::Entries(vec![executable("/bin/bar", "bar")])];
    assert_eq!(
        resolve_target(&config, &listings, "foo"),
        Err(ResolveError::UnknownScriptOrBinary)
    );
    assert_eq!(resolve_target(&config, &vec![], "foo"), Err(ResolveError::UnknownScriptOrBinary));
    let listings = vec![DirectoryListing::Unreadable];
    assert_eq!(
        resolve_target(&config, &listings, "foo"),
        Err(ResolveError::Filesystem(ScanError::Directory { directory: 0 }))
    );
}

#[test]
fn steps_are_planned_one_by_one() {
    // The unsupported transform stands in the second step: the first step
    // has its plan, and runs, before the second one fails.
    let script = ScriptDeclaration(vec![
        step("one", None, &[(1, "realpath")]),
        step("two", Some("sub"), &[(2, "bogus"), (1, "worse")]),
    ]);
    let given = words(&["a", "b"]);
    assert_eq!(
        plan_step(&script.0[0], &given),
        Ok(StepPlan {
            command: "one".to_string(),
            arguments: vec![realpath("a"), verbatim("b")],
            directory: WorkingDirectory::Invocation,
        })
    );
    assert_eq!(
        plan_step(&script.0[1], &given),
        Err(UnsupportedTransform { position: 1, kind: "worse".to_string() })
    );
    // With no argument no transform is met.
    assert_eq!(
        plan_step(&script.0[1], &vec![]),
        Ok(StepPlan {
            command: "two".to_string(),
            arguments: vec![],
            directory: WorkingDirectory::Resolve("sub".to_string()),
        })
    );
}
