use xrs::find::{
    config_filenames, find_binary, find_root, hoist_directories, split_position, stem_is,
    AncestorProbe, DirEntryInfo, DirectoryListing, EntryProbe, FindError, HoistedBinary,
    ScanError,
};
use xrs::config::HoistDeclaration;
use xrs::format::{format_of, parse_configuration, ConfigFormat};
use xrs::error::ParseError;

fn probe(directory: &str, kdl: bool, yml: bool) -> AncestorProbe {
    AncestorProbe { directory: directory.to_string(), present: vec![kdl, yml] }
}

fn file(dir: &str, name: &str) -> EntryProbe {
    EntryProbe::Entry(DirEntryInfo {
        path: format!("{}/{}", dir, name),
        file_name: Some(name.to_string()),
        is_file: true,
        is_executable: true,
    })
}

#[test]
fn config_file_names_in_priority_order() {
    assert_eq!(config_filenames(), vec!["x-root.kdl".to_string(), "x-root.yml".to_string()]);
}

#[test]
fn root_is_the_nearest_ancestor_with_a_configuration() {
    // A configuration at an ancestor and at a deeper directory: the deeper
    // one, which comes first, wins.
    let probes = vec![
        probe("/proj/sub/deep", false, false),
        probe("/proj/sub", false, true),
        probe("/proj", true, false),
        probe("/", false, false),
    ];
    let root = find_root(&probes).unwrap();
    assert_eq!(root.ancestor, 1);
    assert_eq!(root.priority, 1);
    assert_eq!(root.directory, "/proj/sub");
    assert_eq!(root.file_name, "x-root.yml");
}

#[test]
fn root_file_name_by_priority() {
    let root = find_root(&vec![probe("/proj", true, true)]).unwrap();
    assert_eq!(root.priority, 0);
    assert_eq!(root.file_name, "x-root.kdl");
}

#[test]
fn root_not_found() {
    assert_eq!(find_root(&vec![]).err(), Some(FindError::RootNotFound));
    let probes = vec![probe("/a/b", false, false), probe("/a", false, false)];
    assert_eq!(find_root(&probes).err(), Some(FindError::RootNotFound));
}

#[test]
fn root_probe_of_another_length() {
    // Observations beyond the recognised names do not count, missing ones
    // count as absent.
    let long = AncestorProbe { directory: "/a".to_string(), present: vec![false, false, true] };
    let short = AncestorProbe { directory: "/".to_string(), present: vec![true] };
    let root = find_root(&vec![long, short]).unwrap();
    assert_eq!(root.ancestor, 1);
    assert_eq!(root.file_name, "x-root.kdl");
}

#[test]
fn root_found_from_a_subdirectory() {
    let probes = vec![probe("/proj/sub", false, false), probe("/proj", false, true)];
    let root = find_root(&probes).unwrap();
    assert_eq!(root.directory, "/proj");
    assert_eq!(root.file_name, "x-root.yml");
    assert_eq!(format_of(&root.file_name), Some(ConfigFormat::Yaml));
}

#[test]
fn stems_of_file_names() {
    assert!(stem_is("foo", "foo"));
    assert!(stem_is("foo.sh", "foo"));
    assert!(stem_is("foo.tar.gz", "foo.tar"));
    assert!(!stem_is("foo.tar.gz", "foo"));
    assert!(stem_is(".profile", ".profile"));
    assert!(stem_is(".profile.bak", ".profile"));
    assert!(stem_is("foo.", "foo"));
    assert!(stem_is("", ""));
    assert!(stem_is("é.x", "é"));
    assert!(!stem_is("foo.sh", "foo.sh"));
}

#[test]
fn split_positions() {
    assert_eq!(split_position("foo.sh"), Some(3));
    assert_eq!(split_position("a.b.c"), Some(3));
    assert_eq!(split_position(".hidden"), None);
    assert_eq!(split_position("plain"), None);
    assert_eq!(split_position(""), None);
}

#[test]
fn formats_by_extension() {
    assert_eq!(format_of("x-root.kdl"), Some(ConfigFormat::Kdl));
    assert_eq!(format_of("x-root.yml"), Some(ConfigFormat::Yaml));
    assert_eq!(format_of("x-root.yaml"), Some(ConfigFormat::Yaml));
    assert_eq!(format_of("x-root.toml"), None);
    assert_eq!(format_of("x-root"), None);
    assert_eq!(format_of(".kdl"), None);
    assert_eq!(format_of("x-root.KDL"), None);
}

#[test]
fn configuration_by_file_name() {
    let kdl = parse_configuration("x-root.kdl", "hoist {\n dir \"a\"\n}").unwrap();
    let yml = parse_configuration("x-root.yml", "hoist: [{dir: a}]").unwrap();
    assert_eq!(kdl, yml);
    assert_eq!(parse_configuration("x-root.txt", ""), Err(ParseError::UnknownFormat));
    // The text of one format is no text of the other.
    assert!(parse_configuration("x-root.kdl", "hoist: [{dir: a}]").is_err());
}

#[test]
fn hoist_directories_in_declared_order() {
    let hoist = vec![
        HoistDeclaration::Directory { directory: "b".to_string() },
        HoistDeclaration::Directory { directory: "a".to_string() },
    ];
    assert_eq!(hoist_directories(&hoist), vec!["b".to_string(), "a".to_string()]);
}

#[test]
fn binary_in_the_second_directory() {
    let listings = vec![
        DirectoryListing::Entries(vec![file("/one", "bar"), file("/one", "food")]),
        DirectoryListing::Entries(vec![file("/two", "baz"), file("/two", "foo.sh")]),
    ];
    let expected = HoistedBinary { directory: 1, entry: 1, path: "/two/foo.sh".to_string() };
    assert_eq!(find_binary(&listings, "foo"), Ok(Some(expected.clone())));
    // The same question gives the same answer.
    assert_eq!(find_binary(&listings, "foo"), Ok(Some(expected)));
}

#[test]
fn binary_first_match_wins() {
    let listings = vec![
        DirectoryListing::Entries(vec![file("/one", "foo.py"), file("/one", "foo")]),
        DirectoryListing::Entries(vec![file("/two", "foo")]),
    ];
    let found = find_binary(&listings, "foo").unwrap().unwrap();
    assert_eq!((found.directory, found.entry), (0, 0));
    assert_eq!(found.path, "/one/foo.py");
}

#[test]
fn binary_must_be_an_executable_regular_file() {
    let plain = |is_file: bool, is_executable: bool| {
        EntryProbe::Entry(DirEntryInfo {
            path: "/one/foo".to_string(),
            file_name: Some("foo".to_string()),
            is_file,
            is_executable,
        })
    };
    let nameless = EntryProbe::Entry(DirEntryInfo {
        path: "/one/?".to_string(),
        file_name: None,
        is_file: true,
        is_executable: true,
    });
    let listings = vec![DirectoryListing::Entries(vec![
        plain(false, true),
        plain(true, false),
        plain(false, false),
        nameless,
    ])];
    assert_eq!(find_binary(&listings, "foo"), Ok(None));
    assert_eq!(find_binary(&vec![], "foo"), Ok(None));
}

#[test]
fn binary_search_fails_fast() {
    let unreadable_first = vec![
        DirectoryListing::Unreadable,
        DirectoryListing::Entries(vec![file("/two", "foo")]),
    ];
    assert_eq!(
        find_binary(&unreadable_first, "foo"),
        Err(ScanError::Directory { directory: 0 })
    );
    let broken_entry = vec![
        DirectoryListing::Entries(vec![file("/one", "bar")]),
        DirectoryListing::Entries(vec![EntryProbe::Unreadable, file("/two", "foo")]),
    ];
    assert_eq!(
        find_binary(&broken_entry, "foo"),
        Err(ScanError::Entry { directory: 1, entry: 0 })
    );
    // A failure after the match is never met.
    let match_first = vec![
        DirectoryListing::Entries(vec![file("/one", "foo"), EntryProbe::Unreadable]),
        DirectoryListing::Unreadable,
    ];
    assert_eq!(find_binary(&match_first, "foo").unwrap().unwrap().path, "/one/foo");
}

#[test]
fn binary_search_stops_at_a_symbolic_link() {
    let listings = vec![
        DirectoryListing::Entries(vec![file("/one", "bar")]),
        DirectoryListing::Entries(vec![
            file("/two", "baz"),
            EntryProbe::SymbolicLink,
            file("/two", "foo"),
        ]),
    ];
    assert_eq!(
        find_binary(&listings, "foo"),
        Err(ScanError::SymbolicLink { directory: 1, entry: 1 })
    );
    // A match before the link is found.
    assert_eq!(find_binary(&listings, "baz").unwrap().unwrap().path, "/two/baz");
}

#[test]
fn both_formats_give_the_same_configuration() {
    let kdl = r#"
mode "standalone"
hoist {
    directory "tools/bin"
    directory "vendor/bin"
}
scripts {
    script "build" {
        step "cargo build" cwd="core" {
            process-arg 1 transform="realpath"
            process-arg 3 transform="other"
        }
        step "echo done"
    }
    script "test" {
        step "cargo test"
    }
}
"#;
    let yml = "
mode: standalone
hoist:
  - directory: tools/bin
  - directory: vendor/bin
scripts:
  build:
    - cmd: cargo build
      cwd: core
      process-args:
        1: {transform: realpath}
        3: {transform: other}
    - cmd: echo done
      cwd: ~
      process-args: {}
  test:
    - cmd: cargo test
";
    let from_kdl = parse_configuration("x-root.kdl", kdl).unwrap();
    let from_yml = parse_configuration("x-root.yml", yml).unwrap();
    assert_eq!(from_kdl.mode, from_yml.mode);
    assert_eq!(from_kdl.hoist, from_yml.hoist);
    assert_eq!(from_kdl.scripts, from_yml.scripts);
    assert_eq!(from_kdl, from_yml);
    assert_eq!(from_kdl.scripts.get("build").unwrap().0.len(), 2);
    let kdl = "mode \"passthrough\" {\n cmd \"cargo\"\n cwd \"core\"\n prepend-args \"run\" \"--\"\n append-args \"-q\"\n}";
    let yml = "mode: passthrough\nmode-opts: {cmd: cargo, cwd: core, prepend-args: [run, --], append-args: [-q]}";
    assert_eq!(
        parse_configuration("x-root.kdl", kdl).unwrap(),
        parse_configuration("x-root.yml", yml).unwrap()
    );
    // Both reject the same outline for the same reason.
    let kdl = "scripts {\n script \"a\" {\n step \"x\" {\n process-arg 70000 transform=\"t\"\n}\n}\n}";
    let yml = "scripts: {a: [{cmd: x, process-args: {70000: {transform: t}}}]}";
    assert_eq!(parse_configuration("x-root.kdl", kdl), Err(ParseError::IndexOutOfRange));
    assert_eq!(parse_configuration("x-root.yml", yml), Err(ParseError::IndexOutOfRange));
}

#[test]
fn passthrough_in_both_formats_with_options_left_out() {
    let kdl = "mode \"passthrough\" {\n cmd \"cargo\"\n prepend-args \"run\"\n}";
    let yml = "mode: passthrough\nmode-opts: {cmd: cargo, prepend-args: [run]}";
    let from_kdl = parse_configuration("x-root.kdl", kdl).unwrap();
    let from_yml = parse_configuration("x-root.yml", yml).unwrap();
    let expected = xrs::config::RootMode::Passthrough {
        cmd: "cargo".to_string(),
        cwd: None,
        prepend_args: vec!["run".to_string()],
        append_args: vec![],
    };
    assert_eq!(from_kdl.mode, expected);
    assert_eq!(from_yml.mode, expected);
    assert_eq!(from_kdl, from_yml);
}

#[test]
fn scripts_declared_in_another_order_give_the_same_configuration() {
    let one = "scripts {\n script \"b\" {\n step \"two\"\n}\n script \"a\" {\n step \"one\"\n}\n}";
    let other = "scripts {\n script \"a\" {\n step \"one\"\n}\n script \"b\" {\n step \"two\"\n}\n}";
    let first = parse_configuration("x-root.kdl", one).unwrap();
    let second = parse_configuration("x-root.kdl", other).unwrap();
    assert_eq!(first, second);
    assert_eq!(first.scripts.names(), vec!["a".to_string(), "b".to_string()]);
    assert_eq!(format!("{:?}", first), format!("{:?}", second));
}
