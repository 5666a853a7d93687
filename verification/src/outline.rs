//! A configuration in outline, written out in both formats.
//!
//! An outline holds what a configuration declares: the mode, the hoist
//! directories and the scripts. It is written out as a document of nodes
//! and as a value of the conventional format, and both front-ends read
//! the same configuration, or the same rejection, from the two.
//!
//! Each format is written in two spellings. The full one writes every
//! option down, an empty list where nothing is declared. The terse one
//! leaves out what declares nothing: the arguments of the passthrough mode
//! where there are none and, in the conventional format, the key `mode`
//! of the standalone mode, the keys `hoist` and `scripts` where nothing
//! stands under them, a working directory that is not declared and the
//! transforms of a step that has none. It also names a hoist directory by
//! `dir`, where the full spelling writes `directory`.

use crate::config::{ConfigView, HoistView, ModeView, ProcessArgumentView, ScriptCmdView};
use crate::error::ParseError;
use crate::markup::{ElementView, ScalarView};
use crate::model::{declare_all, index_map, IndexedTransform, NamedScript};
use crate::parser::{
    all_options, declared_hoist, declared_scripts, declares_mode, directories, directory_of,
    markup_config, mode_of, named_node, option_names, script_of, scripts, sections, step_of,
    steps, transform_of, transforms, words, Section,
};
use crate::sequence::{
    is_first, lemma_first_index_is, lemma_first_index_none, lemma_try_map_agrees,
    lemma_try_map_err, lemma_try_map_ok, try_map,
};
use crate::yaml::YamlView;
use crate::yaml_parser::{
    as_texts, directory_keys, entry_of, keyed, keys_among, passthrough_keys, passthrough_of,
    root_keys, step_keys, yaml_config, yaml_directories, yaml_directory, yaml_mode, yaml_script,
    yaml_script_entries, yaml_step, yaml_steps, yaml_transform, yaml_transforms, YamlPair,
};
use vstd::prelude::*;

verus! {

// ----------------------------------------------------------------------
// Outlines and what they declare
// ----------------------------------------------------------------------
/// A transform in outline: the position of the argument, and the kind.
pub ghost struct TransformOutline {
    pub position: i64,
    pub kind: Seq<char>,
}

/// A step in outline.
pub ghost struct StepOutline {
    pub cmd: Seq<char>,
    pub cwd: Option<Seq<char>>,
    pub transforms: Seq<TransformOutline>,
}

/// A script in outline.
pub ghost struct ScriptOutline {
    pub name: Seq<char>,
    pub steps: Seq<StepOutline>,
}

/// A configuration in outline.
pub ghost struct ConfigOutline {
    pub mode: ModeView,
    pub hoist: Seq<Seq<char>>,
    pub scripts: Seq<ScriptOutline>,
}

/// The transform that an outline declares; its position is one of
/// 0 to 65535.
pub open spec fn outline_transform(outline: TransformOutline) -> Result<
    IndexedTransform,
    ParseError,
> {
    if 0 <= outline.position <= 65535 {
        Ok((outline.position as u16, ProcessArgumentView::Transform { transform: outline.kind }))
    } else {
        Err(ParseError::IndexOutOfRange)
    }
}

/// [`outline_transform`] as a function value.
pub open spec fn outline_transforms() -> spec_fn(TransformOutline) -> Result<
    IndexedTransform,
    ParseError,
> {
    |outline: TransformOutline| outline_transform(outline)
}

/// The step that an outline declares.
pub open spec fn outline_step(outline: StepOutline) -> Result<ScriptCmdView, ParseError> {
    match try_map(outline.transforms, outline_transforms()) {
        Err(e) => Err(e),
        Ok(declared) => Ok(
            ScriptCmdView { cmd: outline.cmd, cwd: outline.cwd, process_args: index_map(declared) },
        ),
    }
}

/// [`outline_step`] as a function value.
pub open spec fn outline_steps() -> spec_fn(StepOutline) -> Result<ScriptCmdView, ParseError> {
    |outline: StepOutline| outline_step(outline)
}

/// The script that an outline declares; it has at least one step.
pub open spec fn outline_script(outline: ScriptOutline) -> Result<NamedScript, ParseError> {
    match try_map(outline.steps, outline_steps()) {
        Err(e) => Err(e),
        Ok(script) => if script.len() == 0 {
            Err(ParseError::EmptyScript)
        } else {
            Ok((outline.name, script))
        },
    }
}

/// [`outline_script`] as a function value.
pub open spec fn outline_scripts() -> spec_fn(ScriptOutline) -> Result<NamedScript, ParseError> {
    |outline: ScriptOutline| outline_script(outline)
}

/// The hoist declaration of a directory.
pub open spec fn hoisted() -> spec_fn(Seq<char>) -> HoistView {
    |directory: Seq<char>| HoistView::Directory { directory }
}

/// The configuration that an outline declares, or the reason for which
/// it is rejected.
pub open spec fn outline_config(outline: ConfigOutline) -> Result<ConfigView, ParseError> {
    match try_map(outline.scripts, outline_scripts()) {
        Err(e) => Err(e),
        Ok(declared) => Ok(
            ConfigView {
                mode: outline.mode,
                hoist: outline.hoist.map_values(hoisted()),
                scripts: declare_all(Map::empty(), declared),
            },
        ),
    }
}

// ----------------------------------------------------------------------
// An outline as a document of nodes
// ----------------------------------------------------------------------
/// A node with one value, a string.
pub open spec fn text_node(
    name: Seq<char>,
    text: Seq<char>,
    properties: Map<Seq<char>, ScalarView>,
    children: Seq<ElementView>,
) -> ElementView {
    ElementView { name, values: seq![ScalarView::Str(text)], properties, children }
}

/// `process-arg 1 transform="realpath"`
pub open spec fn markup_transform(outline: TransformOutline) -> ElementView {
    ElementView {
        name: "process-arg"@,
        values: seq![ScalarView::Int(outline.position)],
        properties: Map::empty().insert("transform"@, ScalarView::Str(outline.kind)),
        children: Seq::empty(),
    }
}

/// [`markup_transform`] as a function value.
pub open spec fn markup_transforms() -> spec_fn(TransformOutline) -> ElementView {
    |outline: TransformOutline| markup_transform(outline)
}

/// `step "cargo build" cwd="core" { .. }`
pub open spec fn markup_step(outline: StepOutline) -> ElementView {
    text_node(
        "step"@,
        outline.cmd,
        match outline.cwd {
            Some(directory) => Map::empty().insert("cwd"@, ScalarView::Str(directory)),
            None => Map::empty(),
        },
        outline.transforms.map_values(markup_transforms()),
    )
}

/// [`markup_step`] as a function value.
pub open spec fn markup_steps() -> spec_fn(StepOutline) -> ElementView {
    |outline: StepOutline| markup_step(outline)
}

/// `script "build" { .. }`
pub open spec fn markup_script(outline: ScriptOutline) -> ElementView {
    text_node("script"@, outline.name, Map::empty(), outline.steps.map_values(markup_steps()))
}

/// [`markup_script`] as a function value.
pub open spec fn markup_scripts() -> spec_fn(ScriptOutline) -> ElementView {
    |outline: ScriptOutline| markup_script(outline)
}

/// The name of a hoist directory's node or key: `directory`, or `dir` in
/// the terse spelling.
pub open spec fn directory_word(terse: bool) -> Seq<char> {
    if terse {
        "dir"@
    } else {
        "directory"@
    }
}

/// `directory "tools/bin"`
pub open spec fn markup_directory(directory: Seq<char>, terse: bool) -> ElementView {
    text_node(directory_word(terse), directory, Map::empty(), Seq::empty())
}

/// [`markup_directory`] as a function value.
pub open spec fn markup_directories(terse: bool) -> spec_fn(Seq<char>) -> ElementView {
    |directory: Seq<char>| markup_directory(directory, terse)
}

/// A node without values or properties.
pub open spec fn block(name: Seq<char>, children: Seq<ElementView>) -> ElementView {
    ElementView { name, values: Seq::empty(), properties: Map::empty(), children }
}

/// A string as a value of a node.
pub open spec fn text_values() -> spec_fn(Seq<char>) -> ScalarView {
    |text: Seq<char>| ScalarView::Str(text)
}

/// `prepend-args "run" "--"`
pub open spec fn words_node(name: Seq<char>, given: Seq<Seq<char>>) -> ElementView {
    ElementView {
        name,
        values: given.map_values(text_values()),
        properties: Map::empty(),
        children: Seq::empty(),
    }
}

/// The item where it is written down, and nothing where it is left out.
pub open spec fn maybe<A>(written: bool, item: A) -> Seq<A> {
    if written {
        seq![item]
    } else {
        Seq::empty()
    }
}

/// The options of the passthrough mode as nodes: `cmd`, `cwd` where a
/// working directory is declared, `prepend-args` and `append-args`. The
/// terse spelling leaves out the arguments where there are none.
pub open spec fn markup_options(
    cmd: Seq<char>,
    cwd: Option<Seq<char>>,
    prepend_args: Seq<Seq<char>>,
    append_args: Seq<Seq<char>>,
    terse: bool,
) -> Seq<ElementView> {
    seq![text_node("cmd"@, cmd, Map::empty(), Seq::empty())] + markup_cwd(cwd) + maybe(
        !terse || prepend_args.len() > 0,
        words_node("prepend-args"@, prepend_args),
    ) + maybe(!terse || append_args.len() > 0, words_node("append-args"@, append_args))
}

/// `cwd "core"`, where a working directory is declared.
pub open spec fn markup_cwd(cwd: Option<Seq<char>>) -> Seq<ElementView> {
    match cwd {
        Some(directory) => seq![text_node("cwd"@, directory, Map::empty(), Seq::empty())],
        None => Seq::empty(),
    }
}

/// `mode "standalone"`, or `mode "passthrough" { .. }` with the options
/// as child nodes.
pub open spec fn markup_mode(mode: ModeView, terse: bool) -> ElementView {
    match mode {
        ModeView::Standalone => text_node("mode"@, "standalone"@, Map::empty(), Seq::empty()),
        ModeView::Passthrough { cmd, cwd, prepend_args, append_args } => text_node(
            "mode"@,
            "passthrough"@,
            Map::empty(),
            markup_options(cmd, cwd, prepend_args, append_args, terse),
        ),
    }
}

/// The outline as a document: a `mode` node, a `hoist` node and a
/// `scripts` node.
pub open spec fn markup_of(outline: ConfigOutline, terse: bool) -> Seq<ElementView> {
    seq![
        markup_mode(outline.mode, terse),
        block("hoist"@, outline.hoist.map_values(markup_directories(terse))),
        block("scripts"@, outline.scripts.map_values(markup_scripts())),
    ]
}

// ----------------------------------------------------------------------
// An outline as a value of the conventional format
// ----------------------------------------------------------------------
/// An entry with a string as its key.
pub open spec fn keyed_entry(key: Seq<char>, value: YamlView) -> YamlPair {
    (YamlView::Str(key), value)
}

/// `1: {transform: realpath}`
pub open spec fn yaml_transform_entry(outline: TransformOutline) -> YamlPair {
    (
        YamlView::Int(outline.position),
        YamlView::Mapping(seq![keyed_entry("transform"@, YamlView::Str(outline.kind))]),
    )
}

/// [`yaml_transform_entry`] as a function value.
pub open spec fn yaml_transform_entries() -> spec_fn(TransformOutline) -> YamlPair {
    |outline: TransformOutline| yaml_transform_entry(outline)
}

/// `{cmd: cargo build, cwd: core, process-args: {..}}`. The full spelling
/// writes a null for a working directory that is not declared; the terse
/// one leaves that key out, and `process-args` where there are none.
pub open spec fn yaml_step_value(outline: StepOutline, terse: bool) -> YamlView {
    YamlView::Mapping(
        seq![keyed_entry("cmd"@, YamlView::Str(outline.cmd))] + maybe(
            !terse || outline.cwd is Some,
            keyed_entry("cwd"@, yaml_optional(outline.cwd)),
        ) + maybe(
            !terse || outline.transforms.len() > 0,
            keyed_entry(
                "process-args"@,
                YamlView::Mapping(outline.transforms.map_values(yaml_transform_entries())),
            ),
        ),
    )
}

/// [`yaml_step_value`] as a function value.
pub open spec fn yaml_step_values(terse: bool) -> spec_fn(StepOutline) -> YamlView {
    |outline: StepOutline| yaml_step_value(outline, terse)
}

/// `build: [..]`
pub open spec fn yaml_script_entry(outline: ScriptOutline, terse: bool) -> YamlPair {
    keyed_entry(outline.name, YamlView::List(outline.steps.map_values(yaml_step_values(terse))))
}

/// [`yaml_script_entry`] as a function value.
pub open spec fn yaml_script_outlines(terse: bool) -> spec_fn(ScriptOutline) -> YamlPair {
    |outline: ScriptOutline| yaml_script_entry(outline, terse)
}

/// `{directory: tools/bin}`
pub open spec fn yaml_directory_value(directory: Seq<char>, terse: bool) -> YamlView {
    YamlView::Mapping(seq![keyed_entry(directory_word(terse), YamlView::Str(directory))])
}

/// [`yaml_directory_value`] as a function value.
pub open spec fn yaml_directory_values(terse: bool) -> spec_fn(Seq<char>) -> YamlView {
    |directory: Seq<char>| yaml_directory_value(directory, terse)
}

/// A string as a value.
pub open spec fn yaml_texts() -> spec_fn(Seq<char>) -> YamlView {
    |text: Seq<char>| YamlView::Str(text)
}

/// A string where there is one, and a null where there is none.
pub open spec fn yaml_optional(text: Option<Seq<char>>) -> YamlView {
    match text {
        Some(text) => YamlView::Str(text),
        None => YamlView::Null,
    }
}

/// The options of the passthrough mode as a mapping:
/// `{cmd: .., cwd: .., prepend-args: [..], append-args: [..]}`. The terse
/// spelling leaves out a working directory that is not declared and the
/// arguments where there are none.
pub open spec fn yaml_options(
    cmd: Seq<char>,
    cwd: Option<Seq<char>>,
    prepend_args: Seq<Seq<char>>,
    append_args: Seq<Seq<char>>,
    terse: bool,
) -> Seq<YamlPair> {
    seq![keyed_entry("cmd"@, YamlView::Str(cmd))] + maybe(
        !terse || cwd is Some,
        keyed_entry("cwd"@, yaml_optional(cwd)),
    ) + maybe(
        !terse || prepend_args.len() > 0,
        keyed_entry("prepend-args"@, YamlView::List(prepend_args.map_values(yaml_texts()))),
    ) + maybe(
        !terse || append_args.len() > 0,
        keyed_entry("append-args"@, YamlView::List(append_args.map_values(yaml_texts()))),
    )
}

/// `mode: standalone`, which the terse spelling leaves out, or
/// `mode: passthrough` and `mode-opts: {..}`.
pub open spec fn yaml_mode_entries(mode: ModeView, terse: bool) -> Seq<YamlPair> {
    match mode {
        ModeView::Standalone => maybe(
            !terse,
            keyed_entry("mode"@, YamlView::Str("standalone"@)),
        ),
        ModeView::Passthrough { cmd, cwd, prepend_args, append_args } => seq![
            keyed_entry("mode"@, YamlView::Str("passthrough"@)),
            keyed_entry(
                "mode-opts"@,
                YamlView::Mapping(yaml_options(cmd, cwd, prepend_args, append_args, terse)),
            ),
        ],
    }
}

/// The outline as a value: a mapping with the keys of the mode, `hoist`
/// and `scripts`. The terse spelling leaves out `hoist` and `scripts`
/// where nothing stands under them.
pub open spec fn yaml_of(outline: ConfigOutline, terse: bool) -> YamlView {
    YamlView::Mapping(
        yaml_mode_entries(outline.mode, terse) + maybe(
            !terse || outline.hoist.len() > 0,
            keyed_entry(
                "hoist"@,
                YamlView::List(outline.hoist.map_values(yaml_directory_values(terse))),
            ),
        ) + maybe(
            !terse || outline.scripts.len() > 0,
            keyed_entry(
                "scripts"@,
                YamlView::Mapping(outline.scripts.map_values(yaml_script_outlines(terse))),
            ),
        ),
    )
}

// ----------------------------------------------------------------------
// Both front-ends read the outline
// ----------------------------------------------------------------------
/// The names that stand side by side in one place differ.
proof fn lemma_names_differ()
    ensures
        "mode"@ != "hoist"@,
        "mode"@ != "scripts"@,
        "hoist"@ != "scripts"@,
        "mode-opts"@ != "mode"@,
        "mode-opts"@ != "hoist"@,
        "mode-opts"@ != "scripts"@,
        "cmd"@ != "cwd"@,
        "cmd"@ != "process-args"@,
        "cwd"@ != "process-args"@,
        "cmd"@ != "prepend-args"@,
        "cmd"@ != "append-args"@,
        "cwd"@ != "prepend-args"@,
        "cwd"@ != "append-args"@,
        "prepend-args"@ != "append-args"@,
        "standalone"@ != "passthrough"@,
        "dir"@ != "directory"@,
{
    reveal_strlit("dir");
    reveal_strlit("directory");
    assert("dir"@.len() == 3 && "directory"@.len() == 9);
    reveal_strlit("mode");
    reveal_strlit("mode-opts");
    reveal_strlit("hoist");
    reveal_strlit("scripts");
    reveal_strlit("cmd");
    reveal_strlit("cwd");
    reveal_strlit("process-args");
    reveal_strlit("prepend-args");
    reveal_strlit("append-args");
    reveal_strlit("standalone");
    reveal_strlit("passthrough");
    assert("mode"@.len() == 4 && "hoist"@.len() == 5 && "scripts"@.len() == 7 && "mode-opts"@.len()
        == 9);
    assert("prepend-args"@.len() == 12 && "append-args"@.len() == 11 && "cmd"@.len() == 3
        && "cwd"@.len() == 3);
    assert("standalone"@.len() == 10 && "passthrough"@.len() == 11);
    assert("cmd"@[1] != "cwd"@[1]);
}

/// The one entry of a mapping with a single key.
proof fn lemma_single_entry(key: Seq<char>, value: YamlView)
    ensures
        entry_of(seq![keyed_entry(key, value)], key) == Some(value),
        keys_among(seq![keyed_entry(key, value)], seq![key]),
{
    let entries = seq![keyed_entry(key, value)];
    assert(is_first(entries, keyed(key), 0));
    lemma_first_index_is(entries, keyed(key), 0);
    assert(seq![key][0] == key);
}

proof fn lemma_transform_agrees(outline: TransformOutline)
    ensures
        transform_of(markup_transform(outline)) == outline_transform(outline),
        yaml_transform(yaml_transform_entry(outline)) == outline_transform(outline),
{
    let node = markup_transform(outline);
    assert(node.values[0] == ScalarView::Int(outline.position));
    lemma_single_entry("transform"@, YamlView::Str(outline.kind));
}

proof fn lemma_step_markup_agrees(outline: StepOutline)
    ensures
        step_of(markup_step(outline)) == outline_step(outline),
{
    let declared = outline.transforms;
    let node = markup_step(outline);
    assert(node.values[0] == ScalarView::Str(outline.cmd));
    assert forall|j: int| 0 <= j < declared.len() implies transforms()(
        #[trigger] node.children[j],
    ) == outline_transforms()(declared[j]) by {
        lemma_transform_agrees(declared[j]);
    }
    lemma_try_map_agrees(node.children, transforms(), declared, outline_transforms());
}

proof fn lemma_step_yaml_agrees(outline: StepOutline, terse: bool)
    ensures
        yaml_step(yaml_step_value(outline, terse)) == outline_step(outline),
{
    lemma_names_differ();
    let declared = outline.transforms;
    let fields = yaml_step_value(outline, terse)->Mapping_0;
    let entries = declared.map_values(yaml_transform_entries());
    assert forall|j: int| 0 <= j < declared.len() implies yaml_transforms()(#[trigger] entries[j])
        == outline_transforms()(declared[j]) by {
        lemma_transform_agrees(declared[j]);
    }
    lemma_try_map_agrees(entries, yaml_transforms(), declared, outline_transforms());
    let with_cwd = !terse || outline.cwd is Some;
    let with_args = !terse || declared.len() > 0;
    let shift: int = if with_cwd { 1 } else { 0 };
    assert(fields[0] == keyed_entry("cmd"@, YamlView::Str(outline.cmd)));
    lemma_first_index_is(fields, keyed("cmd"@), 0);
    if with_cwd {
        assert(fields[1] == keyed_entry("cwd"@, yaml_optional(outline.cwd)));
        lemma_first_index_is(fields, keyed("cwd"@), 1);
    }
    if with_args {
        assert(fields[1 + shift] == keyed_entry("process-args"@, YamlView::Mapping(entries)));
        lemma_first_index_is(fields, keyed("process-args"@), 1 + shift);
    } else {
        lemma_try_map_ok(declared, outline_transforms(), Seq::empty());
    }
    if !with_cwd {
        lemma_first_index_none(fields, keyed("cwd"@));
    }
    if !with_args {
        lemma_first_index_none(fields, keyed("process-args"@));
    }
    assert(step_keys()[0] == "cmd"@ && step_keys()[1] == "cwd"@ && step_keys()[2]
        == "process-args"@);
    assert(keys_among(fields, step_keys()));
}

proof fn lemma_script_markup_agrees(outline: ScriptOutline)
    ensures
        script_of(markup_script(outline)) == outline_script(outline),
{
    let declared = outline.steps;
    let node = markup_script(outline);
    assert(node.values[0] == ScalarView::Str(outline.name));
    assert forall|j: int| 0 <= j < declared.len() implies steps()(#[trigger] node.children[j])
        == outline_steps()(declared[j]) by {
        lemma_step_markup_agrees(declared[j]);
    }
    lemma_try_map_agrees(node.children, steps(), declared, outline_steps());
}

proof fn lemma_script_yaml_agrees(outline: ScriptOutline, terse: bool)
    ensures
        yaml_script(yaml_script_entry(outline, terse)) == outline_script(outline),
{
    let declared = outline.steps;
    let items = declared.map_values(yaml_step_values(terse));
    assert forall|j: int| 0 <= j < declared.len() implies yaml_steps()(#[trigger] items[j])
        == outline_steps()(declared[j]) by {
        lemma_step_yaml_agrees(declared[j], terse);
    }
    lemma_try_map_agrees(items, yaml_steps(), declared, outline_steps());
}

proof fn lemma_directory_agrees(directory: Seq<char>, terse: bool)
    ensures
        directory_of(markup_directory(directory, terse)) == Ok::<HoistView, ParseError>(
            hoisted()(directory),
        ),
        yaml_directory(yaml_directory_value(directory, terse)) == Ok::<HoistView, ParseError>(
            hoisted()(directory),
        ),
{
    lemma_names_differ();
    let node = markup_directory(directory, terse);
    assert(node.values[0] == ScalarView::Str(directory));
    let fields = yaml_directory_value(directory, terse)->Mapping_0;
    lemma_single_entry(directory_word(terse), YamlView::Str(directory));
    if terse {
        lemma_first_index_none(fields, keyed("directory"@));
    }
    assert(directory_keys()[0] == "directory"@ && directory_keys()[1] == "dir"@);
    assert(keys_among(fields, directory_keys()));
}

proof fn lemma_words_agree(given: Seq<Seq<char>>)
    ensures
        try_map(given.map_values(text_values()), words()) == Ok::<Seq<Seq<char>>, ParseError>(
            given,
        ),
        try_map(given.map_values(yaml_texts()), as_texts()) == Ok::<Seq<Seq<char>>, ParseError>(
            given,
        ),
{
    lemma_try_map_ok(given.map_values(text_values()), words(), given);
    lemma_try_map_ok(given.map_values(yaml_texts()), as_texts(), given);
}

proof fn lemma_mode_markup_agrees(mode: ModeView, terse: bool)
    ensures
        mode_of(markup_mode(mode, terse)) == Ok::<ModeView, ParseError>(mode),
{
    lemma_names_differ();
    let node = markup_mode(mode, terse);
    match mode {
        ModeView::Standalone => {
            assert(node.values[0] == ScalarView::Str("standalone"@));
        },
        ModeView::Passthrough { cmd, cwd, prepend_args, append_args } => {
            assert(node.values[0] == ScalarView::Str("passthrough"@));
            let options = node.children;
            let names = option_names();
            assert(names[0] == "cmd"@ && names[1] == "cwd"@ && names[2] == "prepend-args"@
                && names[3] == "append-args"@);
            let with_prepend = !terse || prepend_args.len() > 0;
            let with_append = !terse || append_args.len() > 0;
            let first: int = 1 + (if cwd is Some { 1int } else { 0int });
            let second: int = first + (if with_prepend { 1int } else { 0int });
            assert(options[0] == text_node("cmd"@, cmd, Map::empty(), Seq::empty()));
            assert(options[0].values[0] == ScalarView::Str(cmd));
            lemma_first_index_is(options, named_node("cmd"@), 0);
            if cwd is Some {
                assert(options[1] == text_node("cwd"@, cwd->Some_0, Map::empty(), Seq::empty()));
                assert(options[1].values[0] == ScalarView::Str(cwd->Some_0));
                lemma_first_index_is(options, named_node("cwd"@), 1);
            }
            if with_prepend {
                assert(options[first] == words_node("prepend-args"@, prepend_args));
                lemma_first_index_is(options, named_node("prepend-args"@), first);
            }
            if with_append {
                assert(options[second] == words_node("append-args"@, append_args));
                lemma_first_index_is(options, named_node("append-args"@), second);
            }
            if cwd is None {
                lemma_first_index_none(options, named_node("cwd"@));
            }
            if !with_prepend {
                lemma_first_index_none(options, named_node("prepend-args"@));
                assert(prepend_args =~= Seq::empty());
            }
            if !with_append {
                lemma_first_index_none(options, named_node("append-args"@));
                assert(append_args =~= Seq::empty());
            }
            assert(all_options(options));
            lemma_words_agree(prepend_args);
            lemma_words_agree(append_args);
        },
    }
}

proof fn lemma_options_yaml_agree(
    cmd: Seq<char>,
    cwd: Option<Seq<char>>,
    prepend_args: Seq<Seq<char>>,
    append_args: Seq<Seq<char>>,
    terse: bool,
)
    ensures
        passthrough_of(
            Some(YamlView::Mapping(yaml_options(cmd, cwd, prepend_args, append_args, terse))),
        ) == Ok::<ModeView, ParseError>(
            ModeView::Passthrough { cmd, cwd, prepend_args, append_args },
        ),
{
    lemma_names_differ();
    let fields = yaml_options(cmd, cwd, prepend_args, append_args, terse);
    let keys = passthrough_keys();
    assert(keys[0] == "cmd"@ && keys[1] == "cwd"@ && keys[2] == "prepend-args"@ && keys[3]
        == "append-args"@);
    let with_cwd = !terse || cwd is Some;
    let with_prepend = !terse || prepend_args.len() > 0;
    let with_append = !terse || append_args.len() > 0;
    let first: int = 1 + (if with_cwd { 1int } else { 0int });
    let second: int = first + (if with_prepend { 1int } else { 0int });
    assert(fields[0] == keyed_entry("cmd"@, YamlView::Str(cmd)));
    lemma_first_index_is(fields, keyed("cmd"@), 0);
    if with_cwd {
        assert(fields[1] == keyed_entry("cwd"@, yaml_optional(cwd)));
        lemma_first_index_is(fields, keyed("cwd"@), 1);
    }
    if with_prepend {
        assert(fields[first] == keyed_entry(
            "prepend-args"@,
            YamlView::List(prepend_args.map_values(yaml_texts())),
        ));
        lemma_first_index_is(fields, keyed("prepend-args"@), first);
    }
    if with_append {
        assert(fields[second] == keyed_entry(
            "append-args"@,
            YamlView::List(append_args.map_values(yaml_texts())),
        ));
        lemma_first_index_is(fields, keyed("append-args"@), second);
    }
    if !with_cwd {
        lemma_first_index_none(fields, keyed("cwd"@));
    }
    if !with_prepend {
        lemma_first_index_none(fields, keyed("prepend-args"@));
        assert(prepend_args =~= Seq::empty());
    }
    if !with_append {
        lemma_first_index_none(fields, keyed("append-args"@));
        assert(append_args =~= Seq::empty());
    }
    assert(keys_among(fields, keys));
    lemma_words_agree(prepend_args);
    lemma_words_agree(append_args);
}

proof fn lemma_mode_yaml_agrees(mode: ModeView, terse: bool, rest: Seq<YamlPair>)
    requires
        forall|j: int|
            0 <= j < rest.len() ==> !keyed("mode"@)(#[trigger] rest[j]) && !keyed("mode-opts"@)(
                rest[j],
            ),
    ensures
        yaml_mode(yaml_mode_entries(mode, terse) + rest) == Ok::<ModeView, ParseError>(mode),
{
    lemma_names_differ();
    let entries = yaml_mode_entries(mode, terse) + rest;
    match mode {
        ModeView::Standalone => {
            if terse {
                assert(entries =~= rest);
                lemma_first_index_none(entries, keyed("mode"@));
            } else {
                lemma_first_index_is(entries, keyed("mode"@), 0);
            }
        },
        ModeView::Passthrough { cmd, cwd, prepend_args, append_args } => {
            lemma_first_index_is(entries, keyed("mode"@), 0);
            lemma_first_index_is(entries, keyed("mode-opts"@), 1);
            lemma_options_yaml_agree(cmd, cwd, prepend_args, append_args, terse);
        },
    }
}

proof fn lemma_markup_agrees(outline: ConfigOutline, terse: bool)
    ensures
        markup_config(markup_of(outline, terse)) == outline_config(outline),
{
    lemma_names_differ();
    let document = markup_of(outline, terse);
    let hoist = outline.hoist.map_values(hoisted());
    lemma_mode_markup_agrees(outline.mode, terse);
    assert(document[0].name == "mode"@);
    assert(sections()(document[0]) == Ok::<Section, ParseError>(Section::Mode(outline.mode)));
    assert forall|j: int| 0 <= j < outline.hoist.len() implies directories()(
        #[trigger] document[1].children[j],
    ) == Ok::<HoistView, ParseError>(hoist[j]) by {
        lemma_directory_agrees(outline.hoist[j], terse);
    }
    lemma_try_map_ok(document[1].children, directories(), hoist);
    assert(sections()(document[1]) == Ok::<Section, ParseError>(Section::Hoist(hoist)));
    assert forall|j: int| 0 <= j < outline.scripts.len() implies scripts()(
        #[trigger] document[2].children[j],
    ) == outline_scripts()(outline.scripts[j]) by {
        lemma_script_markup_agrees(outline.scripts[j]);
    }
    lemma_try_map_agrees(document[2].children, scripts(), outline.scripts, outline_scripts());
    match try_map(outline.scripts, outline_scripts()) {
        Err(e) => {
            assert(sections()(document[2]) == Err::<Section, ParseError>(e));
            lemma_try_map_err(document, sections(), 2);
        },
        Ok(named) => {
            let declared = seq![
                Section::Mode(outline.mode),
                Section::Hoist(hoist),
                Section::Scripts(named),
            ];
            assert(sections()(document[2]) == Ok::<Section, ParseError>(declared[2]));
            lemma_try_map_ok(document, sections(), declared);
            assert(is_first(declared, declares_mode(), 0));
            lemma_first_index_is(declared, declares_mode(), 0);
            let two = declared.drop_last();
            let one = two.drop_last();
            let zero = one.drop_last();
            let nothing = Map::<Seq<char>, Seq<ScriptCmdView>>::empty();
            assert(zero.len() == 0);
            assert(one.last() == declared[0] && two.last() == declared[1]);
            assert(declared_hoist(zero) =~= Seq::empty());
            assert(declared_scripts(zero) == nothing);
            assert(declare_all(nothing, Seq::empty()) == nothing);
            assert(declared_hoist(one) =~= Seq::empty());
            assert(declared_hoist(two) =~= hoist);
            assert(declared_hoist(declared) =~= hoist);
            assert(declared_scripts(one) == nothing);
            assert(declared_scripts(two) == nothing);
        },
    }
}

proof fn lemma_yaml_agrees(outline: ConfigOutline, terse: bool)
    ensures
        yaml_config(yaml_of(outline, terse)) == outline_config(outline),
{
    lemma_names_differ();
    let head = yaml_mode_entries(outline.mode, terse);
    let entries = yaml_of(outline, terse)->Mapping_0;
    let first = head.len() as int;
    let rest = entries.skip(first);
    let hoist = outline.hoist.map_values(hoisted());
    let items = outline.hoist.map_values(yaml_directory_values(terse));
    let declared = outline.scripts.map_values(yaml_script_outlines(terse));
    let with_hoist = !terse || outline.hoist.len() > 0;
    let with_scripts = !terse || outline.scripts.len() > 0;
    let second: int = first + (if with_hoist { 1int } else { 0int });
    assert(entries =~= head + rest);
    if with_hoist {
        assert(entries[first] == keyed_entry("hoist"@, YamlView::List(items)));
        assert(rest[0] == entries[first]);
    }
    if with_scripts {
        assert(entries[second] == keyed_entry("scripts"@, YamlView::Mapping(declared)));
        assert(rest[second - first] == entries[second]);
    }
    lemma_mode_yaml_agrees(outline.mode, terse, rest);
    assert(root_keys()[0] == "mode"@ && root_keys()[1] == "mode-opts"@ && root_keys()[2]
        == "hoist"@ && root_keys()[3] == "scripts"@);
    assert(keys_among(entries, root_keys()));
    if with_hoist {
        lemma_first_index_is(entries, keyed("hoist"@), first);
    } else {
        lemma_first_index_none(entries, keyed("hoist"@));
        assert(hoist =~= Seq::empty());
    }
    if with_scripts {
        lemma_first_index_is(entries, keyed("scripts"@), second);
    } else {
        lemma_first_index_none(entries, keyed("scripts"@));
        lemma_try_map_ok(outline.scripts, outline_scripts(), Seq::empty());
    }
    assert forall|j: int| 0 <= j < items.len() implies yaml_directories()(#[trigger] items[j])
        == Ok::<HoistView, ParseError>(hoist[j]) by {
        lemma_directory_agrees(outline.hoist[j], terse);
    }
    lemma_try_map_ok(items, yaml_directories(), hoist);
    assert forall|j: int| 0 <= j < declared.len() implies yaml_script_entries()(
        #[trigger] declared[j],
    ) == outline_scripts()(outline.scripts[j]) by {
        lemma_script_yaml_agrees(outline.scripts[j], terse);
    }
    lemma_try_map_agrees(declared, yaml_script_entries(), outline.scripts, outline_scripts());
}

/// Both front-ends read an outline alike. The document of nodes and the
/// value of the conventional format that stand for one outline, each in
/// either spelling, declare the same configuration, field by field, or
/// are rejected for the same reason: what the outline itself declares.
pub proof fn law_formats_agree(outline: ConfigOutline, terse_markup: bool, terse_yaml: bool)
    ensures
        markup_config(markup_of(outline, terse_markup)) == outline_config(outline),
        yaml_config(yaml_of(outline, terse_yaml)) == outline_config(outline),
        markup_config(markup_of(outline, terse_markup)) == yaml_config(
            yaml_of(outline, terse_yaml),
        ),
{
    lemma_markup_agrees(outline, terse_markup);
    lemma_yaml_agrees(outline, terse_yaml);
}

} // verus!
