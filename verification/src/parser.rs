//! The structured-markup front-end: from a document of nodes to the
//! configuration model.
//!
//! A configuration document holds `mode`, `hoist` and `scripts` nodes:
//!
//! ```text
//! mode "standalone"
//! hoist {
//!     directory "tools/bin"
//! }
//! scripts {
//!     script "build" {
//!         step "cargo build" cwd="core" {
//!             process-arg 1 transform="realpath"
//!         }
//!     }
//! }
//! ```
//!
//! The passthrough mode takes its options as child nodes of the `mode`
//! node:
//!
//! ```text
//! mode "passthrough" {
//!     cmd "cargo"
//!     cwd "core"
//!     prepend-args "run" "--"
//!     append-args "--quiet"
//! }
//! ```
//!
//! The nodes of a script are its steps, whatever their names. Everywhere
//! else a node, and any property, must carry a name that is known where
//! it stands. Values after the first one are not looked at, but for the
//! arguments of the passthrough mode. Of several `mode` nodes the first
//! one counts.

use crate::config::{
    ConfigView, HoistDeclaration, HoistView, ModeView, ProcessArgument, ProcessArgumentView,
    RootConfiguration, RootMode, ScriptCmd, ScriptCmdView, ScriptDeclaration, ScriptEntry,
};
use crate::error::ParseError;
use crate::markup::{markup_document, read_markup, Element, ElementView, Scalar, ScalarView};
use crate::model::{
    append_hoist, declare_all, declare_scripts, index_map, named, named_all, script_step,
    transform_views, IndexedTransform, NamedScript,
};
use crate::sequence::{
    first_index, lemma_first_index, lemma_first_index_is, lemma_first_index_none,
    lemma_try_map_err, lemma_try_map_ok, try_map,
};
use crate::text::text_eq;
use vstd::prelude::*;

verus! {

// ----------------------------------------------------------------------
// What a document declares
// ----------------------------------------------------------------------
/// The first value of a node, which must be a string.
pub open spec fn leading_text(node: ElementView) -> Result<Seq<char>, ParseError> {
    if node.values.len() == 0 {
        Err(ParseError::MissingValue)
    } else {
        match node.values[0] {
            ScalarView::Str(text) => Ok(text),
            _ => Err(ParseError::WrongType),
        }
    }
}

/// The node has no property.
pub open spec fn no_property(node: ElementView) -> bool {
    forall|k: Seq<char>| !node.properties.contains_key(k)
}

/// The node has no property but, at most, `key`.
pub open spec fn no_property_but(node: ElementView, key: Seq<char>) -> bool {
    forall|k: Seq<char>| node.properties.contains_key(k) ==> k == key
}

/// The node has neither properties nor child nodes.
pub open spec fn bare(node: ElementView) -> bool {
    no_property(node) && node.children.len() == 0
}

/// The names of the options of the passthrough mode.
pub open spec fn option_names() -> Seq<Seq<char>> {
    seq!["cmd"@, "cwd"@, "prepend-args"@, "append-args"@]
}

/// The node is an option of the passthrough mode: it carries the name of
/// one, and has neither properties nor child nodes.
pub open spec fn is_option(node: ElementView) -> bool {
    option_names().contains(node.name) && bare(node)
}

/// Every node is an option of the passthrough mode.
pub open spec fn all_options(options: Seq<ElementView>) -> bool {
    forall|i: int| 0 <= i < options.len() ==> is_option(#[trigger] options[i])
}

/// The nodes named `name`.
pub open spec fn named_node(name: Seq<char>) -> spec_fn(ElementView) -> bool {
    |node: ElementView| node.name == name
}

/// The option `name`: the first node of that name.
pub open spec fn option_of(options: Seq<ElementView>, name: Seq<char>) -> Option<ElementView> {
    match first_index(options, named_node(name)) {
        Some(i) => Some(options[i]),
        None => None,
    }
}

/// The string that a value is.
pub open spec fn word_of(value: ScalarView) -> Result<Seq<char>, ParseError> {
    match value {
        ScalarView::Str(text) => Ok(text),
        _ => Err(ParseError::WrongType),
    }
}

/// [`word_of`] as a function value.
pub open spec fn words() -> spec_fn(ScalarView) -> Result<Seq<char>, ParseError> {
    |value: ScalarView| word_of(value)
}

/// The string that the option `name` must give as its first value.
pub open spec fn required_option(options: Seq<ElementView>, name: Seq<char>) -> Result<
    Seq<char>,
    ParseError,
> {
    match option_of(options, name) {
        None => Err(ParseError::MissingValue),
        Some(node) => leading_text(node),
    }
}

/// The string that the option `name` gives as its first value, where
/// the option is there.
pub open spec fn optional_option(options: Seq<ElementView>, name: Seq<char>) -> Result<
    Option<Seq<char>>,
    ParseError,
> {
    match option_of(options, name) {
        None => Ok(None),
        Some(node) => match leading_text(node) {
            Ok(text) => Ok(Some(text)),
            Err(e) => Err(e),
        },
    }
}

/// The words that the option `name` gives: all its values, which must be
/// strings; none where the option is absent.
pub open spec fn option_words(options: Seq<ElementView>, name: Seq<char>) -> Result<
    Seq<Seq<char>>,
    ParseError,
> {
    match option_of(options, name) {
        None => Ok(Seq::empty()),
        Some(node) => try_map(node.values, words()),
    }
}

/// The passthrough mode that a `mode` node declares by its child nodes:
/// `cmd` with the command, `cwd` with its working directory, and
/// `prepend-args` and `append-args` with the fixed arguments as their
/// values. Of several options of one name the first one counts.
pub open spec fn passthrough_options(node: ElementView) -> Result<ModeView, ParseError> {
    if !no_property(node) || !all_options(node.children) {
        Err(ParseError::UnknownName)
    } else {
        match required_option(node.children, "cmd"@) {
            Err(e) => Err(e),
            Ok(cmd) => match optional_option(node.children, "cwd"@) {
                Err(e) => Err(e),
                Ok(cwd) => match option_words(node.children, "prepend-args"@) {
                    Err(e) => Err(e),
                    Ok(prepend_args) => match option_words(node.children, "append-args"@) {
                        Err(e) => Err(e),
                        Ok(append_args) => Ok(
                            ModeView::Passthrough { cmd, cwd, prepend_args, append_args },
                        ),
                    },
                },
            },
        }
    }
}

/// The run mode that a `mode` node declares. Its tag is its first value:
/// `standalone`, on a node without properties and child nodes, or
/// `passthrough`, on a node with the options as its child nodes.
pub open spec fn mode_of(node: ElementView) -> Result<ModeView, ParseError> {
    match leading_text(node) {
        Err(e) => Err(e),
        Ok(tag) => if tag == "standalone"@ {
            if !bare(node) {
                Err(ParseError::UnknownName)
            } else {
                Ok(ModeView::Standalone)
            }
        } else if tag == "passthrough"@ {
            passthrough_options(node)
        } else {
            Err(ParseError::UnknownMode)
        },
    }
}

/// The hoist declaration that a child of a `hoist` node makes: a node
/// named `directory` or `dir`, with the directory as its first value.
pub open spec fn directory_of(node: ElementView) -> Result<HoistView, ParseError> {
    if node.name != "directory"@ && node.name != "dir"@ {
        Err(ParseError::UnknownName)
    } else {
        match leading_text(node) {
            Err(e) => Err(e),
            Ok(directory) => if !bare(node) {
                Err(ParseError::UnknownName)
            } else {
                Ok(HoistView::Directory { directory })
            },
        }
    }
}

/// [`directory_of`] as a function value.
pub open spec fn directories() -> spec_fn(ElementView) -> Result<HoistView, ParseError> {
    |node: ElementView| directory_of(node)
}

/// The hoist declarations of a `hoist` node, in the order of its children.
pub open spec fn hoist_of(node: ElementView) -> Result<Seq<HoistView>, ParseError> {
    if !no_property(node) {
        Err(ParseError::UnknownName)
    } else {
        try_map(node.children, directories())
    }
}

/// The transform that a child of a step declares: a node named
/// `process-arg`, with the position of the argument as its first value
/// and the kind of the transform as its property `transform`.
pub open spec fn transform_of(node: ElementView) -> Result<IndexedTransform, ParseError> {
    if node.name != "process-arg"@ {
        Err(ParseError::UnknownName)
    } else if node.values.len() == 0 {
        Err(ParseError::MissingValue)
    } else {
        match node.values[0] {
            ScalarView::Int(position) => if !(0 <= position <= 65535) {
                Err(ParseError::IndexOutOfRange)
            } else if !no_property_but(node, "transform"@) {
                Err(ParseError::UnknownName)
            } else if !node.properties.contains_key("transform"@) {
                Err(ParseError::MissingValue)
            } else {
                match node.properties["transform"@] {
                    ScalarView::Str(kind) => if node.children.len() > 0 {
                        Err(ParseError::UnknownName)
                    } else {
                        Ok((position as u16, ProcessArgumentView::Transform { transform: kind }))
                    },
                    _ => Err(ParseError::WrongType),
                }
            },
            _ => Err(ParseError::WrongType),
        }
    }
}

/// [`transform_of`] as a function value.
pub open spec fn transforms() -> spec_fn(ElementView) -> Result<IndexedTransform, ParseError> {
    |node: ElementView| transform_of(node)
}

/// The working directory that a step declares by its property `cwd`.
pub open spec fn working_directory_of(node: ElementView) -> Result<Option<Seq<char>>, ParseError> {
    if !node.properties.contains_key("cwd"@) {
        Ok(None)
    } else {
        match node.properties["cwd"@] {
            ScalarView::Str(directory) => Ok(Some(directory)),
            _ => Err(ParseError::WrongType),
        }
    }
}

/// The step that a child of a `script` node declares: the command line as
/// its first value, the working directory as its property `cwd`, and the
/// transforms as its children.
pub open spec fn step_of(node: ElementView) -> Result<ScriptCmdView, ParseError> {
    match leading_text(node) {
        Err(e) => Err(e),
        Ok(cmd) => if !no_property_but(node, "cwd"@) {
            Err(ParseError::UnknownName)
        } else {
            match working_directory_of(node) {
                Err(e) => Err(e),
                Ok(cwd) => match try_map(node.children, transforms()) {
                    Err(e) => Err(e),
                    Ok(declared) => Ok(
                        ScriptCmdView { cmd, cwd, process_args: index_map(declared) },
                    ),
                },
            }
        },
    }
}

/// [`step_of`] as a function value.
pub open spec fn steps() -> spec_fn(ElementView) -> Result<ScriptCmdView, ParseError> {
    |node: ElementView| step_of(node)
}

/// The script that a child of a `scripts` node declares: a node named
/// `script`, with the script's name as its first value and the steps as
/// its children, of which there is at least one.
pub open spec fn script_of(node: ElementView) -> Result<NamedScript, ParseError> {
    if node.name != "script"@ {
        Err(ParseError::UnknownName)
    } else {
        match leading_text(node) {
            Err(e) => Err(e),
            Ok(name) => if !no_property(node) {
                Err(ParseError::UnknownName)
            } else {
                match try_map(node.children, steps()) {
                    Err(e) => Err(e),
                    Ok(script) => if script.len() == 0 {
                        Err(ParseError::EmptyScript)
                    } else {
                        Ok((name, script))
                    },
                }
            },
        }
    }
}

/// [`script_of`] as a function value.
pub open spec fn scripts() -> spec_fn(ElementView) -> Result<NamedScript, ParseError> {
    |node: ElementView| script_of(node)
}

/// The scripts of a `scripts` node, in the order of its children.
pub open spec fn scripts_of(node: ElementView) -> Result<Seq<NamedScript>, ParseError> {
    if !no_property(node) {
        Err(ParseError::UnknownName)
    } else {
        try_map(node.children, scripts())
    }
}

/// What one top-level node of a document declares.
pub ghost enum Section {
    Mode(ModeView),
    Hoist(Seq<HoistView>),
    Scripts(Seq<NamedScript>),
}

/// What a top-level node declares: the node is named `mode`, `hoist` or
/// `scripts`.
pub open spec fn section_of(node: ElementView) -> Result<Section, ParseError> {
    if node.name == "mode"@ {
        match mode_of(node) {
            Ok(mode) => Ok(Section::Mode(mode)),
            Err(e) => Err(e),
        }
    } else if node.name == "hoist"@ {
        match hoist_of(node) {
            Ok(hoist) => Ok(Section::Hoist(hoist)),
            Err(e) => Err(e),
        }
    } else if node.name == "scripts"@ {
        match scripts_of(node) {
            Ok(declared) => Ok(Section::Scripts(declared)),
            Err(e) => Err(e),
        }
    } else {
        Err(ParseError::UnknownName)
    }
}

/// [`section_of`] as a function value.
pub open spec fn sections() -> spec_fn(ElementView) -> Result<Section, ParseError> {
    |node: ElementView| section_of(node)
}

/// The sections that declare a mode.
pub open spec fn declares_mode() -> spec_fn(Section) -> bool {
    |section: Section| section is Mode
}

/// The mode of a document: that of its first `mode` node, and standalone
/// where it has none.
pub open spec fn declared_mode(declared: Seq<Section>) -> ModeView {
    match first_index(declared, declares_mode()) {
        Some(i) => declared[i]->Mode_0,
        None => ModeView::Standalone,
    }
}

/// The hoist declarations of a document: those of all its `hoist` nodes,
/// in the order of the document.
pub open spec fn declared_hoist(declared: Seq<Section>) -> Seq<HoistView>
    decreases declared.len(),
{
    if declared.len() == 0 {
        Seq::empty()
    } else {
        declared_hoist(declared.drop_last()) + match declared.last() {
            Section::Hoist(hoist) => hoist,
            _ => Seq::empty(),
        }
    }
}

/// The scripts of a document: those of all its `scripts` nodes, declared
/// in the order of the document.
pub open spec fn declared_scripts(declared: Seq<Section>) -> Map<Seq<char>, Seq<ScriptCmdView>>
    decreases declared.len(),
{
    if declared.len() == 0 {
        Map::empty()
    } else {
        declare_all(
            declared_scripts(declared.drop_last()),
            match declared.last() {
                Section::Scripts(more) => more,
                _ => Seq::empty(),
            },
        )
    }
}

/// The configuration that a document declares, or the reason for which it
/// is rejected: that of the first node, in the order of the document, that
/// is not accepted.
pub open spec fn markup_config(document: Seq<ElementView>) -> Result<ConfigView, ParseError> {
    match try_map(document, sections()) {
        Err(e) => Err(e),
        Ok(declared) => Ok(
            ConfigView {
                mode: declared_mode(declared),
                hoist: declared_hoist(declared),
                scripts: declared_scripts(declared),
            },
        ),
    }
}

/// `found` is the configuration, or the rejection, that `expected` states.
pub open spec fn configured(
    found: Result<RootConfiguration, ParseError>,
    expected: Result<ConfigView, ParseError>,
) -> bool {
    match found {
        Ok(config) => expected == Ok::<ConfigView, ParseError>(config@) && config.wf(),
        Err(e) => expected == Err::<ConfigView, ParseError>(e),
    }
}

// ----------------------------------------------------------------------
// Reading a document
// ----------------------------------------------------------------------
fn read_leading_text(node: &Element) -> (text: Result<String, ParseError>)
    ensures
        match text {
            Ok(t) => leading_text(node.deep_view()) == Ok::<Seq<char>, ParseError>(t@),
            Err(e) => leading_text(node.deep_view()) == Err::<Seq<char>, ParseError>(e),
        },
{
    match node.first_value() {
        None => Err(ParseError::MissingValue),
        Some(Scalar::Str(text)) => Ok(text.clone()),
        Some(_) => Err(ParseError::WrongType),
    }
}

fn is_bare(node: &Element) -> (yes: bool)
    ensures
        yes == bare(node.deep_view()),
{
    proof {
        node.lemma_children();
    }
    node.has_no_property() && node.children.len() == 0
}

fn is_option_name(name: &str) -> (yes: bool)
    ensures
        yes == option_names().contains(name@),
{
    proof {
        let names = option_names();
        assert(names[0] == "cmd"@ && names[1] == "cwd"@ && names[2] == "prepend-args"@ && names[3]
            == "append-args"@);
    }
    text_eq(name, "cmd") || text_eq(name, "cwd") || text_eq(name, "prepend-args") || text_eq(
        name,
        "append-args",
    )
}

#[verifier::loop_isolation(false)]
fn options_are_known(options: &Vec<Element>) -> (yes: bool)
    ensures
        yes == all_options(options.deep_view()),
{
    let ghost nodes = options.deep_view();
    let mut i: usize = 0;
    while i < options.len()
        invariant
            i <= options.len(),
            nodes == options.deep_view(),
            forall|j: int| 0 <= j < i ==> is_option(#[trigger] nodes[j]),
        decreases options.len() - i,
    {
        proof {
            options[i as int].lemma_children();
        }
        if !is_option_name(options[i].name.as_str()) || !is_bare(&options[i]) {
            assert(!is_option(nodes[i as int]));
            return false;
        }
        i += 1;
    }
    true
}

#[verifier::loop_isolation(false)]
fn find_option<'a>(options: &'a Vec<Element>, name: &str) -> (found: Option<&'a Element>)
    ensures
        found.deep_view() == option_of(options.deep_view(), name@),
{
    let ghost nodes = options.deep_view();
    let mut i: usize = 0;
    while i < options.len()
        invariant
            i <= options.len(),
            nodes == options.deep_view(),
            forall|j: int| 0 <= j < i ==> !named_node(name@)(#[trigger] nodes[j]),
        decreases options.len() - i,
    {
        proof {
            options[i as int].lemma_children();
        }
        if text_eq(options[i].name.as_str(), name) {
            proof {
                lemma_first_index_is(nodes, named_node(name@), i as int);
            }
            return Some(&options[i]);
        }
        i += 1;
    }
    proof {
        lemma_first_index_none(nodes, named_node(name@));
    }
    None
}

#[verifier::loop_isolation(false)]
fn read_words(node: &Element) -> (found: Result<Vec<String>, ParseError>)
    ensures
        match found {
            Ok(w) => try_map(node.deep_view().values, words()) == Ok::<
                Seq<Seq<char>>,
                ParseError,
            >(w.deep_view()),
            Err(e) => try_map(node.deep_view().values, words()) == Err::<
                Seq<Seq<char>>,
                ParseError,
            >(e),
        },
{
    proof {
        node.lemma_children();
    }
    let ghost values = node.deep_view().values;
    let mut found: Vec<String> = Vec::new();
    let mut i: usize = 0;
    while i < node.values.len()
        invariant
            i <= node.values.len(),
            values == node.values.deep_view(),
            found.len() == i,
            forall|j: int|
                0 <= j < i ==> words()(#[trigger] values[j]) == Ok::<Seq<char>, ParseError>(
                    found@[j]@,
                ),
        decreases node.values.len() - i,
    {
        match &node.values[i] {
            Scalar::Str(text) => {
                found.push(text.clone());
            },
            _ => {
                proof {
                    lemma_try_map_err(values, words(), i as int);
                }
                return Err(ParseError::WrongType);
            },
        }
        i += 1;
    }
    proof {
        lemma_try_map_ok(values, words(), found.deep_view());
    }
    Ok(found)
}

fn read_option_words(options: &Vec<Element>, name: &str) -> (found: Result<
    Vec<String>,
    ParseError,
>)
    ensures
        match found {
            Ok(w) => option_words(options.deep_view(), name@) == Ok::<
                Seq<Seq<char>>,
                ParseError,
            >(w.deep_view()),
            Err(e) => option_words(options.deep_view(), name@) == Err::<
                Seq<Seq<char>>,
                ParseError,
            >(e),
        },
{
    match find_option(options, name) {
        None => {
            let none: Vec<String> = Vec::new();
            assert(none.deep_view() =~= Seq::<Seq<char>>::empty());
            Ok(none)
        },
        Some(node) => read_words(node),
    }
}

fn read_passthrough(node: &Element) -> (mode: Result<RootMode, ParseError>)
    ensures
        match mode {
            Ok(m) => passthrough_options(node.deep_view()) == Ok::<ModeView, ParseError>(m@),
            Err(e) => passthrough_options(node.deep_view()) == Err::<ModeView, ParseError>(e),
        },
{
    proof {
        node.lemma_children();
    }
    if !node.has_no_property() || !options_are_known(&node.children) {
        return Err(ParseError::UnknownName);
    }
    let cmd = match find_option(&node.children, "cmd") {
        None => {
            return Err(ParseError::MissingValue);
        },
        Some(option) => read_leading_text(option)?,
    };
    let cwd = match find_option(&node.children, "cwd") {
        None => None,
        Some(option) => Some(read_leading_text(option)?),
    };
    let prepend_args = read_option_words(&node.children, "prepend-args")?;
    let append_args = read_option_words(&node.children, "append-args")?;
    Ok(RootMode::Passthrough { cmd, cwd, prepend_args, append_args })
}

fn read_mode(node: &Element) -> (mode: Result<RootMode, ParseError>)
    ensures
        match mode {
            Ok(m) => mode_of(node.deep_view()) == Ok::<ModeView, ParseError>(m@),
            Err(e) => mode_of(node.deep_view()) == Err::<ModeView, ParseError>(e),
        },
{
    let tag = read_leading_text(node)?;
    if text_eq(tag.as_str(), "standalone") {
        if !is_bare(node) {
            Err(ParseError::UnknownName)
        } else {
            Ok(RootMode::Standalone)
        }
    } else if text_eq(tag.as_str(), "passthrough") {
        read_passthrough(node)
    } else {
        Err(ParseError::UnknownMode)
    }
}

fn read_directory(node: &Element) -> (hoist: Result<HoistDeclaration, ParseError>)
    ensures
        match hoist {
            Ok(h) => directory_of(node.deep_view()) == Ok::<HoistView, ParseError>(h@),
            Err(e) => directory_of(node.deep_view()) == Err::<HoistView, ParseError>(e),
        },
{
    proof {
        node.lemma_children();
    }
    if !text_eq(node.name.as_str(), "directory") && !text_eq(node.name.as_str(), "dir") {
        return Err(ParseError::UnknownName);
    }
    let directory = read_leading_text(node)?;
    if !is_bare(node) {
        Err(ParseError::UnknownName)
    } else {
        Ok(HoistDeclaration::Directory { directory })
    }
}

#[verifier::loop_isolation(false)]
fn read_hoist(node: &Element) -> (hoist: Result<Vec<HoistDeclaration>, ParseError>)
    ensures
        match hoist {
            Ok(h) => hoist_of(node.deep_view()) == Ok::<Seq<HoistView>, ParseError>(
                h.deep_view(),
            ),
            Err(e) => hoist_of(node.deep_view()) == Err::<Seq<HoistView>, ParseError>(e),
        },
{
    proof {
        node.lemma_children();
    }
    if !node.has_no_property() {
        return Err(ParseError::UnknownName);
    }
    let ghost children = node.deep_view().children;
    let mut hoist: Vec<HoistDeclaration> = Vec::new();
    let mut i: usize = 0;
    while i < node.children.len()
        invariant
            i <= node.children.len(),
            children == node.children.deep_view(),
            hoist.len() == i,
            forall|j: int|
                0 <= j < i ==> directories()(#[trigger] children[j]) == Ok::<
                    HoistView,
                    ParseError,
                >(hoist@[j]@),
        decreases node.children.len() - i,
    {
        match read_directory(&node.children[i]) {
            Ok(declaration) => {
                hoist.push(declaration);
            },
            Err(e) => {
                proof {
                    lemma_try_map_err(children, directories(), i as int);
                }
                return Err(e);
            },
        }
        i += 1;
    }
    proof {
        lemma_try_map_ok(children, directories(), hoist.deep_view());
    }
    Ok(hoist)
}

fn read_transform(node: &Element) -> (declared: Result<(u16, ProcessArgument), ParseError>)
    ensures
        match declared {
            Ok(d) => transform_of(node.deep_view()) == Ok::<IndexedTransform, ParseError>(
                (d.0, d.1@),
            ),
            Err(e) => transform_of(node.deep_view()) == Err::<IndexedTransform, ParseError>(e),
        },
{
    proof {
        node.lemma_children();
    }
    if !text_eq(node.name.as_str(), "process-arg") {
        return Err(ParseError::UnknownName);
    }
    let position: i64 = match node.first_value() {
        None => {
            return Err(ParseError::MissingValue);
        },
        Some(Scalar::Int(position)) => *position,
        Some(_) => {
            return Err(ParseError::WrongType);
        },
    };
    if position < 0 || position > 65535 {
        return Err(ParseError::IndexOutOfRange);
    }
    if !node.has_no_property_but("transform") {
        return Err(ParseError::UnknownName);
    }
    let kind = match node.property("transform") {
        None => {
            return Err(ParseError::MissingValue);
        },
        Some(Scalar::Str(kind)) => kind.clone(),
        Some(_) => {
            return Err(ParseError::WrongType);
        },
    };
    if node.children.len() > 0 {
        return Err(ParseError::UnknownName);
    }
    Ok((position as u16, ProcessArgument::Transform { transform: kind }))
}

fn read_working_directory(node: &Element) -> (cwd: Result<Option<String>, ParseError>)
    ensures
        match cwd {
            Ok(c) => working_directory_of(node.deep_view()) == Ok::<
                Option<Seq<char>>,
                ParseError,
            >(c.deep_view()),
            Err(e) => working_directory_of(node.deep_view()) == Err::<
                Option<Seq<char>>,
                ParseError,
            >(e),
        },
{
    match node.property("cwd") {
        None => Ok(None),
        Some(Scalar::Str(directory)) => Ok(Some(directory.clone())),
        Some(_) => Err(ParseError::WrongType),
    }
}

#[verifier::loop_isolation(false)]
fn read_step(node: &Element) -> (step: Result<ScriptCmd, ParseError>)
    ensures
        match step {
            Ok(s) => step_of(node.deep_view()) == Ok::<ScriptCmdView, ParseError>(s@),
            Err(e) => step_of(node.deep_view()) == Err::<ScriptCmdView, ParseError>(e),
        },
{
    proof {
        node.lemma_children();
    }
    let cmd = read_leading_text(node)?;
    if !node.has_no_property_but("cwd") {
        return Err(ParseError::UnknownName);
    }
    let cwd = read_working_directory(node)?;
    let ghost children = node.deep_view().children;
    let mut declared: Vec<(u16, ProcessArgument)> = Vec::new();
    let mut i: usize = 0;
    while i < node.children.len()
        invariant
            i <= node.children.len(),
            children == node.children.deep_view(),
            declared.len() == i,
            forall|j: int|
                0 <= j < i ==> transforms()(#[trigger] children[j]) == Ok::<
                    IndexedTransform,
                    ParseError,
                >((declared@[j].0, declared@[j].1@)),
        decreases node.children.len() - i,
    {
        match read_transform(&node.children[i]) {
            Ok(transform) => {
                declared.push(transform);
            },
            Err(e) => {
                proof {
                    lemma_try_map_err(children, transforms(), i as int);
                }
                return Err(e);
            },
        }
        i += 1;
    }
    proof {
        lemma_try_map_ok(children, transforms(), transform_views(declared@));
    }
    Ok(script_step(cmd, cwd, &declared))
}

#[verifier::loop_isolation(false)]
fn read_script(node: &Element) -> (entry: Result<ScriptEntry, ParseError>)
    ensures
        match entry {
            Ok(s) => script_of(node.deep_view()) == Ok::<NamedScript, ParseError>(named(s))
                && s.script.wf(),
            Err(e) => script_of(node.deep_view()) == Err::<NamedScript, ParseError>(e),
        },
{
    proof {
        node.lemma_children();
    }
    if !text_eq(node.name.as_str(), "script") {
        return Err(ParseError::UnknownName);
    }
    let name = read_leading_text(node)?;
    if !node.has_no_property() {
        return Err(ParseError::UnknownName);
    }
    let ghost children = node.deep_view().children;
    let mut script: Vec<ScriptCmd> = Vec::new();
    let mut i: usize = 0;
    while i < node.children.len()
        invariant
            i <= node.children.len(),
            children == node.children.deep_view(),
            script.len() == i,
            forall|j: int|
                0 <= j < i ==> steps()(#[trigger] children[j]) == Ok::<ScriptCmdView, ParseError>(
                    script@[j]@,
                ),
        decreases node.children.len() - i,
    {
        match read_step(&node.children[i]) {
            Ok(step) => {
                script.push(step);
            },
            Err(e) => {
                proof {
                    lemma_try_map_err(children, steps(), i as int);
                }
                return Err(e);
            },
        }
        i += 1;
    }
    proof {
        lemma_try_map_ok(children, steps(), script.deep_view());
    }
    if script.len() == 0 {
        return Err(ParseError::EmptyScript);
    }
    Ok(ScriptEntry { name, script: ScriptDeclaration(script) })
}

#[verifier::loop_isolation(false)]
fn read_scripts(node: &Element) -> (entries: Result<Vec<ScriptEntry>, ParseError>)
    ensures
        match entries {
            Ok(s) => scripts_of(node.deep_view()) == Ok::<Seq<NamedScript>, ParseError>(
                named_all(s@),
            ) && forall|i: int| 0 <= i < s@.len() ==> (#[trigger] s@[i]).script.wf(),
            Err(e) => scripts_of(node.deep_view()) == Err::<Seq<NamedScript>, ParseError>(e),
        },
{
    proof {
        node.lemma_children();
    }
    if !node.has_no_property() {
        return Err(ParseError::UnknownName);
    }
    let ghost children = node.deep_view().children;
    let mut entries: Vec<ScriptEntry> = Vec::new();
    let mut i: usize = 0;
    while i < node.children.len()
        invariant
            i <= node.children.len(),
            children == node.children.deep_view(),
            entries.len() == i,
            forall|j: int|
                0 <= j < i ==> scripts()(#[trigger] children[j]) == Ok::<NamedScript, ParseError>(
                    named(entries@[j]),
                ),
            forall|j: int| 0 <= j < i ==> (#[trigger] entries@[j]).script.wf(),
        decreases node.children.len() - i,
    {
        match read_script(&node.children[i]) {
            Ok(entry) => {
                entries.push(entry);
            },
            Err(e) => {
                proof {
                    lemma_try_map_err(children, scripts(), i as int);
                }
                return Err(e);
            },
        }
        i += 1;
    }
    proof {
        lemma_try_map_ok(children, scripts(), named_all(entries@));
    }
    Ok(entries)
}

/// The configuration that a document declares.
///
/// The document is read node by node, in order. The first node that is
/// not accepted decides the rejection.
pub fn config_from_markup(document: &Vec<Element>) -> (found: Result<
    RootConfiguration,
    ParseError,
>)
    ensures
        configured(found, markup_config(document.deep_view())),
{
    let ghost nodes = document.deep_view();
    let ghost mut declared: Seq<Section> = Seq::empty();
    let mut config = RootConfiguration::default();
    let mut mode_declared = false;
    let mut i: usize = 0;
    while i < document.len()
        invariant
            i <= document.len(),
            nodes == document.deep_view(),
            declared.len() == i,
            forall|j: int|
                0 <= j < i ==> sections()(#[trigger] nodes[j]) == Ok::<Section, ParseError>(
                    declared[j],
                ),
            mode_declared == (first_index(declared, declares_mode()) is Some),
            config.mode@ == declared_mode(declared),
            config.hoist.deep_view() == declared_hoist(declared),
            config.scripts@ == declared_scripts(declared),
            config.scripts.wf(),
        decreases document.len() - i,
    {
        let node = &document[i];
        let ghost section: Section;
        if text_eq(node.name.as_str(), "mode") {
            match read_mode(node) {
                Ok(mode) => {
                    proof {
                        section = Section::Mode(mode@);
                    }
                    if !mode_declared {
                        config.mode = mode;
                        mode_declared = true;
                    }
                },
                Err(e) => {
                    proof {
                        lemma_try_map_err(nodes, sections(), i as int);
                    }
                    return Err(e);
                },
            }
        } else if text_eq(node.name.as_str(), "hoist") {
            match read_hoist(node) {
                Ok(hoist) => {
                    proof {
                        section = Section::Hoist(hoist.deep_view());
                    }
                    append_hoist(&mut config.hoist, hoist);
                },
                Err(e) => {
                    proof {
                        lemma_try_map_err(nodes, sections(), i as int);
                    }
                    return Err(e);
                },
            }
        } else if text_eq(node.name.as_str(), "scripts") {
            match read_scripts(node) {
                Ok(entries) => {
                    proof {
                        section = Section::Scripts(named_all(entries@));
                    }
                    declare_scripts(&mut config.scripts, entries);
                },
                Err(e) => {
                    proof {
                        lemma_try_map_err(nodes, sections(), i as int);
                    }
                    return Err(e);
                },
            }
        } else {
            proof {
                lemma_try_map_err(nodes, sections(), i as int);
            }
            return Err(ParseError::UnknownName);
        }
        proof {
            let next = declared.push(section);
            assert(next.drop_last() =~= declared);
            lemma_first_index(declared, declares_mode());
            if let Some(k) = first_index(declared, declares_mode()) {
                assert(next[k] == declared[k]);
            }
            assert(declared_hoist(declared) + Seq::<HoistView>::empty() =~= declared_hoist(
                declared,
            ));
            declared = declared.push(section);
        }
        i += 1;
    }
    proof {
        lemma_try_map_ok(nodes, sections(), declared);
    }
    Ok(config)
}

/// Reads the configuration that a text of the structured-markup format
/// declares.
pub fn parse_kdl_configuration(contents: &str) -> (found: Result<RootConfiguration, ParseError>)
    ensures
        match markup_document(contents@) {
            Some(document) => configured(found, markup_config(document)),
            None => found is Err && found->Err_0 == ParseError::Syntax,
        },
{
    match read_markup(contents) {
        Some(document) => config_from_markup(&document),
        None => Err(ParseError::Syntax),
    }
}

} // verus!
