//! The front-end of the conventional serialization format: from a value
//! of a document to the configuration model.
//!
//! A configuration is a mapping with the keys `mode`, `mode-opts`, `hoist`
//! and `scripts`:
//!
//! ```text
//! mode: passthrough
//! mode-opts:
//!   cmd: cargo
//!   prepend-args: [run, --]
//! hoist:
//!   - directory: tools/bin
//! scripts:
//!   build:
//!     - cmd: cargo build
//!       cwd: core
//!       process-args:
//!         1:
//!           transform: realpath
//! ```
//!
//! A key of a mapping with fixed keys must be one of them. Where a key
//! stands more than once in a mapping with fixed keys, its first entry
//! counts.

use crate::config::{
    ConfigView, HoistDeclaration, HoistView, ModeView, ProcessArgument, ProcessArgumentView,
    RootConfiguration, RootMode, ScriptCmd, ScriptCmdView, ScriptDeclaration, ScriptEntry,
    ScriptTable,
};
use crate::error::ParseError;
use crate::model::{
    declare_all, declare_scripts, index_map, named, named_all, script_step, transform_views,
    IndexedTransform, NamedScript,
};
use crate::parser::configured;
use crate::sequence::{
    first_index, is_first, lemma_first_index_is, lemma_first_index_none, lemma_try_map_err,
    lemma_try_map_ok, none_holds, try_map,
};
use crate::text::{text_eq, texts};
use crate::yaml::{
    lemma_list_view, lemma_map_view, read_yaml, yaml_document, YamlEntry, YamlValue, YamlView,
};
use vstd::prelude::*;

verus! {

/// An entry of a mapping: its key and its value.
pub type YamlPair = (YamlView, YamlView);

// ----------------------------------------------------------------------
// What a value declares
// ----------------------------------------------------------------------
/// The entries whose key is the string `key`.
pub open spec fn keyed(key: Seq<char>) -> spec_fn(YamlPair) -> bool {
    |entry: YamlPair| entry.0 == YamlView::Str(key)
}

/// The value that a mapping holds under the string `key`.
pub open spec fn entry_of(entries: Seq<YamlPair>, key: Seq<char>) -> Option<YamlView> {
    match first_index(entries, keyed(key)) {
        Some(i) => Some(entries[i].1),
        None => None,
    }
}

/// The key of the entry is a string, one of `known`.
pub open spec fn known_key(entry: YamlPair, known: Seq<Seq<char>>) -> bool {
    entry.0 matches YamlView::Str(key) && known.contains(key)
}

/// Every key of the mapping is a string, one of `known`.
pub open spec fn keys_among(entries: Seq<YamlPair>, known: Seq<Seq<char>>) -> bool {
    forall|i: int| 0 <= i < entries.len() ==> known_key(#[trigger] entries[i], known)
}

/// The string that a value is.
pub open spec fn text_of(value: YamlView) -> Result<Seq<char>, ParseError> {
    match value {
        YamlView::Str(text) => Ok(text),
        _ => Err(ParseError::WrongType),
    }
}

/// [`text_of`] as a function value.
pub open spec fn as_texts() -> spec_fn(YamlView) -> Result<Seq<char>, ParseError> {
    |value: YamlView| text_of(value)
}

/// The string that must stand under `key`.
pub open spec fn required_text(entries: Seq<YamlPair>, key: Seq<char>) -> Result<
    Seq<char>,
    ParseError,
> {
    match entry_of(entries, key) {
        None => Err(ParseError::MissingValue),
        Some(value) => text_of(value),
    }
}

/// The string that may stand under `key`. A null stands for none.
pub open spec fn optional_text(entries: Seq<YamlPair>, key: Seq<char>) -> Result<
    Option<Seq<char>>,
    ParseError,
> {
    match entry_of(entries, key) {
        None => Ok(None),
        Some(YamlView::Null) => Ok(None),
        Some(YamlView::Str(text)) => Ok(Some(text)),
        Some(_) => Err(ParseError::WrongType),
    }
}

/// The list of strings that may stand under `key`; the empty list where
/// the key is absent.
pub open spec fn text_list(entries: Seq<YamlPair>, key: Seq<char>) -> Result<
    Seq<Seq<char>>,
    ParseError,
> {
    match entry_of(entries, key) {
        None => Ok(Seq::empty()),
        Some(YamlView::List(items)) => try_map(items, as_texts()),
        Some(_) => Err(ParseError::WrongType),
    }
}

/// The keys of the options of the passthrough mode.
pub open spec fn passthrough_keys() -> Seq<Seq<char>> {
    seq!["cmd"@, "cwd"@, "prepend-args"@, "append-args"@]
}

/// The passthrough mode that the value under `mode-opts` declares.
pub open spec fn passthrough_of(options: Option<YamlView>) -> Result<ModeView, ParseError> {
    match options {
        None => Err(ParseError::MissingValue),
        Some(YamlView::Mapping(fields)) => if !keys_among(fields, passthrough_keys()) {
            Err(ParseError::UnknownName)
        } else {
            match required_text(fields, "cmd"@) {
                Err(e) => Err(e),
                Ok(cmd) => match optional_text(fields, "cwd"@) {
                    Err(e) => Err(e),
                    Ok(cwd) => match text_list(fields, "prepend-args"@) {
                        Err(e) => Err(e),
                        Ok(prepend_args) => match text_list(fields, "append-args"@) {
                            Err(e) => Err(e),
                            Ok(append_args) => Ok(
                                ModeView::Passthrough { cmd, cwd, prepend_args, append_args },
                            ),
                        },
                    },
                },
            }
        },
        Some(_) => Err(ParseError::WrongType),
    }
}

/// The run mode that a configuration declares by its keys `mode` and
/// `mode-opts`: standalone where `mode` is absent or reads `standalone`,
/// and what `mode-opts` declares where `mode` reads `passthrough`.
pub open spec fn yaml_mode(entries: Seq<YamlPair>) -> Result<ModeView, ParseError> {
    match entry_of(entries, "mode"@) {
        None => Ok(ModeView::Standalone),
        Some(YamlView::Str(tag)) => if tag == "standalone"@ {
            Ok(ModeView::Standalone)
        } else if tag == "passthrough"@ {
            passthrough_of(entry_of(entries, "mode-opts"@))
        } else {
            Err(ParseError::UnknownMode)
        },
        Some(_) => Err(ParseError::WrongType),
    }
}

/// The keys of a hoist declaration.
pub open spec fn directory_keys() -> Seq<Seq<char>> {
    seq!["directory"@, "dir"@]
}

/// The hoist declaration that an item of `hoist` makes: a mapping that
/// names the directory under `directory` or, where that key is absent,
/// under `dir`.
pub open spec fn yaml_directory(item: YamlView) -> Result<HoistView, ParseError> {
    match item {
        YamlView::Mapping(fields) => if !keys_among(fields, directory_keys()) {
            Err(ParseError::UnknownName)
        } else {
            let key = if entry_of(fields, "directory"@) is Some {
                "directory"@
            } else {
                "dir"@
            };
            match required_text(fields, key) {
                Err(e) => Err(e),
                Ok(directory) => Ok(HoistView::Directory { directory }),
            }
        },
        _ => Err(ParseError::WrongType),
    }
}

/// [`yaml_directory`] as a function value.
pub open spec fn yaml_directories() -> spec_fn(YamlView) -> Result<HoistView, ParseError> {
    |item: YamlView| yaml_directory(item)
}

/// The hoist declarations that the value under `hoist` makes, in order.
pub open spec fn yaml_hoist(found: Option<YamlView>) -> Result<Seq<HoistView>, ParseError> {
    match found {
        None => Ok(Seq::empty()),
        Some(YamlView::List(items)) => try_map(items, yaml_directories()),
        Some(_) => Err(ParseError::WrongType),
    }
}

/// The keys of a declared transform.
pub open spec fn transform_keys() -> Seq<Seq<char>> {
    seq!["transform"@]
}

/// The transform that an entry of `process-args` declares: the position
/// of the argument as its key, and a mapping with the kind of the
/// transform under `transform` as its value.
pub open spec fn yaml_transform(entry: YamlPair) -> Result<IndexedTransform, ParseError> {
    match entry.0 {
        YamlView::Int(position) => if !(0 <= position <= 65535) {
            Err(ParseError::IndexOutOfRange)
        } else {
            match entry.1 {
                YamlView::Mapping(fields) => if !keys_among(fields, transform_keys()) {
                    Err(ParseError::UnknownName)
                } else {
                    match required_text(fields, "transform"@) {
                        Err(e) => Err(e),
                        Ok(kind) => Ok(
                            (position as u16, ProcessArgumentView::Transform { transform: kind }),
                        ),
                    }
                },
                _ => Err(ParseError::WrongType),
            }
        },
        _ => Err(ParseError::WrongType),
    }
}

/// [`yaml_transform`] as a function value.
pub open spec fn yaml_transforms() -> spec_fn(YamlPair) -> Result<IndexedTransform, ParseError> {
    |entry: YamlPair| yaml_transform(entry)
}

/// The transforms that the value under `process-args` declares, in order.
pub open spec fn yaml_process_args(found: Option<YamlView>) -> Result<
    Seq<IndexedTransform>,
    ParseError,
> {
    match found {
        None => Ok(Seq::empty()),
        Some(YamlView::Mapping(entries)) => try_map(entries, yaml_transforms()),
        Some(_) => Err(ParseError::WrongType),
    }
}

/// The keys of a step.
pub open spec fn step_keys() -> Seq<Seq<char>> {
    seq!["cmd"@, "cwd"@, "process-args"@]
}

/// The step that an item of a script declares.
pub open spec fn yaml_step(item: YamlView) -> Result<ScriptCmdView, ParseError> {
    match item {
        YamlView::Mapping(fields) => if !keys_among(fields, step_keys()) {
            Err(ParseError::UnknownName)
        } else {
            match required_text(fields, "cmd"@) {
                Err(e) => Err(e),
                Ok(cmd) => match optional_text(fields, "cwd"@) {
                    Err(e) => Err(e),
                    Ok(cwd) => match yaml_process_args(entry_of(fields, "process-args"@)) {
                        Err(e) => Err(e),
                        Ok(declared) => Ok(
                            ScriptCmdView { cmd, cwd, process_args: index_map(declared) },
                        ),
                    },
                },
            }
        },
        _ => Err(ParseError::WrongType),
    }
}

/// [`yaml_step`] as a function value.
pub open spec fn yaml_steps() -> spec_fn(YamlView) -> Result<ScriptCmdView, ParseError> {
    |item: YamlView| yaml_step(item)
}

/// The script that an entry of `scripts` declares: its name as the key,
/// and the list of its steps, of which there is at least one, as the value.
pub open spec fn yaml_script(entry: YamlPair) -> Result<NamedScript, ParseError> {
    match entry.0 {
        YamlView::Str(name) => match entry.1 {
            YamlView::List(items) => match try_map(items, yaml_steps()) {
                Err(e) => Err(e),
                Ok(script) => if script.len() == 0 {
                    Err(ParseError::EmptyScript)
                } else {
                    Ok((name, script))
                },
            },
            _ => Err(ParseError::WrongType),
        },
        _ => Err(ParseError::WrongType),
    }
}

/// [`yaml_script`] as a function value.
pub open spec fn yaml_script_entries() -> spec_fn(YamlPair) -> Result<NamedScript, ParseError> {
    |entry: YamlPair| yaml_script(entry)
}

/// The scripts that the value under `scripts` declares, in order.
pub open spec fn yaml_scripts(found: Option<YamlView>) -> Result<Seq<NamedScript>, ParseError> {
    match found {
        None => Ok(Seq::empty()),
        Some(YamlView::Mapping(entries)) => try_map(entries, yaml_script_entries()),
        Some(_) => Err(ParseError::WrongType),
    }
}

/// The keys of a configuration.
pub open spec fn root_keys() -> Seq<Seq<char>> {
    seq!["mode"@, "mode-opts"@, "hoist"@, "scripts"@]
}

/// The configuration that a value declares, or the reason for which it is
/// rejected. The keys are checked first, then the mode, the hoist
/// declarations and the scripts, each part in the order of the document.
pub open spec fn yaml_config(value: YamlView) -> Result<ConfigView, ParseError> {
    match value {
        YamlView::Mapping(entries) => if !keys_among(entries, root_keys()) {
            Err(ParseError::UnknownName)
        } else {
            match yaml_mode(entries) {
                Err(e) => Err(e),
                Ok(mode) => match yaml_hoist(entry_of(entries, "hoist"@)) {
                    Err(e) => Err(e),
                    Ok(hoist) => match yaml_scripts(entry_of(entries, "scripts"@)) {
                        Err(e) => Err(e),
                        Ok(declared) => Ok(
                            ConfigView {
                                mode,
                                hoist,
                                scripts: declare_all(Map::empty(), declared),
                            },
                        ),
                    },
                },
            }
        },
        _ => Err(ParseError::WrongType),
    }
}

// ----------------------------------------------------------------------
// Reading a value
// ----------------------------------------------------------------------
/// The texts of a list of names.
pub open spec fn name_texts(names: Seq<&str>) -> Seq<Seq<char>> {
    names.map_values(|name: &str| name@)
}

fn lookup<'a>(entries: &'a Vec<YamlEntry>, key: &str) -> (found: Option<&'a YamlValue>)
    ensures
        found.deep_view() == entry_of(entries.deep_view(), key@),
{
    let ghost pairs = entries.deep_view();
    let mut i: usize = 0;
    while i < entries.len()
        invariant
            i <= entries.len(),
            pairs == entries.deep_view(),
            forall|j: int| 0 <= j < i ==> !keyed(key@)(#[trigger] pairs[j]),
        decreases entries.len() - i,
    {
        let hit = match &entries[i].key {
            YamlValue::Str(name) => text_eq(name.as_str(), key),
            _ => false,
        };
        if hit {
            proof {
                assert(is_first(pairs, keyed(key@), i as int));
                lemma_first_index_is(pairs, keyed(key@), i as int);
            }
            return Some(&entries[i].value);
        }
        i += 1;
    }
    proof {
        assert(none_holds(pairs, keyed(key@)));
        lemma_first_index_none(pairs, keyed(key@));
    }
    None
}

#[verifier::loop_isolation(false)]
fn is_known(key: &YamlValue, known: &Vec<&str>) -> (yes: bool)
    ensures
        yes == (key.deep_view() matches YamlView::Str(name) && name_texts(known@).contains(name)),
{
    match key {
        YamlValue::Str(name) => {
            let ghost names = name_texts(known@);
            let mut j: usize = 0;
            while j < known.len()
                invariant
                    j <= known.len(),
                    names == name_texts(known@),
                    forall|k: int| 0 <= k < j ==> names[k] != name@,
                decreases known.len() - j,
            {
                if text_eq(name.as_str(), known[j]) {
                    assert(names[j as int] == name@);
                    return true;
                }
                j += 1;
            }
            false
        },
        _ => false,
    }
}

fn keys_are_among(entries: &Vec<YamlEntry>, known: &Vec<&str>) -> (yes: bool)
    ensures
        yes == keys_among(entries.deep_view(), name_texts(known@)),
{
    let ghost pairs = entries.deep_view();
    let mut i: usize = 0;
    while i < entries.len()
        invariant
            i <= entries.len(),
            pairs == entries.deep_view(),
            forall|j: int| 0 <= j < i ==> known_key(#[trigger] pairs[j], name_texts(known@)),
        decreases entries.len() - i,
    {
        if !is_known(&entries[i].key, known) {
            assert(!known_key(pairs[i as int], name_texts(known@)));
            return false;
        }
        i += 1;
    }
    true
}

fn read_text(value: &YamlValue) -> (text: Result<String, ParseError>)
    ensures
        match text {
            Ok(t) => text_of(value.deep_view()) == Ok::<Seq<char>, ParseError>(t@),
            Err(e) => text_of(value.deep_view()) == Err::<Seq<char>, ParseError>(e),
        },
{
    match value {
        YamlValue::Str(text) => Ok(text.clone()),
        _ => Err(ParseError::WrongType),
    }
}

fn read_required_text(entries: &Vec<YamlEntry>, key: &str) -> (text: Result<String, ParseError>)
    ensures
        match text {
            Ok(t) => required_text(entries.deep_view(), key@) == Ok::<Seq<char>, ParseError>(t@),
            Err(e) => required_text(entries.deep_view(), key@) == Err::<Seq<char>, ParseError>(e),
        },
{
    match lookup(entries, key) {
        None => Err(ParseError::MissingValue),
        Some(value) => read_text(value),
    }
}

fn read_optional_text(entries: &Vec<YamlEntry>, key: &str) -> (text: Result<
    Option<String>,
    ParseError,
>)
    ensures
        match text {
            Ok(t) => optional_text(entries.deep_view(), key@) == Ok::<
                Option<Seq<char>>,
                ParseError,
            >(t.deep_view()),
            Err(e) => optional_text(entries.deep_view(), key@) == Err::<
                Option<Seq<char>>,
                ParseError,
            >(e),
        },
{
    match lookup(entries, key) {
        None => Ok(None),
        Some(YamlValue::Null) => Ok(None),
        Some(YamlValue::Str(text)) => Ok(Some(text.clone())),
        Some(_) => Err(ParseError::WrongType),
    }
}

#[verifier::loop_isolation(false)]
fn read_text_list(entries: &Vec<YamlEntry>, key: &str) -> (list: Result<Vec<String>, ParseError>)
    ensures
        match list {
            Ok(l) => text_list(entries.deep_view(), key@) == Ok::<Seq<Seq<char>>, ParseError>(
                l.deep_view(),
            ),
            Err(e) => text_list(entries.deep_view(), key@) == Err::<Seq<Seq<char>>, ParseError>(e),
        },
{
    match lookup(entries, key) {
        None => {
            let list: Vec<String> = Vec::new();
            assert(list.deep_view() =~= Seq::<Seq<char>>::empty());
            Ok(list)
        },
        Some(YamlValue::List(items)) => {
            proof {
                lemma_list_view(*items);
            }
            let ghost views = items.deep_view();
            let mut list: Vec<String> = Vec::new();
            let mut i: usize = 0;
            while i < items.len()
                invariant
                    i <= items.len(),
                    views == items.deep_view(),
                    list.len() == i,
                    forall|j: int|
                        0 <= j < i ==> as_texts()(#[trigger] views[j]) == Ok::<
                            Seq<char>,
                            ParseError,
                        >(list@[j]@),
                decreases items.len() - i,
            {
                match read_text(&items[i]) {
                    Ok(text) => {
                        list.push(text);
                    },
                    Err(e) => {
                        proof {
                            lemma_try_map_err(views, as_texts(), i as int);
                        }
                        return Err(e);
                    },
                }
                i += 1;
            }
            proof {
                lemma_try_map_ok(views, as_texts(), list.deep_view());
            }
            Ok(list)
        },
        Some(_) => Err(ParseError::WrongType),
    }
}

fn read_passthrough(options: Option<&YamlValue>) -> (mode: Result<RootMode, ParseError>)
    ensures
        match mode {
            Ok(m) => passthrough_of(options.deep_view()) == Ok::<ModeView, ParseError>(m@),
            Err(e) => passthrough_of(options.deep_view()) == Err::<ModeView, ParseError>(e),
        },
{
    match options {
        None => Err(ParseError::MissingValue),
        Some(YamlValue::Mapping(fields)) => {
            proof {
                lemma_map_view(*fields);
            }
            let known: Vec<&str> = vec!["cmd", "cwd", "prepend-args", "append-args"];
            assert(name_texts(known@) =~= passthrough_keys());
            if !keys_are_among(fields, &known) {
                return Err(ParseError::UnknownName);
            }
            let cmd = read_required_text(fields, "cmd")?;
            let cwd = read_optional_text(fields, "cwd")?;
            let prepend_args = read_text_list(fields, "prepend-args")?;
            let append_args = read_text_list(fields, "append-args")?;
            Ok(RootMode::Passthrough { cmd, cwd, prepend_args, append_args })
        },
        Some(_) => Err(ParseError::WrongType),
    }
}

fn read_yaml_mode(entries: &Vec<YamlEntry>) -> (mode: Result<RootMode, ParseError>)
    ensures
        match mode {
            Ok(m) => yaml_mode(entries.deep_view()) == Ok::<ModeView, ParseError>(m@),
            Err(e) => yaml_mode(entries.deep_view()) == Err::<ModeView, ParseError>(e),
        },
{
    match lookup(entries, "mode") {
        None => Ok(RootMode::Standalone),
        Some(YamlValue::Str(tag)) => {
            if text_eq(tag.as_str(), "standalone") {
                Ok(RootMode::Standalone)
            } else if text_eq(tag.as_str(), "passthrough") {
                read_passthrough(lookup(entries, "mode-opts"))
            } else {
                Err(ParseError::UnknownMode)
            }
        },
        Some(_) => Err(ParseError::WrongType),
    }
}

fn read_yaml_directory(item: &YamlValue) -> (hoist: Result<HoistDeclaration, ParseError>)
    ensures
        match hoist {
            Ok(h) => yaml_directory(item.deep_view()) == Ok::<HoistView, ParseError>(h@),
            Err(e) => yaml_directory(item.deep_view()) == Err::<HoistView, ParseError>(e),
        },
{
    match item {
        YamlValue::Mapping(fields) => {
            proof {
                lemma_map_view(*fields);
            }
            let known: Vec<&str> = vec!["directory", "dir"];
            assert(name_texts(known@) =~= directory_keys());
            if !keys_are_among(fields, &known) {
                return Err(ParseError::UnknownName);
            }
            let directory = if lookup(fields, "directory").is_some() {
                read_required_text(fields, "directory")?
            } else {
                read_required_text(fields, "dir")?
            };
            Ok(HoistDeclaration::Directory { directory })
        },
        _ => Err(ParseError::WrongType),
    }
}

#[verifier::loop_isolation(false)]
fn read_yaml_hoist(found: Option<&YamlValue>) -> (hoist: Result<Vec<HoistDeclaration>, ParseError>)
    ensures
        match hoist {
            Ok(h) => yaml_hoist(found.deep_view()) == Ok::<Seq<HoistView>, ParseError>(
                h.deep_view(),
            ),
            Err(e) => yaml_hoist(found.deep_view()) == Err::<Seq<HoistView>, ParseError>(e),
        },
{
    match found {
        None => {
            let hoist: Vec<HoistDeclaration> = Vec::new();
            assert(hoist.deep_view() =~= Seq::<HoistView>::empty());
            Ok(hoist)
        },
        Some(YamlValue::List(items)) => {
            proof {
                lemma_list_view(*items);
            }
            let ghost views = items.deep_view();
            let mut hoist: Vec<HoistDeclaration> = Vec::new();
            let mut i: usize = 0;
            while i < items.len()
                invariant
                    i <= items.len(),
                    views == items.deep_view(),
                    hoist.len() == i,
                    forall|j: int|
                        0 <= j < i ==> yaml_directories()(#[trigger] views[j]) == Ok::<
                            HoistView,
                            ParseError,
                        >(hoist@[j]@),
                decreases items.len() - i,
            {
                match read_yaml_directory(&items[i]) {
                    Ok(declaration) => {
                        hoist.push(declaration);
                    },
                    Err(e) => {
                        proof {
                            lemma_try_map_err(views, yaml_directories(), i as int);
                        }
                        return Err(e);
                    },
                }
                i += 1;
            }
            proof {
                lemma_try_map_ok(views, yaml_directories(), hoist.deep_view());
            }
            Ok(hoist)
        },
        Some(_) => Err(ParseError::WrongType),
    }
}

fn read_yaml_transform(entry: &YamlEntry) -> (declared: Result<(u16, ProcessArgument), ParseError>)
    ensures
        match declared {
            Ok(d) => yaml_transform(entry.deep_view()) == Ok::<IndexedTransform, ParseError>(
                (d.0, d.1@),
            ),
            Err(e) => yaml_transform(entry.deep_view()) == Err::<IndexedTransform, ParseError>(e),
        },
{
    let position: i64 = match &entry.key {
        YamlValue::Int(position) => *position,
        _ => {
            return Err(ParseError::WrongType);
        },
    };
    if position < 0 || position > 65535 {
        return Err(ParseError::IndexOutOfRange);
    }
    match &entry.value {
        YamlValue::Mapping(fields) => {
            proof {
                lemma_map_view(*fields);
            }
            let known: Vec<&str> = vec!["transform"];
            assert(name_texts(known@) =~= transform_keys());
            if !keys_are_among(fields, &known) {
                return Err(ParseError::UnknownName);
            }
            let kind = read_required_text(fields, "transform")?;
            Ok((position as u16, ProcessArgument::Transform { transform: kind }))
        },
        _ => Err(ParseError::WrongType),
    }
}

#[verifier::loop_isolation(false)]
fn read_yaml_process_args(found: Option<&YamlValue>) -> (declared: Result<
    Vec<(u16, ProcessArgument)>,
    ParseError,
>)
    ensures
        match declared {
            Ok(d) => yaml_process_args(found.deep_view()) == Ok::<
                Seq<IndexedTransform>,
                ParseError,
            >(transform_views(d@)),
            Err(e) => yaml_process_args(found.deep_view()) == Err::<
                Seq<IndexedTransform>,
                ParseError,
            >(e),
        },
{
    match found {
        None => {
            let declared: Vec<(u16, ProcessArgument)> = Vec::new();
            assert(transform_views(declared@) =~= Seq::<IndexedTransform>::empty());
            Ok(declared)
        },
        Some(YamlValue::Mapping(entries)) => {
            proof {
                lemma_map_view(*entries);
            }
            let ghost pairs = entries.deep_view();
            let mut declared: Vec<(u16, ProcessArgument)> = Vec::new();
            let mut i: usize = 0;
            while i < entries.len()
                invariant
                    i <= entries.len(),
                    pairs == entries.deep_view(),
                    declared.len() == i,
                    forall|j: int|
                        0 <= j < i ==> yaml_transforms()(#[trigger] pairs[j]) == Ok::<
                            IndexedTransform,
                            ParseError,
                        >((declared@[j].0, declared@[j].1@)),
                decreases entries.len() - i,
            {
                match read_yaml_transform(&entries[i]) {
                    Ok(transform) => {
                        declared.push(transform);
                    },
                    Err(e) => {
                        proof {
                            lemma_try_map_err(pairs, yaml_transforms(), i as int);
                        }
                        return Err(e);
                    },
                }
                i += 1;
            }
            proof {
                lemma_try_map_ok(pairs, yaml_transforms(), transform_views(declared@));
            }
            Ok(declared)
        },
        Some(_) => Err(ParseError::WrongType),
    }
}

fn read_yaml_step(item: &YamlValue) -> (step: Result<ScriptCmd, ParseError>)
    ensures
        match step {
            Ok(s) => yaml_step(item.deep_view()) == Ok::<ScriptCmdView, ParseError>(s@),
            Err(e) => yaml_step(item.deep_view()) == Err::<ScriptCmdView, ParseError>(e),
        },
{
    match item {
        YamlValue::Mapping(fields) => {
            proof {
                lemma_map_view(*fields);
            }
            let known: Vec<&str> = vec!["cmd", "cwd", "process-args"];
            assert(name_texts(known@) =~= step_keys());
            if !keys_are_among(fields, &known) {
                return Err(ParseError::UnknownName);
            }
            let cmd = read_required_text(fields, "cmd")?;
            let cwd = read_optional_text(fields, "cwd")?;
            let declared = read_yaml_process_args(lookup(fields, "process-args"))?;
            Ok(script_step(cmd, cwd, &declared))
        },
        _ => Err(ParseError::WrongType),
    }
}

#[verifier::loop_isolation(false)]
fn read_yaml_script(entry: &YamlEntry) -> (declared: Result<ScriptEntry, ParseError>)
    ensures
        match declared {
            Ok(s) => yaml_script(entry.deep_view()) == Ok::<NamedScript, ParseError>(named(s))
                && s.script.wf(),
            Err(e) => yaml_script(entry.deep_view()) == Err::<NamedScript, ParseError>(e),
        },
{
    let name = match &entry.key {
        YamlValue::Str(name) => name.clone(),
        _ => {
            return Err(ParseError::WrongType);
        },
    };
    match &entry.value {
        YamlValue::List(items) => {
            proof {
                lemma_list_view(*items);
            }
            let ghost views = items.deep_view();
            let mut script: Vec<ScriptCmd> = Vec::new();
            let mut i: usize = 0;
            while i < items.len()
                invariant
                    i <= items.len(),
                    views == items.deep_view(),
                    script.len() == i,
                    forall|j: int|
                        0 <= j < i ==> yaml_steps()(#[trigger] views[j]) == Ok::<
                            ScriptCmdView,
                            ParseError,
                        >(script@[j]@),
                decreases items.len() - i,
            {
                match read_yaml_step(&items[i]) {
                    Ok(step) => {
                        script.push(step);
                    },
                    Err(e) => {
                        proof {
                            lemma_try_map_err(views, yaml_steps(), i as int);
                        }
                        return Err(e);
                    },
                }
                i += 1;
            }
            proof {
                lemma_try_map_ok(views, yaml_steps(), script.deep_view());
            }
            if script.len() == 0 {
                return Err(ParseError::EmptyScript);
            }
            Ok(ScriptEntry { name, script: ScriptDeclaration(script) })
        },
        _ => Err(ParseError::WrongType),
    }
}

#[verifier::loop_isolation(false)]
fn read_yaml_scripts(found: Option<&YamlValue>) -> (declared: Result<Vec<ScriptEntry>, ParseError>)
    ensures
        match declared {
            Ok(s) => yaml_scripts(found.deep_view()) == Ok::<Seq<NamedScript>, ParseError>(
                named_all(s@),
            ) && forall|i: int| 0 <= i < s@.len() ==> (#[trigger] s@[i]).script.wf(),
            Err(e) => yaml_scripts(found.deep_view()) == Err::<Seq<NamedScript>, ParseError>(e),
        },
{
    match found {
        None => {
            let declared: Vec<ScriptEntry> = Vec::new();
            assert(named_all(declared@) =~= Seq::<NamedScript>::empty());
            Ok(declared)
        },
        Some(YamlValue::Mapping(entries)) => {
            proof {
                lemma_map_view(*entries);
            }
            let ghost pairs = entries.deep_view();
            let mut declared: Vec<ScriptEntry> = Vec::new();
            let mut i: usize = 0;
            while i < entries.len()
                invariant
                    i <= entries.len(),
                    pairs == entries.deep_view(),
                    declared.len() == i,
                    forall|j: int|
                        0 <= j < i ==> yaml_script_entries()(#[trigger] pairs[j]) == Ok::<
                            NamedScript,
                            ParseError,
                        >(named(declared@[j])),
                    forall|j: int| 0 <= j < i ==> (#[trigger] declared@[j]).script.wf(),
                decreases entries.len() - i,
            {
                match read_yaml_script(&entries[i]) {
                    Ok(entry) => {
                        declared.push(entry);
                    },
                    Err(e) => {
                        proof {
                            lemma_try_map_err(pairs, yaml_script_entries(), i as int);
                        }
                        return Err(e);
                    },
                }
                i += 1;
            }
            proof {
                lemma_try_map_ok(pairs, yaml_script_entries(), named_all(declared@));
            }
            Ok(declared)
        },
        Some(_) => Err(ParseError::WrongType),
    }
}

/// The configuration that a value declares.
pub fn config_from_yaml(value: &YamlValue) -> (found: Result<RootConfiguration, ParseError>)
    ensures
        configured(found, yaml_config(value.deep_view())),
{
    match value {
        YamlValue::Mapping(entries) => {
            proof {
                lemma_map_view(*entries);
            }
            let known: Vec<&str> = vec!["mode", "mode-opts", "hoist", "scripts"];
            assert(name_texts(known@) =~= root_keys());
            if !keys_are_among(entries, &known) {
                return Err(ParseError::UnknownName);
            }
            let mode = read_yaml_mode(entries)?;
            let hoist = read_yaml_hoist(lookup(entries, "hoist"))?;
            let declared = read_yaml_scripts(lookup(entries, "scripts"))?;
            let mut scripts = ScriptTable::new();
            declare_scripts(&mut scripts, declared);
            Ok(RootConfiguration { mode, hoist, scripts })
        },
        _ => Err(ParseError::WrongType),
    }
}

/// Reads the configuration that a text of the conventional serialization
/// format declares.
pub fn parse_yaml_configuration(contents: &str) -> (found: Result<RootConfiguration, ParseError>)
    ensures
        match yaml_document(contents@) {
            Some(value) => configured(found, yaml_config(value)),
            None => found is Err && found->Err_0 == ParseError::Syntax,
        },
{
    match read_yaml(contents) {
        Some(value) => config_from_yaml(&value),
        None => Err(ParseError::Syntax),
    }
}

} // verus!
