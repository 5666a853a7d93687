//! The configuration model: run mode, hoist search paths and named scripts.
//!
//! Every type has a mathematical model (`deep_view`, also written `@`), and
//! the contracts of the rest of the library are stated over those models.

use crate::text::{ascending, text_eq, text_lt, text_order, texts, TextOrder};
use std::collections::BTreeMap;
use vstd::prelude::*;

verus! {

/// A rewrite applied to one runtime argument of a script step.
#[derive(Clone, Debug, PartialEq, Eq)]
pub enum ProcessArgument {
    /// Replace the argument by the result of the named transform.
    Transform { transform: String },
}

/// Model of a [`ProcessArgument`].
pub ghost enum ProcessArgumentView {
    Transform { transform: Seq<char> },
}

impl DeepView for ProcessArgument {
    type V = ProcessArgumentView;

    open spec fn deep_view(&self) -> ProcessArgumentView {
        match *self {
            ProcessArgument::Transform { transform } => ProcessArgumentView::Transform {
                transform: transform@,
            },
        }
    }
}

impl View for ProcessArgument {
    type V = ProcessArgumentView;

    open spec fn view(&self) -> ProcessArgumentView {
        self.deep_view()
    }
}

/// One step of a script: a shell command line, an optional working
/// directory, and the transforms of its runtime arguments keyed by their
/// 1-based position.
#[derive(Clone, Debug, PartialEq, Eq)]
pub struct ScriptCmd {
    pub cmd: String,
    pub cwd: Option<String>,
    pub process_args: BTreeMap<u16, ProcessArgument>,
}

/// Model of a [`ScriptCmd`].
pub ghost struct ScriptCmdView {
    pub cmd: Seq<char>,
    pub cwd: Option<Seq<char>>,
    pub process_args: Map<u16, ProcessArgumentView>,
}

impl DeepView for ScriptCmd {
    type V = ScriptCmdView;

    open spec fn deep_view(&self) -> ScriptCmdView {
        ScriptCmdView {
            cmd: self.cmd@,
            cwd: self.cwd.deep_view(),
            process_args: Map::new(
                |k: u16| self.process_args@.contains_key(k),
                |k: u16| self.process_args@[k]@,
            ),
        }
    }
}

impl View for ScriptCmd {
    type V = ScriptCmdView;

    open spec fn view(&self) -> ScriptCmdView {
        self.deep_view()
    }
}

/// A script: its steps, run strictly in order.
#[derive(Clone, Debug, PartialEq, Eq)]
pub struct ScriptDeclaration(pub Vec<ScriptCmd>);

impl DeepView for ScriptDeclaration {
    type V = Seq<ScriptCmdView>;

    open spec fn deep_view(&self) -> Seq<ScriptCmdView> {
        self.0.deep_view()
    }
}

impl View for ScriptDeclaration {
    type V = Seq<ScriptCmdView>;

    open spec fn view(&self) -> Seq<ScriptCmdView> {
        self.deep_view()
    }
}

impl ScriptDeclaration {
    /// A script has at least one step.
    pub open spec fn wf(&self) -> bool {
        self.0@.len() > 0
    }
}

/// A place searched for hoisted executables.
#[derive(Clone, Debug, PartialEq, Eq)]
pub enum HoistDeclaration {
    /// A directory whose direct entries are searched.
    Directory { directory: String },
}

/// Model of a [`HoistDeclaration`].
pub ghost enum HoistView {
    Directory { directory: Seq<char> },
}

impl DeepView for HoistDeclaration {
    type V = HoistView;

    open spec fn deep_view(&self) -> HoistView {
        match *self {
            HoistDeclaration::Directory { directory } => HoistView::Directory {
                directory: directory@,
            },
        }
    }
}

impl View for HoistDeclaration {
    type V = HoistView;

    open spec fn view(&self) -> HoistView {
        self.deep_view()
    }
}

/// How the runner treats its arguments.
#[derive(Clone, Debug, PartialEq, Eq)]
pub enum RootMode {
    /// Arguments name a script (or a hoisted binary) to run.
    Standalone,
    /// All arguments are forwarded to one fixed command, between two fixed
    /// argument lists.
    Passthrough {
        cmd: String,
        cwd: Option<String>,
        prepend_args: Vec<String>,
        append_args: Vec<String>,
    },
}

/// Model of a [`RootMode`].
pub ghost enum ModeView {
    Standalone,
    Passthrough {
        cmd: Seq<char>,
        cwd: Option<Seq<char>>,
        prepend_args: Seq<Seq<char>>,
        append_args: Seq<Seq<char>>,
    },
}

impl DeepView for RootMode {
    type V = ModeView;

    open spec fn deep_view(&self) -> ModeView {
        match *self {
            RootMode::Standalone => ModeView::Standalone,
            RootMode::Passthrough { cmd, cwd, prepend_args, append_args } => ModeView::Passthrough {
                cmd: cmd@,
                cwd: cwd.deep_view(),
                prepend_args: prepend_args.deep_view(),
                append_args: append_args.deep_view(),
            },
        }
    }
}

impl View for RootMode {
    type V = ModeView;

    open spec fn view(&self) -> ModeView {
        self.deep_view()
    }
}

impl Default for RootMode {
    /// The mode of a configuration that declares none.
    fn default() -> (mode: Self)
        ensures
            mode@ == ModeView::Standalone,
    {
        RootMode::Standalone
    }
}

/// A named script of a [`ScriptTable`].
#[derive(Clone, Debug, PartialEq, Eq)]
pub struct ScriptEntry {
    pub name: String,
    pub script: ScriptDeclaration,
}

/// The named scripts of a configuration, names kept as written.
#[derive(Clone, Debug, PartialEq, Eq)]
pub struct ScriptTable {
    entries: Vec<ScriptEntry>,
}

/// No two entries carry the same name.
pub open spec fn distinct_names(entries: Seq<ScriptEntry>) -> bool {
    forall|i: int, j: int|
        0 <= i < j < entries.len() ==> #[trigger] entries[i].name@ != #[trigger] entries[j].name@
}

/// The entries stand in the order of their names: each name comes before
/// the next one in the order of texts.
pub open spec fn ascending_names(entries: Seq<ScriptEntry>) -> bool {
    forall|i: int|
        0 <= i < entries.len() - 1 ==> text_lt(
            (#[trigger] entries[i]).name@,
            entries[i + 1].name@,
        )
}

/// The mapping from names to scripts that a list of entries stands for.
/// Where a name occurs more than once, its first entry counts.
pub open spec fn table_of(entries: Seq<ScriptEntry>) -> Map<Seq<char>, Seq<ScriptCmdView>>
    decreases entries.len(),
{
    if entries.len() == 0 {
        Map::empty()
    } else {
        let earlier = table_of(entries.drop_last());
        let last = entries.last();
        if earlier.contains_key(last.name@) {
            earlier
        } else {
            earlier.insert(last.name@, last.script@)
        }
    }
}

/// A name that no entry carries is not in the mapping.
pub proof fn lemma_table_misses(entries: Seq<ScriptEntry>, name: Seq<char>)
    requires
        forall|j: int| 0 <= j < entries.len() ==> entries[j].name@ != name,
    ensures
        !table_of(entries).contains_key(name),
    decreases entries.len(),
{
    if entries.len() > 0 {
        lemma_table_misses(entries.drop_last(), name);
    }
}

/// The name of every entry is in the mapping.
pub proof fn lemma_table_names(entries: Seq<ScriptEntry>, i: int)
    requires
        0 <= i < entries.len(),
    ensures
        table_of(entries).contains_key(entries[i].name@),
    decreases entries.len(),
{
    if i < entries.len() - 1 {
        lemma_table_names(entries.drop_last(), i);
    }
}

/// The first entry that carries a name decides what the mapping holds for
/// that name.
pub proof fn lemma_table_first(entries: Seq<ScriptEntry>, i: int)
    requires
        0 <= i < entries.len(),
        forall|j: int| 0 <= j < i ==> entries[j].name@ != entries[i].name@,
    ensures
        table_of(entries).contains_key(entries[i].name@),
        table_of(entries)[entries[i].name@] == entries[i].script@,
    decreases entries.len(),
{
    if i == entries.len() - 1 {
        lemma_table_misses(entries.drop_last(), entries[i].name@);
    } else {
        lemma_table_first(entries.drop_last(), i);
    }
}

/// Replacing the first entry of a name changes the mapping at that name
/// only.
pub proof fn lemma_table_replace(entries: Seq<ScriptEntry>, i: int, entry: ScriptEntry)
    requires
        0 <= i < entries.len(),
        entries[i].name@ == entry.name@,
        forall|j: int| 0 <= j < i ==> entries[j].name@ != entry.name@,
    ensures
        table_of(entries.update(i, entry)) == table_of(entries).insert(
            entry.name@,
            entry.script@,
        ),
    decreases entries.len(),
{
    let changed = entries.update(i, entry);
    if i == entries.len() - 1 {
        assert(changed.drop_last() =~= entries.drop_last());
        lemma_table_misses(entries.drop_last(), entry.name@);
    } else {
        assert(changed.drop_last() =~= entries.drop_last().update(i, entry));
        lemma_table_replace(entries.drop_last(), i, entry);
        lemma_table_first(entries.drop_last(), i);
    }
    assert(table_of(changed) =~= table_of(entries).insert(entry.name@, entry.script@));
}

/// A new entry under a name that no entry carries adds that name to the
/// mapping, wherever the entry is put.
pub proof fn lemma_table_insert(entries: Seq<ScriptEntry>, i: int, entry: ScriptEntry)
    requires
        0 <= i <= entries.len(),
        forall|j: int| 0 <= j < entries.len() ==> entries[j].name@ != entry.name@,
    ensures
        table_of(entries.insert(i, entry)) == table_of(entries).insert(
            entry.name@,
            entry.script@,
        ),
    decreases entries.len(),
{
    let changed = entries.insert(i, entry);
    if i == entries.len() {
        assert(changed.drop_last() =~= entries);
        lemma_table_misses(entries, entry.name@);
    } else {
        assert(changed.drop_last() =~= entries.drop_last().insert(i, entry));
        assert(changed.last() == entries.last());
        lemma_table_insert(entries.drop_last(), i, entry);
    }
    assert(table_of(changed) =~= table_of(entries).insert(entry.name@, entry.script@));
}

impl ScriptTable {
    /// The mapping from script names to scripts.
    pub closed spec fn deep_view(&self) -> Map<Seq<char>, Seq<ScriptCmdView>> {
        table_of(self.entries@)
    }

    /// The scripts stand in the order of their names, no name occurs
    /// twice, and every script has at least one step.
    pub closed spec fn wf(&self) -> bool {
        &&& ascending_names(self.entries@)
        &&& distinct_names(self.entries@)
        &&& forall|i: int| 0 <= i < self.entries@.len() ==> #[trigger] self.entries@[i].script.wf()
    }

    /// The table without scripts.
    pub fn new() -> (table: Self)
        ensures
            table@ == Map::<Seq<char>, Seq<ScriptCmdView>>::empty(),
            table.wf(),
    {
        ScriptTable { entries: Vec::new() }
    }

    /// The script declared under `name`, if any.
    pub fn get(&self, name: &str) -> (found: Option<&ScriptDeclaration>)
        ensures
            found.is_some() == self@.contains_key(name@),
            found matches Some(script) ==> script@ == self@[name@] && (self.wf() ==> script.wf()),
    {
        let mut i: usize = 0;
        while i < self.entries.len()
            invariant
                i <= self.entries.len(),
                forall|j: int| 0 <= j < i ==> self.entries@[j].name@ != name@,
            decreases self.entries.len() - i,
        {
            if text_eq(self.entries[i].name.as_str(), name) {
                proof {
                    lemma_table_first(self.entries@, i as int);
                }
                return Some(&self.entries[i].script);
            }
            i += 1;
        }
        proof {
            lemma_table_misses(self.entries@, name@);
        }
        None
    }

    /// Whether a script is declared under `name`.
    pub fn contains_key(&self, name: &str) -> (found: bool)
        ensures
            found == self@.contains_key(name@),
    {
        self.get(name).is_some()
    }

    /// The names under which scripts are declared, each once, in the order
    /// of texts.
    pub fn names(&self) -> (names: Vec<String>)
        ensures
            forall|i: int| 0 <= i < names@.len() ==> self@.contains_key(#[trigger] names@[i]@),
            self.wf() ==> forall|i: int, j: int|
                0 <= i < j < names@.len() ==> #[trigger] names@[i]@ != #[trigger] names@[j]@,
            self.wf() ==> ascending(texts(names@)),
            forall|name: Seq<char>|
                self@.contains_key(name) ==> exists|i: int|
                    0 <= i < names@.len() && #[trigger] names@[i]@ == name,
    {
        let mut names: Vec<String> = Vec::new();
        let mut i: usize = 0;
        while i < self.entries.len()
            invariant
                i <= self.entries.len(),
                names.len() == i,
                forall|j: int| 0 <= j < i ==> #[trigger] names@[j]@ == self.entries@[j].name@,
            decreases self.entries.len() - i,
        {
            names.push(self.entries[i].name.clone());
            i += 1;
        }
        proof {
            assert forall|j: int| 0 <= j < names@.len() implies self@.contains_key(
                #[trigger] names@[j]@,
            ) by {
                lemma_table_names(self.entries@, j);
            }
            assert forall|name: Seq<char>| self@.contains_key(name) implies exists|j: int|
                0 <= j < names@.len() && #[trigger] names@[j]@ == name by {
                if forall|j: int| 0 <= j < self.entries@.len() ==> self.entries@[j].name@ != name {
                    lemma_table_misses(self.entries@, name);
                } else {
                    let j = choose|j: int|
                        0 <= j < self.entries@.len() && self.entries@[j].name@ == name;
                    assert(names@[j]@ == name);
                }
            }
        }
        names
    }

    /// Declares `script` under `name`, in place of any script declared
    /// under that name before. A new name takes its place in the order of
    /// the names.
    #[verifier::loop_isolation(false)]
    pub fn insert(&mut self, name: String, script: ScriptDeclaration)
        ensures
            final(self)@ == old(self)@.insert(name@, script@),
            old(self).wf() && script.wf() ==> final(self).wf(),
    {
        let ghost before = self.entries@;
        let mut i: usize = 0;
        while i < self.entries.len()
            invariant
                i <= self.entries.len(),
                self.entries@ == before,
                forall|j: int| 0 <= j < i ==> before[j].name@ != name@,
            decreases self.entries.len() - i,
        {
            if text_eq(self.entries[i].name.as_str(), name.as_str()) {
                let entry = ScriptEntry { name, script };
                proof {
                    lemma_table_replace(before, i as int, entry);
                }
                self.entries.set(i, entry);
                return ;
            }
            i += 1;
        }
        let mut place: usize = 0;
        let mut placed = false;
        while place < self.entries.len() && !placed
            invariant
                place <= self.entries.len(),
                self.entries@ == before,
                forall|j: int| 0 <= j < place ==> text_lt(before[j].name@, name@),
                placed ==> place < before.len() && text_lt(name@, before[place as int].name@),
            decreases self.entries.len() - place + (if placed { 0int } else { 1int }),
        {
            match text_order(self.entries[place].name.as_str(), name.as_str()) {
                TextOrder::Before => {
                    place += 1;
                },
                _ => {
                    placed = true;
                },
            }
        }
        let entry = ScriptEntry { name, script };
        proof {
            lemma_table_insert(before, place as int, entry);
            let after = before.insert(place as int, entry);
            if ascending_names(before) {
                assert forall|k: int| 0 <= k < after.len() - 1 implies text_lt(
                    (#[trigger] after[k]).name@,
                    after[k + 1].name@,
                ) by {
                    if k + 1 < place {
                        assert(text_lt(before[k].name@, before[k + 1].name@));
                    } else if k + 1 == place {
                    } else if k == place {
                    } else {
                        assert(text_lt(before[k - 1].name@, before[k].name@));
                    }
                }
            }
        }
        self.entries.insert(place, entry);
    }
}

impl View for ScriptTable {
    type V = Map<Seq<char>, Seq<ScriptCmdView>>;

    open spec fn view(&self) -> Map<Seq<char>, Seq<ScriptCmdView>> {
        self.deep_view()
    }
}

/// A parsed project configuration.
#[derive(Clone, Debug, PartialEq, Eq)]
pub struct RootConfiguration {
    pub mode: RootMode,
    pub hoist: Vec<HoistDeclaration>,
    pub scripts: ScriptTable,
}

/// Model of a [`RootConfiguration`].
pub ghost struct ConfigView {
    pub mode: ModeView,
    pub hoist: Seq<HoistView>,
    pub scripts: Map<Seq<char>, Seq<ScriptCmdView>>,
}

impl DeepView for RootConfiguration {
    type V = ConfigView;

    open spec fn deep_view(&self) -> ConfigView {
        ConfigView {
            mode: self.mode@,
            hoist: self.hoist.deep_view(),
            scripts: self.scripts@,
        }
    }
}

impl View for RootConfiguration {
    type V = ConfigView;

    open spec fn view(&self) -> ConfigView {
        self.deep_view()
    }
}

/// The configuration that declares nothing: standalone mode, no hoist
/// directory, no script.
pub open spec fn empty_config() -> ConfigView {
    ConfigView { mode: ModeView::Standalone, hoist: Seq::empty(), scripts: Map::empty() }
}

impl RootConfiguration {
    /// Every script of the configuration has at least one step.
    pub open spec fn wf(&self) -> bool {
        self.scripts.wf()
    }
}

impl Default for RootConfiguration {
    fn default() -> (config: Self)
        ensures
            config@ == empty_config(),
            config.wf(),
    {
        let config = RootConfiguration {
            mode: RootMode::Standalone,
            hoist: Vec::new(),
            scripts: ScriptTable::new(),
        };
        assert(config.hoist.deep_view() =~= Seq::<HoistView>::empty());
        config
    }
}

} // verus!
