//! The script execution engine, as far as it decides: which script or
//! hoisted executable a name stands for, what happens to each runtime
//! argument of a step, and what is handed to the shell.
//!
//! The engine spawns nothing and touches no file. It returns plans; the
//! caller resolves paths, spawns the processes and waits for them, one
//! step after the other.

use crate::config::{
    ConfigView, ModeView, ProcessArgument, RootConfiguration, RootMode, ScriptCmd,
    ScriptCmdView, ScriptDeclaration,
};
use crate::find::{find_binary, finds, DirectoryListing, HoistedBinary, ScanError};
use crate::sequence::{lemma_try_map_err, lemma_try_map_ok, try_map};
use crate::text::{copy_texts, text_eq, texts};
use vstd::prelude::*;

verus! {

// ----------------------------------------------------------------------
// Transforms of runtime arguments
// ----------------------------------------------------------------------
/// The supported transforms of a runtime argument.
#[derive(Clone, Copy, Debug, PartialEq, Eq, Structural)]
pub enum Transform {
    /// Resolve the argument, relative to the directory from which the
    /// runner was invoked, to an absolute canonical path.
    Realpath,
}

/// The transform of a given kind, where the kind is a supported one.
pub open spec fn transform_named(kind: Seq<char>) -> Option<Transform> {
    if kind == "realpath"@ {
        Some(Transform::Realpath)
    } else {
        None
    }
}

/// The transform of a given kind, where the kind is a supported one.
pub fn transform_by_name(kind: &str) -> (transform: Option<Transform>)
    ensures
        transform == transform_named(kind@),
{
    if text_eq(kind, "realpath") {
        Some(Transform::Realpath)
    } else {
        None
    }
}

/// What happens to one runtime argument before it is handed to the shell.
#[derive(Clone, Debug, PartialEq, Eq)]
pub enum PlannedArgument {
    /// The argument is handed on as it is.
    Verbatim(String),
    /// The argument is replaced by the result of the transform.
    Transformed { transform: Transform, argument: String },
}

/// Model of a [`PlannedArgument`].
pub ghost enum PlannedView {
    Verbatim(Seq<char>),
    Transformed { transform: Transform, argument: Seq<char> },
}

impl DeepView for PlannedArgument {
    type V = PlannedView;

    open spec fn deep_view(&self) -> PlannedView {
        match *self {
            PlannedArgument::Verbatim(argument) => PlannedView::Verbatim(argument@),
            PlannedArgument::Transformed { transform, argument } => PlannedView::Transformed {
                transform,
                argument: argument@,
            },
        }
    }
}

/// A step declares, for an argument that is there, a transform of a kind
/// that is not supported. `position` counts the arguments from 1.
#[derive(Clone, Debug, PartialEq, Eq)]
pub struct UnsupportedTransform {
    pub position: usize,
    pub kind: String,
}

impl DeepView for UnsupportedTransform {
    type V = (int, Seq<char>);

    open spec fn deep_view(&self) -> (int, Seq<char>) {
        (self.position as int, self.kind@)
    }
}

/// The kind of the transform that a step declares for the argument at
/// `index`, counted from 0, that is for the position `index + 1`.
pub open spec fn declared_kind(step: ScriptCmdView, index: int) -> Option<Seq<char>> {
    if 0 <= index < 65535 && step.process_args.contains_key((index + 1) as u16) {
        Some(step.process_args[(index + 1) as u16]->transform)
    } else {
        None
    }
}

/// What happens to the argument at `index`: it passes unchanged where the
/// step declares no transform for its position, it is transformed where
/// the declared kind is supported, and the plan fails where it is not.
pub open spec fn planned(step: ScriptCmdView, arguments: Seq<Seq<char>>, index: int) -> Result<
    PlannedView,
    (int, Seq<char>),
> {
    match declared_kind(step, index) {
        None => Ok(PlannedView::Verbatim(arguments[index])),
        Some(kind) => match transform_named(kind) {
            Some(transform) => Ok(
                PlannedView::Transformed { transform, argument: arguments[index] },
            ),
            None => Err((index + 1, kind)),
        },
    }
}

/// [`planned`] as a function of the argument's index.
pub open spec fn planning(step: ScriptCmdView, arguments: Seq<Seq<char>>) -> spec_fn(int) -> Result<
    PlannedView,
    (int, Seq<char>),
> {
    |index: int| planned(step, arguments, index)
}

/// The indices of `count` arguments.
pub open spec fn indices(count: nat) -> Seq<int> {
    Seq::new(count, |i: int| i)
}

/// The plan for the runtime arguments of a step: what happens to each, in
/// order, or the first unsupported transform that an argument meets.
pub open spec fn argument_plan(step: ScriptCmdView, arguments: Seq<Seq<char>>) -> Result<
    Seq<PlannedView>,
    (int, Seq<char>),
> {
    try_map(indices(arguments.len()), planning(step, arguments))
}

/// Plans the runtime arguments of a step. A transform declared for a
/// position at which no argument stands plays no part.
pub fn plan_arguments(step: &ScriptCmd, arguments: &Vec<String>) -> (plan: Result<
    Vec<PlannedArgument>,
    UnsupportedTransform,
>)
    ensures
        match plan {
            Ok(planned) => argument_plan(step@, texts(arguments@)) == Ok::<
                Seq<PlannedView>,
                (int, Seq<char>),
            >(planned.deep_view()) && planned.len() == arguments.len(),
            Err(e) => argument_plan(step@, texts(arguments@)) == Err::<
                Seq<PlannedView>,
                (int, Seq<char>),
            >(e.deep_view()),
        },
{
    let ghost given = texts(arguments@);
    let ghost places = indices(given.len());
    let mut planned_arguments: Vec<PlannedArgument> = Vec::new();
    let mut i: usize = 0;
    while i < arguments.len()
        invariant
            i <= arguments.len(),
            given == texts(arguments@),
            places == indices(given.len()),
            planned_arguments.len() == i,
            forall|j: int|
                0 <= j < i ==> planning(step@, given)(#[trigger] places[j]) == Ok::<
                    PlannedView,
                    (int, Seq<char>),
                >(planned_arguments@[j].deep_view()),
        decreases arguments.len() - i,
    {
        let argument = arguments[i].clone();
        assert(places[i as int] == i);
        assert(given[i as int] == argument@);
        let declared = if i < 65535 {
            step.process_args.get(&((i + 1) as u16))
        } else {
            None
        };
        match declared {
            None => {
                planned_arguments.push(PlannedArgument::Verbatim(argument));
            },
            Some(ProcessArgument::Transform { transform: kind }) => {
                assert(declared_kind(step@, i as int) == Some(kind@));
                match transform_by_name(kind.as_str()) {
                    Some(transform) => {
                        planned_arguments.push(
                            PlannedArgument::Transformed { transform, argument },
                        );
                    },
                    None => {
                        proof {
                            lemma_try_map_err(places, planning(step@, given), i as int);
                        }
                        return Err(UnsupportedTransform { position: i + 1, kind: kind.clone() });
                    },
                }
            },
        }
        i += 1;
    }
    proof {
        lemma_try_map_ok(places, planning(step@, given), planned_arguments.deep_view());
    }
    Ok(planned_arguments)
}

// ----------------------------------------------------------------------
// Steps
// ----------------------------------------------------------------------
/// The directory in which a process is to run.
#[derive(Clone, Debug, PartialEq, Eq)]
pub enum WorkingDirectory {
    /// The directory from which the runner was invoked.
    Invocation,
    /// The given directory, read relative to the project root and resolved
    /// to an absolute canonical path. A directory that does not exist is a
    /// failure.
    Resolve(String),
}

impl DeepView for WorkingDirectory {
    type V = Option<Seq<char>>;

    open spec fn deep_view(&self) -> Option<Seq<char>> {
        match *self {
            WorkingDirectory::Invocation => None,
            WorkingDirectory::Resolve(directory) => Some(directory@),
        }
    }
}

/// The directory in which a process is to run, given the directory that
/// the configuration declares for it, if any.
pub fn working_directory(declared: &Option<String>) -> (directory: WorkingDirectory)
    ensures
        directory.deep_view() == declared.deep_view(),
{
    match declared {
        Some(directory) => WorkingDirectory::Resolve(directory.clone()),
        None => WorkingDirectory::Invocation,
    }
}

/// What is to be done for one step of a script: the command line for the
/// shell, what happens to each runtime argument, and where the shell runs.
#[derive(Clone, Debug, PartialEq, Eq)]
pub struct StepPlan {
    pub command: String,
    pub arguments: Vec<PlannedArgument>,
    pub directory: WorkingDirectory,
}

/// Model of a [`StepPlan`].
pub ghost struct StepPlanView {
    pub command: Seq<char>,
    pub arguments: Seq<PlannedView>,
    pub directory: Option<Seq<char>>,
}

impl DeepView for StepPlan {
    type V = StepPlanView;

    open spec fn deep_view(&self) -> StepPlanView {
        StepPlanView {
            command: self.command@,
            arguments: self.arguments.deep_view(),
            directory: self.directory.deep_view(),
        }
    }
}

/// The plan for one step: the command line of the step, the plan for the
/// runtime arguments, and the working directory that the step declares.
pub open spec fn step_plan(step: ScriptCmdView, arguments: Seq<Seq<char>>) -> Result<
    StepPlanView,
    (int, Seq<char>),
> {
    match argument_plan(step, arguments) {
        Ok(planned) => Ok(
            StepPlanView { command: step.cmd, arguments: planned, directory: step.cwd },
        ),
        Err(e) => Err(e),
    }
}

/// Plans one step of a script for the given runtime arguments. The plan
/// fails, before anything is spawned for the step, where an argument meets
/// a transform of an unsupported kind.
pub fn plan_step(step: &ScriptCmd, arguments: &Vec<String>) -> (plan: Result<
    StepPlan,
    UnsupportedTransform,
>)
    ensures
        match plan {
            Ok(p) => step_plan(step@, texts(arguments@)) == Ok::<StepPlanView, (int, Seq<char>)>(
                p.deep_view(),
            ) && p.arguments.len() == arguments.len(),
            Err(e) => step_plan(step@, texts(arguments@)) == Err::<
                StepPlanView,
                (int, Seq<char>),
            >(e.deep_view()),
        },
{
    let planned_arguments = plan_arguments(step, arguments)?;
    Ok(
        StepPlan {
            command: step.cmd.clone(),
            arguments: planned_arguments,
            directory: working_directory(&step.cwd),
        },
    )
}

// ----------------------------------------------------------------------
// Invocations
// ----------------------------------------------------------------------
/// A process to spawn: the program and its arguments.
#[derive(Clone, Debug, PartialEq, Eq)]
pub struct Invocation {
    pub program: String,
    pub arguments: Vec<String>,
}

/// The shell that runs where the environment names none.
pub open spec fn fallback_shell() -> Seq<char> {
    "sh"@
}

/// The arguments of a shell that runs `command`: the flag that makes the
/// shell run a command text, the command text, the name under which the
/// runner was invoked, and the arguments of the command as separate words.
pub open spec fn shell_arguments(command: Seq<char>, arg0: Seq<char>, arguments: Seq<Seq<char>>) -> Seq<
    Seq<char>,
> {
    seq!["-c"@, command, arg0] + arguments
}

/// The shell invocation that runs `command` with `arguments`. `shell` is
/// the shell that the environment names, if it names one.
pub fn shell_invocation(
    shell: Option<String>,
    command: &str,
    arg0: &str,
    arguments: &Vec<String>,
) -> (invocation: Invocation)
    ensures
        invocation.program@ == (match shell {
            Some(named) => named@,
            None => fallback_shell(),
        }),
        texts(invocation.arguments@) == shell_arguments(command@, arg0@, texts(arguments@)),
{
    let program = match shell {
        Some(named) => named,
        None => "sh".to_owned(),
    };
    let mut words: Vec<String> = Vec::new();
    words.push("-c".to_owned());
    words.push(command.to_owned());
    words.push(arg0.to_owned());
    let mut i: usize = 0;
    while i < arguments.len()
        invariant
            i <= arguments.len(),
            words.len() == 3 + i,
            words@[0]@ == "-c"@,
            words@[1]@ == command@,
            words@[2]@ == arg0@,
            forall|j: int| 0 <= j < i ==> words@[3 + j]@ == arguments@[j]@,
        decreases arguments.len() - i,
    {
        words.push(arguments[i].clone());
        i += 1;
    }
    assert(texts(words@) =~= shell_arguments(command@, arg0@, texts(arguments@)));
    Invocation { program, arguments: words }
}

/// The direct invocation of `program`, without a shell: its arguments are
/// the fixed leading ones, then the given ones, then the fixed trailing
/// ones.
pub fn direct_invocation(
    program: &str,
    prepend: &Vec<String>,
    arguments: &Vec<String>,
    append: &Vec<String>,
) -> (invocation: Invocation)
    ensures
        invocation.program@ == program@,
        texts(invocation.arguments@) == texts(prepend@) + texts(arguments@) + texts(append@),
{
    let mut words = copy_texts(prepend);
    let mut middle = copy_texts(arguments);
    let mut tail = copy_texts(append);
    let ghost first = words@;
    let ghost second = middle@;
    let ghost third = tail@;
    words.append(&mut middle);
    words.append(&mut tail);
    assert(texts(words@) =~= texts(first) + texts(second) + texts(third));
    Invocation { program: program.to_owned(), arguments: words }
}

/// The invocation of the passthrough mode for the given arguments, and
/// the directory in which it runs. Nothing where the mode is not the
/// passthrough mode.
pub fn passthrough_invocation(mode: &RootMode, arguments: &Vec<String>) -> (planned: Option<
    (Invocation, WorkingDirectory),
>)
    ensures
        match mode@ {
            ModeView::Standalone => planned is None,
            ModeView::Passthrough { cmd, cwd, prepend_args, append_args } => {
                &&& planned matches Some((invocation, directory))
                &&& invocation.program@ == cmd
                &&& texts(invocation.arguments@) == prepend_args + texts(arguments@) + append_args
                &&& directory.deep_view() == cwd
            },
        },
{
    match mode {
        RootMode::Standalone => None,
        RootMode::Passthrough { cmd, cwd, prepend_args, append_args } => {
            assert(texts(prepend_args@) =~= prepend_args.deep_view());
            assert(texts(append_args@) =~= append_args.deep_view());
            Some(
                (
                    direct_invocation(cmd.as_str(), prepend_args, arguments, append_args),
                    working_directory(cwd),
                ),
            )
        },
    }
}

// ----------------------------------------------------------------------
// What a name stands for
// ----------------------------------------------------------------------
/// The name of the script that the arguments ask for: the first argument,
/// as it was typed. Nothing where there is no argument.
pub fn requested_script(arguments: &Vec<String>) -> (name: Option<String>)
    ensures
        match name {
            Some(n) => arguments@.len() > 0 && n@ == arguments@[0]@,
            None => arguments@.len() == 0,
        },
{
    if arguments.len() > 0 {
        Some(arguments[0].clone())
    } else {
        None
    }
}

/// The arguments that follow the first one.
pub open spec fn following(arguments: Seq<Seq<char>>) -> Seq<Seq<char>> {
    if arguments.len() == 0 {
        arguments
    } else {
        arguments.skip(1)
    }
}

/// The arguments that follow the name of the script.
pub fn runtime_arguments(arguments: &Vec<String>) -> (rest: Vec<String>)
    ensures
        texts(rest@) == following(texts(arguments@)),
{
    let mut rest: Vec<String> = Vec::new();
    let mut i: usize = 1;
    while i < arguments.len()
        invariant
            1 <= i,
            i <= arguments.len() || (arguments.len() == 0 && i == 1),
            rest.len() == i - 1,
            forall|j: int| 0 <= j < i - 1 ==> rest@[j]@ == arguments@[j + 1]@,
        decreases arguments.len() - i,
    {
        rest.push(arguments[i].clone());
        i += 1;
    }
    proof {
        let given = texts(arguments@);
        if given.len() > 0 {
            assert(texts(rest@).len() == given.skip(1).len());
            assert forall|j: int| 0 <= j < rest@.len() implies texts(rest@)[j] == given.skip(1)[j] by {
                assert(given[j + 1] == arguments@[j + 1]@);
            }
        }
        assert(texts(rest@) =~= following(given));
    }
    rest
}

/// What a name stands for.
#[derive(Debug, PartialEq, Eq)]
pub enum Target<'a> {
    /// A script that the configuration declares.
    Script(&'a ScriptDeclaration),
    /// An executable found in a hoist directory.
    Hoisted(HoistedBinary),
}

/// Why a name stands for nothing that can be run.
#[derive(Clone, Copy, Debug, PartialEq, Eq, Structural)]
pub enum ResolveError {
    /// The name is neither that of a declared script nor that of an
    /// executable of a hoist directory.
    UnknownScriptOrBinary,
    /// The search through the hoist directories met a failure.
    Filesystem(ScanError),
}

/// `found` is what `name` stands for: the script declared under that name
/// and, where none is, what the search through the listings of the hoist
/// directories gives.
pub open spec fn resolves(
    config: ConfigView,
    listings: Seq<DirectoryListing>,
    name: Seq<char>,
    found: Result<Target, ResolveError>,
) -> bool {
    if config.scripts.contains_key(name) {
        found matches Ok(Target::Script(script)) && script@ == config.scripts[name]
    } else {
        match found {
            Ok(Target::Script(_)) => false,
            Ok(Target::Hoisted(hit)) => finds(
                listings,
                name,
                Ok::<Option<HoistedBinary>, ScanError>(Some(hit)),
            ),
            Err(ResolveError::UnknownScriptOrBinary) => finds(
                listings,
                name,
                Ok::<Option<HoistedBinary>, ScanError>(None),
            ),
            Err(ResolveError::Filesystem(e)) => finds(
                listings,
                name,
                Err::<Option<HoistedBinary>, ScanError>(e),
            ),
        }
    }
}

/// Resolves a name: to the script that the configuration declares under
/// it or else, by the listings of the hoist directories, to a hoisted
/// executable. The listings are looked at only where no script is
/// declared under the name.
pub fn resolve_target<'a>(
    config: &'a RootConfiguration,
    listings: &Vec<DirectoryListing>,
    name: &str,
) -> (found: Result<Target<'a>, ResolveError>)
    ensures
        resolves(config@, listings@, name@, found),
        config.wf() ==> (found matches Ok(Target::Script(script)) ==> script.wf()),
{
    match config.scripts.get(name) {
        Some(script) => Ok(Target::Script(script)),
        None => match find_binary(listings, name) {
            Ok(Some(hit)) => Ok(Target::Hoisted(hit)),
            Ok(None) => Err(ResolveError::UnknownScriptOrBinary),
            Err(e) => Err(ResolveError::Filesystem(e)),
        },
    }
}

} // verus!
