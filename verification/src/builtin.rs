//! The built-in commands of the runner, as far as the arguments decide
//! them. A built-in command is asked for by `-` as the first argument.

use crate::text::{text_eq, texts};
use vstd::prelude::*;

verus! {

/// A built-in command, as the arguments after the `-` ask for it.
#[derive(Clone, Debug, PartialEq, Eq)]
pub enum BuiltinCommand {
    /// No command is named.
    Missing,
    /// `which`: say what the named script stands for. The name is absent
    /// where the arguments give none.
    Which { script: Option<String> },
    /// `root`: say where the project root was found.
    Root,
    /// `print-config`: print the configuration.
    PrintConfig,
    /// A command that is not known.
    Unknown { name: String },
}

/// Model of a [`BuiltinCommand`].
pub ghost enum BuiltinView {
    Missing,
    Which { script: Option<Seq<char>> },
    Root,
    PrintConfig,
    Unknown { name: Seq<char> },
}

impl DeepView for BuiltinCommand {
    type V = BuiltinView;

    open spec fn deep_view(&self) -> BuiltinView {
        match *self {
            BuiltinCommand::Missing => BuiltinView::Missing,
            BuiltinCommand::Which { script } => BuiltinView::Which { script: script.deep_view() },
            BuiltinCommand::Root => BuiltinView::Root,
            BuiltinCommand::PrintConfig => BuiltinView::PrintConfig,
            BuiltinCommand::Unknown { name } => BuiltinView::Unknown { name: name@ },
        }
    }
}

/// Whether the arguments ask for a built-in command.
pub open spec fn asks_builtin(arguments: Seq<Seq<char>>) -> bool {
    arguments.len() > 0 && arguments[0] == "-"@
}

/// Whether the arguments, as given after the runner's own name, ask for a
/// built-in command.
pub fn is_builtin_request(arguments: &Vec<String>) -> (yes: bool)
    ensures
        yes == asks_builtin(texts(arguments@)),
{
    arguments.len() > 0 && text_eq(arguments[0].as_str(), "-")
}

/// The built-in command that the arguments name: the first of them is
/// the command, the second the script of `which`.
pub open spec fn builtin_named(arguments: Seq<Seq<char>>) -> BuiltinView {
    if arguments.len() == 0 {
        BuiltinView::Missing
    } else if arguments[0] == "which"@ {
        BuiltinView::Which {
            script: if arguments.len() > 1 {
                Some(arguments[1])
            } else {
                None
            },
        }
    } else if arguments[0] == "root"@ {
        BuiltinView::Root
    } else if arguments[0] == "print-config"@ {
        BuiltinView::PrintConfig
    } else {
        BuiltinView::Unknown { name: arguments[0] }
    }
}

/// The built-in command that the arguments after the `-` name.
pub fn builtin_command(arguments: &Vec<String>) -> (command: BuiltinCommand)
    ensures
        command.deep_view() == builtin_named(texts(arguments@)),
{
    if arguments.len() == 0 {
        return BuiltinCommand::Missing;
    }
    let name = arguments[0].as_str();
    assert(texts(arguments@)[0] == name@);
    if text_eq(name, "which") {
        if arguments.len() > 1 {
            assert(texts(arguments@)[1] == arguments@[1]@);
            BuiltinCommand::Which { script: Some(arguments[1].clone()) }
        } else {
            BuiltinCommand::Which { script: None }
        }
    } else if text_eq(name, "root") {
        BuiltinCommand::Root
    } else if text_eq(name, "print-config") {
        BuiltinCommand::PrintConfig
    } else {
        BuiltinCommand::Unknown { name: arguments[0].clone() }
    }
}

} // verus!
