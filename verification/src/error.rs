//! Why a configuration was rejected.

use vstd::prelude::*;

verus! {

/// The reason for which a configuration text was rejected. A rejected
/// configuration is never applied in part.
#[derive(Clone, Copy, Debug, PartialEq, Eq, Structural)]
pub enum ParseError {
    /// The text is not well formed in its format.
    Syntax,
    /// The file name has no extension of a supported format.
    UnknownFormat,
    /// A node, property or key carries a name that is not known where it
    /// stands.
    UnknownName,
    /// The mode tag is not a known one.
    UnknownMode,
    /// A value that must be there is not.
    MissingValue,
    /// A value is of another type than the one expected in its place.
    WrongType,
    /// An argument position is not in the range of 0 to 65535.
    IndexOutOfRange,
    /// A script has no step.
    EmptyScript,
}

} // verus!
