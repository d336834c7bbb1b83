//! Why a text is not the record that was asked for.

use vstd::prelude::*;

verus! {

/// The first thing that was found to be wrong in a text.
#[derive(Debug, Clone, Copy, PartialEq, Eq, Structural)]
pub enum ParseError {
    /// The key of an assignment, with its `=`, does not stand at the place.
    UnexpectedKey,
    /// No key to skip forward to stands in the rest of the text.
    KeyNotFound,
    /// No floating-point literal stands at the place.
    MalformedNumber,
    /// No integer stands at the place, or it does not fit its field.
    MalformedInteger,
    /// An index list does not begin with a signed integer.
    MalformedIndexList,
    /// No letter or digit stands where a code is expected.
    MalformedCode,
    /// Neither an end of line nor a comma stands between two fields.
    MissingSeparator,
    /// No comma stands between two numbers of one value.
    MissingComma,
    /// No end of line stands at the end of a line.
    MissingLineEnding,
}

} // verus!
