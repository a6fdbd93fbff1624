use vstd::prelude::*;

verus! {

/// Why a token stream or a field could not be resolved.
#[derive(PartialEq, Eq, Structural, Debug, Clone, Copy)]
pub enum ArgError {
    /// The token stream does not open with a flag.
    MalformedArgumentStream,
    /// A value token does not parse as the requested type.
    TypeMismatch,
    /// A single-valued target received two or more value tokens.
    TooManyValues,
    /// A flag that needs a following value had none.
    MissingRequiredValue,
    /// A required field was given by neither alias.
    MissingRequiredField,
    /// Both aliases of a single-valued field supplied a value.
    ConflictingAliases,
}

} // verus!
