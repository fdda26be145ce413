//! The two disjoint families of failure: while generating a codec, and while
//! running one.

use vstd::prelude::*;

verus! {

/// Why a buffer could not be decoded.
#[derive(Clone, Copy, Debug, PartialEq, Eq, Structural)]
pub enum ReadError {
    /// Fewer bytes remain than the next item needs.
    Underrun,
    /// The discriminant byte of a sum type names no variant.
    InvalidDiscriminant,
    /// A variable-length integer does not end within its widest form, or
    /// does not fit in 64 bits.
    MalformedVarint,
}

/// Why a value could not be sized or encoded.
#[derive(Clone, Copy, Debug, PartialEq, Eq, Structural)]
pub enum EncodeError {
    /// The value is not a value of the type the codec was generated for.
    TypeMismatch,
    /// The encoded length does not fit in `usize`.
    TooLarge,
}

/// Why no codec could be generated from a declaration.
#[derive(Clone, Copy, Debug, PartialEq, Eq, Structural)]
pub enum GenerationError {
    /// A recognized attribute has the wrong shape, or the root path is not
    /// a module-style path.
    MalformedAttribute,
    /// A recognized attribute stands where it has no meaning.
    MisplacedAttribute,
    /// Table metadata was asked for and no table name was given.
    MissingTableName,
    /// More than one field is marked as primary key.
    DuplicatePrimaryKey,
    /// A singleton table has a field marked as a key.
    SingletonWithKeys,
    /// A sum type declares no variant.
    EmptySum,
    /// A sum type declares more variants than one discriminant byte can tell
    /// apart.
    TooManyVariants,
}

} // verus!
