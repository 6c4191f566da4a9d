use vstd::prelude::*;

verus! {

/// The table whose entry held an atom index that could not be resolved.
#[derive(Debug, Clone, Copy, PartialEq, Eq, Structural)]
pub enum TableKind {
    Exports,
    Imports,
}

/// Everything that can make decoding a BEAM file fail.
#[derive(Debug, Clone, Copy, PartialEq, Eq, Structural)]
pub enum BeamError {
    /// Wrong magic or form type, or chunk sizes that do not add up to the
    /// envelope's byte budget.
    MalformedContainer,
    /// Fewer bytes present than a declared size requires.
    TruncatedInput,
    /// Atom bytes that are not valid UTF-8.
    InvalidEncoding,
    /// An atom index that is zero or past the end of the atom table.
    UnresolvedReference { index: u32, table: TableKind },
}

} // verus!
