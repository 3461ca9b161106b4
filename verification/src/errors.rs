//! The error taxonomy shared by the archive parsers and the resolver.

use vstd::prelude::*;

verus! {

/// What can go wrong while loading an archive or resolving a name.
///
/// `NotFound` is benign: the requested name is absent from every search
/// entry, or a lump of that name does not exist. The other variants are
/// fatal for the operation that raised them. `ExplicitPathMissing` is kept
/// distinct from `NotFound`: a user-supplied search-path override that names
/// a missing archive must fail loudly, unlike the silent stop at the end of
/// an automatic numbered-archive scan.
#[derive(Clone, Copy, Debug, PartialEq, Eq, Structural)]
pub enum FsError {
    /// The requested name is absent everywhere it was looked for.
    NotFound,
    /// Wrong magic, an invalid enum code, a name field with no valid
    /// terminator or encoding, or a negative value in a field that must be
    /// non-negative.
    MalformedArchive,
    /// The archive directory declares more entries than the hard ceiling.
    TooManyEntries,
    /// An explicitly requested search-path entry does not exist on disk.
    ExplicitPathMissing,
}

impl FsError {
    /// A short description of the error, for display by the caller.
    pub fn describe(&self) -> (r: &'static str)
        ensures
            r@ == match self {
                FsError::NotFound => "not found"@,
                FsError::MalformedArchive => "malformed archive"@,
                FsError::TooManyEntries => "too many entries in archive"@,
                FsError::ExplicitPathMissing => "explicit search path missing"@,
            },
    {
        match self {
            FsError::NotFound => "not found",
            FsError::MalformedArchive => "malformed archive",
            FsError::TooManyEntries => "too many entries in archive",
            FsError::ExplicitPathMissing => "explicit search path missing",
        }
    }
}

} // verus!
