use vstd::prelude::*;

verus! {

/// The typed failures of the address-space subsystem.
///
/// The taxonomy distinguishes invalid arguments (`InvalidFlags`, `ZeroSpan`,
/// `Misaligned`), capacity and placement failures (`NoSpace`, `Overlap`),
/// lookups with no matching record (`NotFound`), accesses that exceed the
/// granted flags (`PermissionDenied`, distinct from not-found because fault
/// handling upstream treats the two very differently), and I/O failures
/// surfaced verbatim from a data source (`Io`).
#[derive(Clone, Copy, Debug, PartialEq, Eq, Structural)]
pub enum MapError {
    /// A flag set that fails the mutual-exclusion validity predicate.
    InvalidFlags,
    /// A requested span of zero bytes, which would round to a mapping that
    /// no address could ever hit.
    ZeroSpan,
    /// A fixed placement whose start address is not page-aligned.
    Misaligned,
    /// No gap large enough before the end of the address range.
    NoSpace,
    /// A fixed placement that would come closer than one guard page to an
    /// existing mapping.
    Overlap,
    /// No mapping record matches the given source and start address.
    NotFound,
    /// The requested access exceeds the flags granted to the mapping.
    PermissionDenied,
    /// An I/O failure of the underlying medium of a data source.
    Io,
}

} // verus!
