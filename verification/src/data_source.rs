use std::sync::Arc;
use vstd::prelude::*;

use crate::address_space::AddressSpace;
use crate::address_space::VADDR_MAX;
use crate::error::MapError;
use crate::flags::FlagBuilder;

verus! {

/// The identity of a data-source instance.
///
/// An address space never owns source content, only a shared handle to it: a
/// single source may be mapped into multiple address spaces, or at multiple
/// addresses in the same space. Each source instance therefore carries an
/// identifier, and two handles denote the same source exactly when their
/// identifiers agree; removing a mapping is keyed on this identity, not on
/// content equality.
pub trait SourceIdentity {
    /// The identity of this source instance, as the specifications see it.
    /// Implementations verified here refine it; an implementation outside
    /// the verifier may leave the default, which carries no meaning.
    open spec fn spec_id(&self) -> int {
        0
    }

    /// Return the identity of this source instance.
    fn source_id(&self) -> (r: u64)
        ensures
            r as int == self.spec_id(),
    ;
}

/// The capability interface an address space requires of a backing store:
/// reading, writing and flushing a byte range, and taking part in mapping
/// and unmapping decisions. New backing-store kinds implement this same
/// contract; the address space itself never needs to change for them.
pub trait DataSource: SourceIdentity {
    /// Fill `buffer` with `length` bytes starting at `offset` within the
    /// source; fail with an I/O error if the range exceeds the source's
    /// extent or the underlying medium is unavailable.
    fn read(&self, offset: u64, length: usize, buffer: &mut Vec<u8>) -> Result<(), MapError>;

    /// Write `length` bytes from `buffer` to the source at `offset`; fail
    /// analogously. For copy-on-write-backed sources this must not mutate
    /// shared backing storage before the private copy has been materialized.
    fn write(&self, offset: u64, length: usize, buffer: &[u8]) -> Result<(), MapError>;

    /// Force any buffered mutations for the range to durable backing
    /// storage; fail with an I/O error on underlying failure.
    fn flush(&self, offset: u64, length: usize) -> Result<(), MapError>;

    /// Let the source itself drive the creation of a mapping of its bytes
    /// into `into`: the source may refuse the request — for instance a
    /// mapping beyond its length — or pick the virtual address itself by
    /// delegating to the address space. Returns the chosen virtual address
    /// or an error, and leaves the address space well-formed either way.
    fn add_map(source: &Arc<Self>, flags: FlagBuilder, into: &mut AddressSpace<Self>, offset: u64, span: u64) -> (r: Result<u64, MapError>) where Self: Sized
        requires
            old(into).wf(),
            offset < VADDR_MAX,
        ensures
            final(into).wf(),
    ;

    /// Inverse of [`DataSource::add_map`]: take the mapping of this source
    /// that starts at `start` out of `from`, leaving the address space
    /// well-formed either way.
    fn del_map(source: &Arc<Self>, from: &mut AddressSpace<Self>, start: u64) -> (r: Result<(), MapError>) where Self: Sized
        requires
            old(from).wf(),
        ensures
            final(from).wf(),
    ;
}

/// The null/zero source: an inert byte-range provider with no backing medium.
/// Reads yield zeroes, writes are discarded, and a flush has nothing to do.
#[derive(Clone, Copy, Debug, PartialEq, Eq, Structural)]
pub struct NullDataSource {
    id: u64,
}

impl NullDataSource {
    /// Create a new `NullDataSource` under the given instance identifier.
    pub fn new(id: u64) -> (r: Self)
        ensures
            r.spec_id() == id as int,
    {
        NullDataSource { id }
    }
}

impl SourceIdentity for NullDataSource {
    closed spec fn spec_id(&self) -> int {
        self.id as int
    }

    fn source_id(&self) -> (r: u64)
        ensures
            r as int == self.spec_id(),
    {
        self.id
    }
}

impl DataSource for NullDataSource {
    /// Fill `buffer` with `length` zero bytes; a null source has no extent
    /// limit, so the read always succeeds.
    fn read(&self, offset: u64, length: usize, buffer: &mut Vec<u8>) -> (r: Result<(), MapError>)
        ensures
            r is Ok,
            final(buffer)@.len() == length as nat,
            forall|j: int| 0 <= j < length ==> final(buffer)@[j] == 0u8,
    {
        buffer.clear();
        let mut i: usize = 0;
        while i < length
            invariant
                i <= length,
                buffer@.len() == i as nat,
                forall|j: int| 0 <= j < i ==> buffer@[j] == 0u8,
            decreases length - i,
        {
            buffer.push(0u8);
            i = i + 1;
        }
        Ok(())
    }

    /// Discard the written bytes; there is no backing storage to mutate.
    fn write(&self, offset: u64, length: usize, buffer: &[u8]) -> (r: Result<(), MapError>)
        ensures
            r is Ok,
    {
        Ok(())
    }

    /// Nothing is buffered, so there is nothing to make durable.
    fn flush(&self, offset: u64, length: usize) -> (r: Result<(), MapError>)
        ensures
            r is Ok,
    {
        Ok(())
    }

    /// A null source has no extent to guard, so it refuses nothing itself:
    /// it delegates placement to the address space unchanged.
    fn add_map(source: &Arc<Self>, flags: FlagBuilder, into: &mut AddressSpace<Self>, offset: u64, span: u64) -> (r: Result<u64, MapError>)
        ensures
            final(into).wf(),
    {
        into.add_mapping(source.clone(), offset, span, flags)
    }

    /// A null source tracks nothing of its mappings: removal is exactly the
    /// address space's removal.
    fn del_map(source: &Arc<Self>, from: &mut AddressSpace<Self>, start: u64) -> (r: Result<(), MapError>)
        ensures
            final(from).wf(),
    {
        from.remove_mapping(source.clone(), start)
    }
}

} // verus!
