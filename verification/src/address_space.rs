use std::sync::Arc;
use vstd::prelude::*;

use crate::data_source::SourceIdentity;
use crate::error::MapError;
use crate::flags::FlagBuilder;

verus! {

/// The fixed unit of address-space granularity: every mapping start and span
/// is a whole number of pages.
pub const PAGE_SIZE: u64 = 4096;

/// The exclusive upper bound of the virtual address range, 2^38 - 1: every
/// virtual address lies in `[0, VADDR_MAX)`.
pub const VADDR_MAX: u64 = 0x3f_ffff_ffff;

/// The smallest multiple of the page size that is at least `span`: spans are
/// rounded up to whole pages before being stored.
pub open spec fn page_round_up(span: int) -> int {
    if span % (PAGE_SIZE as int) == 0 {
        span
    } else {
        (span / (PAGE_SIZE as int)) * (PAGE_SIZE as int) + (PAGE_SIZE as int)
    }
}

/// Law (boundary rounding): for a positive requested span, the stored span
/// is the least whole number of pages that covers it; in particular a span
/// of exactly one page stays one page, and rounding never produces an empty
/// range.
pub proof fn lemma_page_round_up(span: int)
    requires
        0 < span,
    ensures
        page_round_up(span) % (PAGE_SIZE as int) == 0,
        span <= page_round_up(span) < span + PAGE_SIZE,
{
    let p = PAGE_SIZE as int;
    vstd::arithmetic::div_mod::lemma_fundamental_div_mod(span, p);
    if span % p != 0 {
        vstd::arithmetic::div_mod::lemma_mod_multiples_basic(span / p + 1, p);
        assert((span / p + 1) * p == (span / p) * p + p) by (nonlinear_arith);
    }
}

/// One mapping record: a contiguous virtual range `[addr, addr + span)`
/// backed by `source` starting at byte `source_offset` within it, guarded by
/// a set of permission flags.
pub struct MapEntry<D> {
    /// The backing source, shared with any other mapping of the same source.
    /// `None` marks the permanently reserved page-0 record, which no data
    /// source backs and no access ever reaches.
    pub source: Option<Arc<D>>,
    /// Where in the source the mapped range begins.
    pub offset: u64,
    /// The length of the mapped range in bytes, a whole number of pages.
    pub span: u64,
    /// The first virtual address of the mapped range, page-aligned.
    pub addr: u64,
    /// The permissions granted to accesses through this mapping.
    pub flags: FlagBuilder,
}

impl<D> MapEntry<D> {
    /// The first address past the mapped range.
    pub open spec fn end(self) -> int {
        self.addr + self.span
    }

    /// Whether the virtual address `a` falls inside the mapped range.
    pub open spec fn contains_addr(self, a: int) -> bool {
        self.addr <= a < self.end()
    }

    /// Well-formedness of a single record: page-aligned start and span, a
    /// non-empty range that fits below [`VADDR_MAX`], a source offset below
    /// [`VADDR_MAX`], and a flag set that passes the validity predicate.
    pub open spec fn wf(self) -> bool {
        &&& self.addr % PAGE_SIZE == 0
        &&& self.span % PAGE_SIZE == 0
        &&& self.span > 0
        &&& self.end() <= VADDR_MAX
        &&& self.offset < VADDR_MAX
        &&& self.flags.valid()
    }

    /// Create a mapping record backed by `source`.
    pub fn new(source: Arc<D>, offset: u64, span: u64, addr: u64, flags: FlagBuilder) -> (r: MapEntry<D>)
        ensures
            r == (MapEntry { source: Some(source), offset, span, addr, flags }),
    {
        MapEntry { source: Some(source), offset, span, addr, flags }
    }
}

/// An address space: an ordered sequence of mapping records, sorted by start
/// address, pairwise separated by at least one unmapped guard page, with
/// page 0 permanently reserved so that address 0 is never a valid user
/// mapping target.
///
/// The view of an address space is its sequence of mapping records.
pub struct AddressSpace<D> {
    /// A diagnostic name; it takes part in no invariant.
    name: String,
    /// The mapping records, sorted by `addr` ascending.
    mappings: Vec<MapEntry<D>>,
}

impl<D> View for AddressSpace<D> {
    type V = Seq<MapEntry<D>>;

    closed spec fn view(&self) -> Seq<MapEntry<D>> {
        self.mappings@
    }
}

impl<D> AddressSpace<D> {
    /// The record that keeps page 0 permanently reserved.
    pub open spec fn reserved_entry() -> MapEntry<D> {
        MapEntry {
            source: None,
            offset: 0,
            span: PAGE_SIZE,
            addr: 0,
            flags: FlagBuilder::spec_default(),
        }
    }

    /// The invariant of an address space: at least the reserved page-0
    /// record is present and stands first; every record is well-formed; only
    /// the page-0 record lacks a source; and any two records are separated
    /// by at least one guard page, so the sequence is sorted by start
    /// address and the mapped intervals are pairwise disjoint.
    pub open spec fn wf(self) -> bool {
        &&& self@.len() >= 1
        &&& self@[0] == Self::reserved_entry()
        &&& (forall|i: int| 0 <= i < self@.len() ==> (#[trigger] self@[i]).wf())
        &&& (forall|i: int| 1 <= i < self@.len() ==> (#[trigger] self@[i]).source is Some)
        &&& (forall|i: int, j: int| 0 <= i < j < self@.len()
            ==> (#[trigger] self@[i]).end() + PAGE_SIZE <= (#[trigger] self@[j]).addr)
    }

    /// Whether some stored record's range contains the address `a`.
    pub open spec fn has_mapping_for(self, a: int) -> bool {
        exists|i: int| 0 <= i < self@.len() && (#[trigger] self@[i]).contains_addr(a)
    }

    /// The index of the record whose range contains `a`; by
    /// [`AddressSpace::lemma_mapping_index_unique`] there is at most one.
    pub open spec fn mapping_index(self, a: int) -> int {
        choose|i: int| 0 <= i < self@.len() && (#[trigger] self@[i]).contains_addr(a)
    }

    /// Whether a rounded span of `span` bytes, placed one guard page past
    /// record `i`, fits in the gap that follows that record: before the next
    /// record less its guard page, or, after the last record, below
    /// [`VADDR_MAX`].
    pub open spec fn fits_after(self, i: int, span: int) -> bool
        recommends
            0 <= i < self@.len(),
    {
        let cand = self@[i].end() + PAGE_SIZE;
        if i == self@.len() - 1 {
            cand + span <= VADDR_MAX
        } else {
            cand + span + PAGE_SIZE <= self@[i + 1].addr
        }
    }

    /// The first record index at or after `i` whose following gap can hold a
    /// span of `span` bytes, scanning left to right.
    pub open spec fn first_fit_from(self, i: int, span: int) -> Option<int>
        recommends
            0 <= i <= self@.len(),
        decreases self@.len() - i,
    {
        if i >= self@.len() {
            None
        } else if self.fits_after(i, span) {
            Some(i)
        } else {
            self.first_fit_from(i + 1, span)
        }
    }

    /// The record index after which unconstrained placement puts a new
    /// mapping of `span` bytes: the first gap, scanned left to right, that
    /// can hold it.
    pub open spec fn first_fit_slot(self, span: int) -> Option<int> {
        self.first_fit_from(0, span)
    }

    /// Whether a record spanning `[start, start + span)` can stand beside
    /// every existing record with at least one guard page between them.
    pub open spec fn placement_clear(self, start: int, span: int) -> bool {
        forall|k: int| 0 <= k < self@.len()
            ==> (#[trigger] self@[k]).end() + PAGE_SIZE <= start || start + span + PAGE_SIZE <= self@[k].addr
    }

    /// The first record index at or after `i` whose start address lies past
    /// `start`.
    pub open spec fn insert_slot_from(self, i: int, start: int) -> int
        recommends
            0 <= i <= self@.len(),
        decreases self@.len() - i,
    {
        if i >= self@.len() {
            i
        } else if start < self@[i].addr {
            i
        } else {
            self.insert_slot_from(i + 1, start)
        }
    }

    /// The sorted position for a new record starting at `start`.
    pub open spec fn insert_slot(self, start: int) -> int {
        self.insert_slot_from(0, start)
    }

    /// Law (interval invariant): in a well-formed address space the stored
    /// mapping intervals are sorted by start address and pairwise disjoint —
    /// indeed pairwise separated by at least one guard page.
    pub proof fn lemma_mappings_sorted_disjoint(self)
        requires
            self.wf(),
        ensures
            forall|i: int, j: int| 0 <= i < j < self@.len()
                ==> (#[trigger] self@[i]).end() + PAGE_SIZE <= (#[trigger] self@[j]).addr,
    {
    }

    /// Law (page 0): a well-formed address space always holds the reserved
    /// record, first in the sequence: every address of page 0 is mapped,
    /// backed by no source, with every flag off — so, by the contract of
    /// [`AddressSpace::get_source_for_addr`], no access to it ever passes
    /// an access-type check.
    pub proof fn lemma_page_zero_reserved(self, a: int)
        requires
            self.wf(),
            0 <= a < PAGE_SIZE,
        ensures
            self@[0] == Self::reserved_entry(),
            self.has_mapping_for(a),
            self.mapping_index(a) == 0,
            self@[self.mapping_index(a)].source is None,
    {
        assert(self@[0].contains_addr(a));
        self.lemma_mapping_index_unique(0, a);
    }

    /// Law (resolution is unambiguous): an address inside record `i`'s range
    /// lies inside no other record's range, so resolving it finds exactly
    /// record `i`. Together with the contract of
    /// [`AddressSpace::add_mapping`] this gives the mapped half of the round
    /// trip: every address in a just-added span resolves to the record just
    /// added.
    pub proof fn lemma_mapping_index_unique(self, i: int, a: int)
        requires
            self.wf(),
            0 <= i < self@.len(),
            self@[i].contains_addr(a),
        ensures
            self.has_mapping_for(a),
            self.mapping_index(a) == i,
    {
        assert(self.has_mapping_for(a));
        let j = self.mapping_index(a);
        if j < i {
            assert(self@[j].end() + PAGE_SIZE <= self@[i].addr);
            assert(false);
        }
        if j > i {
            assert(self@[i].end() + PAGE_SIZE <= self@[j].addr);
            assert(false);
        }
    }

    /// Law (round trip, mapped half): in the state just after a record is
    /// inserted — as the contracts of [`AddressSpace::add_mapping`] and
    /// [`AddressSpace::add_mapping_at`] describe it — every address within
    /// the new record's span resolves to exactly that record, so the
    /// contract of [`AddressSpace::get_source_for_addr`] hands back its
    /// source and its in-source offset.
    pub proof fn lemma_inserted_record_resolves(self, grown: Self, j: int, e: MapEntry<D>, a: int)
        requires
            grown.wf(),
            0 <= j <= self@.len(),
            grown@ == self@.insert(j, e),
            e.contains_addr(a),
        ensures
            grown.has_mapping_for(a),
            grown.mapping_index(a) == j,
            grown@[j] == e,
    {
        self@.insert_ensures(j, e);
        grown.lemma_mapping_index_unique(j, a);
    }

    /// Law (removal unmaps the span): when record `i` is removed, every
    /// address of its range is left with no mapping at all, and the other
    /// records keep their addresses and spans. Together with the contract of
    /// [`AddressSpace::get_source_for_addr`] this gives the removed half of
    /// the round trip: such an address resolves to "unmapped", not to an
    /// error.
    pub proof fn lemma_removed_span_unmapped(self, removed: Self, i: int, a: int)
        requires
            self.wf(),
            0 <= i < self@.len(),
            removed@ == self@.remove(i),
            self@[i].contains_addr(a),
        ensures
            !removed.has_mapping_for(a),
    {
        self@.remove_ensures(i);
        assert forall|k: int| 0 <= k < removed@.len()
            implies !(#[trigger] removed@[k]).contains_addr(a) by {
            if k < i {
                assert(removed@[k] == self@[k]);
                assert(self@[k].end() + PAGE_SIZE <= self@[i].addr);
            } else {
                assert(removed@[k] == self@[k + 1]);
                assert(self@[i].end() + PAGE_SIZE <= self@[k + 1].addr);
            }
        }
    }

    /// A span too large for the address range fits after no record.
    proof fn lemma_no_fit_large(self, i: int, span: int)
        requires
            self.wf(),
            0 <= i <= self@.len(),
            span > VADDR_MAX,
        ensures
            self.first_fit_from(i, span) is None,
        decreases self@.len() - i,
    {
        if i < self@.len() {
            assert(self@[i].wf());
            if i + 1 < self@.len() {
                assert(self@[i + 1].wf());
            }
            assert(!self.fits_after(i, span));
            self.lemma_no_fit_large(i + 1, span);
        }
    }

    /// Removing a record other than the reserved page-0 one keeps the space
    /// well-formed: the guard-page separation of the remaining neighbours
    /// follows from the order of the records around the gap.
    proof fn lemma_remove_keeps_wf(self, removed: Self, i: int)
        requires
            self.wf(),
            1 <= i < self@.len(),
            removed@ == self@.remove(i),
        ensures
            removed.wf(),
    {
        self@.remove_ensures(i);
        assert(removed@[0] == self@[0]);
        assert forall|k: int, l: int| 0 <= k < l < removed@.len()
            implies (#[trigger] removed@[k]).end() + PAGE_SIZE <= (#[trigger] removed@[l]).addr by {
            let k0 = if k < i { k } else { k + 1 };
            let l0 = if l < i { l } else { l + 1 };
            assert(removed@[k] == self@[k0]);
            assert(removed@[l] == self@[l0]);
            assert(self@[k0].end() + PAGE_SIZE <= self@[l0].addr);
        }
    }

    /// In a well-formed space where a record spanning `[start, start +
    /// rounded)` stands at least one guard page clear of every record, a
    /// scan's slot — every record before it starting at or before `start`,
    /// the record at it, if any, starting past `start` — is the sorted
    /// position; it lies past the reserved page-0 record and has both
    /// neighbours at least one guard page away.
    proof fn lemma_fixed_placement(self, slot: int, start: int, rounded: int)
        requires
            self.wf(),
            0 <= start,
            0 < rounded,
            0 <= slot <= self@.len(),
            self.placement_clear(start, rounded),
            forall|k: int| 0 <= k < slot ==> (#[trigger] self@[k]).addr <= start,
            slot < self@.len() ==> start < self@[slot].addr,
            slot == self@.len() ==> forall|k: int| 0 <= k < self@.len()
                ==> (#[trigger] self@[k]).addr <= start,
        ensures
            1 <= slot,
            self.insert_slot(start) == slot,
            self@[slot - 1].end() + PAGE_SIZE <= start,
            slot < self@.len() ==> start + rounded + PAGE_SIZE <= self@[slot].addr,
    {
        assert(self@[0].addr == 0);
        assert(1 <= slot) by {
            if slot == 0 {
                assert(start < self@[0].addr);
            }
        }
        self.lemma_insert_slot_from_at(0, slot, start);
        let p = slot - 1;
        assert(self@[p].addr <= start);
        assert(self@[p].end() + PAGE_SIZE <= start
            || start + rounded + PAGE_SIZE <= self@[p].addr);
        if slot < self@.len() {
            assert(self@[slot].wf());
            assert(self@[slot].end() + PAGE_SIZE <= start
                || start + rounded + PAGE_SIZE <= self@[slot].addr);
        }
    }

    /// Inserting a well-formed, source-backed record that stands at least
    /// one guard page clear of both its neighbours keeps the space
    /// well-formed.
    proof fn lemma_insert_keeps_wf(self, grown: Self, j: int, e: MapEntry<D>)
        requires
            self.wf(),
            1 <= j <= self@.len(),
            grown@ == self@.insert(j, e),
            e.wf(),
            e.source is Some,
            self@[j - 1].end() + PAGE_SIZE <= e.addr,
            j < self@.len() ==> e.end() + PAGE_SIZE <= self@[j].addr,
        ensures
            grown.wf(),
    {
        self@.insert_ensures(j, e);
        assert(grown@[0] == self@[0]);
        assert forall|k: int, l: int| 0 <= k < l < grown@.len()
            implies (#[trigger] grown@[k]).end() + PAGE_SIZE <= (#[trigger] grown@[l]).addr by {
            if k == j {
                assert(grown@[k] == e);
                assert(grown@[l] == self@[l - 1]);
                if l - 1 > j {
                    assert(self@[j].end() + PAGE_SIZE <= self@[l - 1].addr);
                }
            } else if l == j {
                assert(grown@[l] == e);
                assert(grown@[k] == self@[k]);
                if k < j - 1 {
                    assert(self@[k].end() + PAGE_SIZE <= self@[j - 1].addr);
                }
            } else {
                let k0 = if k < j { k } else { k - 1 };
                let l0 = if l < j { l } else { l - 1 };
                assert(grown@[k] == self@[k0]);
                assert(grown@[l] == self@[l0]);
                assert(self@[k0].end() + PAGE_SIZE <= self@[l0].addr);
            }
        }
    }

    /// The sum of two page-aligned quantities is page-aligned.
    proof fn lemma_aligned_sum(a: int, b: int)
        requires
            a % (PAGE_SIZE as int) == 0,
            b % (PAGE_SIZE as int) == 0,
        ensures
            (a + b) % (PAGE_SIZE as int) == 0,
    {
        vstd::arithmetic::div_mod::lemma_add_mod_noop(a, b, PAGE_SIZE as int);
    }

    /// `insert_slot_from(i, start)` lands on `j` when every record in
    /// `[i, j)` starts at or before `start` and record `j`, if any, starts
    /// past it.
    proof fn lemma_insert_slot_from_at(self, i: int, j: int, start: int)
        requires
            0 <= i <= j <= self@.len(),
            forall|k: int| i <= k < j ==> (#[trigger] self@[k]).addr <= start,
            j < self@.len() ==> start < self@[j].addr,
        ensures
            self.insert_slot_from(i, start) == j,
        decreases j - i,
    {
        if i < j {
            assert(self@[i].addr <= start);
            self.lemma_insert_slot_from_at(i + 1, j, start);
        }
    }

    /// Create an address space with the given diagnostic name. It begins
    /// with page 0 reserved: a freshly constructed address space is never
    /// literally empty.
    pub fn new(name: &str) -> (r: Self)
        ensures
            r.wf(),
            r@ =~= seq![Self::reserved_entry()],
    {
        let mut mappings: Vec<MapEntry<D>> = Vec::new();
        mappings.push(MapEntry {
            source: None,
            offset: 0,
            span: PAGE_SIZE,
            addr: 0,
            flags: FlagBuilder::new(),
        });
        AddressSpace { name: name.to_string(), mappings }
    }

    /// Round `span` up to a whole number of pages; only whole pages are
    /// given out.
    fn round_span_up(span: u64) -> (r: u64)
        requires
            0 < span <= VADDR_MAX,
        ensures
            r == page_round_up(span as int),
            r % PAGE_SIZE == 0,
            span <= r < span + PAGE_SIZE,
    {
        proof {
            lemma_page_round_up(span as int);
        }
        if span % PAGE_SIZE == 0 {
            span
        } else {
            (span / PAGE_SIZE) * PAGE_SIZE + PAGE_SIZE
        }
    }

    /// Add a mapping from `source` into this address space, letting the
    /// space pick the placement: the span is rounded up to whole pages and
    /// the new record is put one guard page past the first existing record
    /// whose following gap can hold it, keeping the sequence sorted. The
    /// assigned start address is returned.
    ///
    /// The request is rejected before any mutation when the flag set fails
    /// its validity predicate (`InvalidFlags`, whatever the space holds),
    /// when the span is zero (`ZeroSpan` — a zero-length mapping could never
    /// be hit), or when no gap large enough exists below [`VADDR_MAX`]
    /// (`NoSpace`).
    pub fn add_mapping(&mut self, source: Arc<D>, offset: u64, span: u64, flags: FlagBuilder) -> (r: Result<u64, MapError>)
        requires
            old(self).wf(),
            offset < VADDR_MAX,
        ensures
            final(self).wf(),
            !flags.valid() ==> r == Err::<u64, MapError>(MapError::InvalidFlags)
                && final(self)@ == old(self)@,
            flags.valid() && span == 0 ==> r == Err::<u64, MapError>(MapError::ZeroSpan)
                && final(self)@ == old(self)@,
            flags.valid() && span > 0 ==> ({
                let rounded = page_round_up(span as int);
                let slot = old(self).first_fit_slot(rounded);
                &&& (slot is Some ==> ({
                    let i = slot->0;
                    let a = old(self)@[i].end() + PAGE_SIZE;
                    &&& r == Ok::<u64, MapError>(a as u64)
                    &&& final(self)@ == old(self)@.insert(
                        i + 1,
                        MapEntry {
                            source: Some(source),
                            offset,
                            span: rounded as u64,
                            addr: a as u64,
                            flags,
                        },
                    )
                }))
                &&& (slot is None ==> r == Err::<u64, MapError>(MapError::NoSpace)
                    && final(self)@ == old(self)@)
            }),
    {
        if !flags.is_valid() {
            return Err(MapError::InvalidFlags);
        }
        if span == 0 {
            return Err(MapError::ZeroSpan);
        }
        if span > VADDR_MAX {
            proof {
                lemma_page_round_up(span as int);
                old(self).lemma_no_fit_large(0, page_round_up(span as int));
            }
            return Err(MapError::NoSpace);
        }
        let rounded = Self::round_span_up(span);
        let n = self.mappings.len();
        let mut i: usize = 0;
        while i < n
            invariant
                self.wf(),
                self@ == old(self)@,
                n == self@.len(),
                i <= n,
                flags.valid(),
                0 < span,
                offset < VADDR_MAX,
                0 < rounded,
                rounded < VADDR_MAX + PAGE_SIZE,
                rounded % PAGE_SIZE == 0,
                rounded == page_round_up(span as int),
                old(self).first_fit_slot(rounded as int)
                    == old(self).first_fit_from(i as int, rounded as int),
            decreases n - i,
        {
            proof {
                assert(self@[i as int].wf());
                if i + 1 < n {
                    assert(self@[i as int + 1].wf());
                }
            }
            let m_addr = self.mappings[i].addr;
            let m_span = self.mappings[i].span;
            let cand = m_addr + m_span + PAGE_SIZE;
            let fits = if i == n - 1 {
                cand + rounded <= VADDR_MAX
            } else {
                cand + rounded + PAGE_SIZE <= self.mappings[i + 1].addr
            };
            if fits {
                proof {
                    assert(old(self).fits_after(i as int, rounded as int));
                    Self::lemma_aligned_sum(m_addr as int, m_span as int);
                    Self::lemma_aligned_sum(m_addr + m_span, PAGE_SIZE as int);
                    assert(cand % PAGE_SIZE == 0);
                    if i + 1 < n {
                        assert(self@[i as int + 1].addr <= self@[i as int + 1].end());
                        assert(cand + rounded <= VADDR_MAX);
                    }
                }
                let e = MapEntry::new(source, offset, rounded, cand, flags);
                let ghost ge = e;
                proof {
                    assert(ge.wf());
                }
                self.mappings.insert(i + 1, e);
                proof {
                    old(self).lemma_insert_keeps_wf(*self, i as int + 1, ge);
                }
                return Ok(cand);
            }
            proof {
                assert(!old(self).fits_after(i as int, rounded as int));
            }
            i = i + 1;
        }
        Err(MapError::NoSpace)
    }

    /// Add a mapping from `source` into this address space starting at the
    /// fixed, page-aligned address `start`: the span is rounded up to whole
    /// pages and the new record is inserted at its sorted position.
    ///
    /// The request is rejected before any mutation when the flag set fails
    /// its validity predicate (`InvalidFlags`), when `start` is not
    /// page-aligned (`Misaligned`), when the span is zero (`ZeroSpan`), when
    /// the rounded region does not fit below [`VADDR_MAX`] (`NoSpace`), or
    /// when it would come closer than one guard page to an existing record
    /// (`Overlap`) — the reserved page-0 record makes any `start` below two
    /// pages such an overlap.
    pub fn add_mapping_at(&mut self, source: Arc<D>, offset: u64, span: u64, start: u64, flags: FlagBuilder) -> (r: Result<(), MapError>)
        requires
            old(self).wf(),
            offset < VADDR_MAX,
        ensures
            final(self).wf(),
            !flags.valid() ==> r == Err::<(), MapError>(MapError::InvalidFlags)
                && final(self)@ == old(self)@,
            flags.valid() && start % PAGE_SIZE != 0
                ==> r == Err::<(), MapError>(MapError::Misaligned) && final(self)@ == old(self)@,
            flags.valid() && start % PAGE_SIZE == 0 && span == 0
                ==> r == Err::<(), MapError>(MapError::ZeroSpan) && final(self)@ == old(self)@,
            flags.valid() && start % PAGE_SIZE == 0 && span > 0 ==> ({
                let rounded = page_round_up(span as int);
                if start + rounded > VADDR_MAX {
                    r == Err::<(), MapError>(MapError::NoSpace) && final(self)@ == old(self)@
                } else if !old(self).placement_clear(start as int, rounded) {
                    r == Err::<(), MapError>(MapError::Overlap) && final(self)@ == old(self)@
                } else {
                    r == Ok::<(), MapError>(()) && final(self)@ == old(self)@.insert(
                        old(self).insert_slot(start as int),
                        MapEntry {
                            source: Some(source),
                            offset,
                            span: rounded as u64,
                            addr: start,
                            flags,
                        },
                    )
                }
            }),
    {
        if !flags.is_valid() {
            return Err(MapError::InvalidFlags);
        }
        if start % PAGE_SIZE != 0 {
            return Err(MapError::Misaligned);
        }
        if span == 0 {
            return Err(MapError::ZeroSpan);
        }
        if span > VADDR_MAX {
            proof {
                lemma_page_round_up(span as int);
            }
            return Err(MapError::NoSpace);
        }
        let rounded = Self::round_span_up(span);
        if rounded > VADDR_MAX || start > VADDR_MAX - rounded {
            return Err(MapError::NoSpace);
        }
        let n = self.mappings.len();
        let mut i: usize = 0;
        let mut slot: usize = n;
        while i < n
            invariant
                self.wf(),
                self@ == old(self)@,
                n == self@.len(),
                i <= n,
                flags.valid(),
                0 < span,
                offset < VADDR_MAX,
                start % PAGE_SIZE == 0,
                0 < rounded,
                rounded % PAGE_SIZE == 0,
                rounded == page_round_up(span as int),
                start + rounded <= VADDR_MAX,
                slot <= n,
                forall|k: int| 0 <= k < i
                    ==> (#[trigger] self@[k]).end() + PAGE_SIZE <= start
                        || start + rounded + PAGE_SIZE <= self@[k].addr,
                slot == n ==> forall|k: int| 0 <= k < i ==> (#[trigger] self@[k]).addr <= start,
                slot < n ==> ({
                    &&& slot < i
                    &&& start < self@[slot as int].addr
                    &&& forall|k: int| 0 <= k < slot ==> (#[trigger] self@[k]).addr <= start
                }),
            decreases n - i,
        {
            proof {
                assert(self@[i as int].wf());
            }
            let m_addr = self.mappings[i].addr;
            let m_span = self.mappings[i].span;
            let m_end = m_addr + m_span;
            if !(m_end + PAGE_SIZE <= start || start + rounded + PAGE_SIZE <= m_addr) {
                proof {
                    assert(!old(self).placement_clear(start as int, rounded as int));
                }
                return Err(MapError::Overlap);
            }
            if slot == n && start < m_addr {
                slot = i;
            }
            i = i + 1;
        }
        proof {
            assert(old(self).placement_clear(start as int, rounded as int));
            old(self).lemma_fixed_placement(slot as int, start as int, rounded as int);
        }
        let e = MapEntry::new(source, offset, rounded, start, flags);
        let ghost ge = e;
        proof {
            assert(ge.wf());
        }
        self.mappings.insert(slot, e);
        proof {
            old(self).lemma_insert_keeps_wf(*self, slot as int, ge);
        }
        Ok(())
    }

    /// Look up the data source, and the byte offset within that source, that
    /// back the virtual address `addr`, checking the requested `access_type`
    /// against the flags granted to the mapping.
    ///
    /// Exactly one of three outcomes holds:
    /// - `Ok(Some((source, offset)))` when a mapping contains `addr` and
    ///   grants the access; `offset` is the mapping's stored source offset
    ///   plus the distance of `addr` from the mapping's start — the stored
    ///   offset anchors where in the source the mapping begins;
    /// - `Err(PermissionDenied)` when a mapping contains `addr` but the
    ///   access exceeds its granted flags — every access to the reserved
    ///   page 0 ends here;
    /// - `Ok(None)` when no mapping contains `addr`: an unmapped address is
    ///   a legitimate outcome the caller must handle, not an error.
    pub fn get_source_for_addr(&self, addr: u64, access_type: FlagBuilder) -> (r: Result<Option<(Arc<D>, u64)>, MapError>)
        requires
            self.wf(),
        ensures
            self.has_mapping_for(addr as int) ==> ({
                let m = self@[self.mapping_index(addr as int)];
                if m.source is Some && m.flags.grants(access_type) {
                    r == Ok::<Option<(Arc<D>, u64)>, MapError>(
                        Some((m.source->0, (m.offset + addr - m.addr) as u64)),
                    )
                } else {
                    r == Err::<Option<(Arc<D>, u64)>, MapError>(MapError::PermissionDenied)
                }
            }),
            !self.has_mapping_for(addr as int)
                ==> r == Ok::<Option<(Arc<D>, u64)>, MapError>(None),
            addr < PAGE_SIZE
                ==> r == Err::<Option<(Arc<D>, u64)>, MapError>(MapError::PermissionDenied),
    {
        let n = self.mappings.len();
        let mut i: usize = 0;
        while i < n
            invariant
                self.wf(),
                n == self@.len(),
                i <= n,
                forall|k: int| 0 <= k < i ==> !(#[trigger] self@[k]).contains_addr(addr as int),
            decreases n - i,
        {
            let m = &self.mappings[i];
            proof {
                assert(self@[i as int].wf());
            }
            if m.addr <= addr && addr < m.addr + m.span {
                proof {
                    self.lemma_mapping_index_unique(i as int, addr as int);
                }
                match &m.source {
                    None => {
                        return Err(MapError::PermissionDenied);
                    },
                    Some(s) => {
                        if m.flags.check_access_perms(access_type) {
                            return Ok(Some((s.clone(), m.offset + (addr - m.addr))));
                        } else {
                            return Err(MapError::PermissionDenied);
                        }
                    },
                }
            }
            i = i + 1;
        }
        proof {
            if addr < PAGE_SIZE {
                assert(self@[0].contains_addr(addr as int));
            }
        }
        Ok(None)
    }

}

impl<D: SourceIdentity> AddressSpace<D> {
    /// Whether record `i` is the one that removing the mapping of the source
    /// with identity `id` at address `start` takes out: it starts at `start`
    /// and is backed by that same source instance.
    pub open spec fn is_removal_match(self, i: int, id: int, start: int) -> bool {
        &&& 0 <= i < self@.len()
        &&& self@[i].addr == start
        &&& self@[i].source is Some
        &&& (*self@[i].source->0).spec_id() == id
    }

    /// Whether some record matches a removal of the source with identity
    /// `id` at address `start`.
    pub open spec fn has_removal_match(self, id: int, start: int) -> bool {
        exists|i: int| self.is_removal_match(i, id, start)
    }

    /// The index of the record that a matching removal takes out.
    pub open spec fn removal_index(self, id: int, start: int) -> int {
        choose|i: int| self.is_removal_match(i, id, start)
    }

    /// Law (removal is unambiguous): at most one record matches a removal —
    /// start addresses are unique in a well-formed space.
    pub proof fn lemma_removal_match_unique(self, i: int, j: int, id: int, start: int)
        requires
            self.wf(),
            self.is_removal_match(i, id, start),
            self.is_removal_match(j, id, start),
        ensures
            i == j,
    {
        if i < j {
            assert(self@[i].end() + PAGE_SIZE <= self@[j].addr);
            assert(self@[i].wf());
            assert(false);
        }
        if j < i {
            assert(self@[j].end() + PAGE_SIZE <= self@[i].addr);
            assert(self@[j].wf());
            assert(false);
        }
    }

    /// Remove the mapping that starts at `start` and is backed by the very
    /// source instance `source` — identity, not content equality: the record
    /// goes only when its source carries the same identifier.
    ///
    /// On success the record is taken out and every other record keeps its
    /// address and span; when no record matches, the space is left unchanged
    /// and the result is the not-found error. The reserved page-0 record is
    /// backed by no source, so no removal ever matches it.
    pub fn remove_mapping(&mut self, source: Arc<D>, start: u64) -> (r: Result<(), MapError>)
        requires
            old(self).wf(),
        ensures
            final(self).wf(),
            old(self).has_removal_match((*source).spec_id(), start as int) ==> ({
                &&& r == Ok::<(), MapError>(())
                &&& final(self)@ == old(self)@.remove(
                    old(self).removal_index((*source).spec_id(), start as int),
                )
            }),
            !old(self).has_removal_match((*source).spec_id(), start as int) ==> ({
                &&& r == Err::<(), MapError>(MapError::NotFound)
                &&& final(self)@ == old(self)@
            }),
    {
        let n = self.mappings.len();
        let mut i: usize = 0;
        while i < n
            invariant
                self.wf(),
                self@ == old(self)@,
                n == self@.len(),
                i <= n,
                forall|k: int| 0 <= k < i
                    ==> !old(self).is_removal_match(k, (*source).spec_id(), start as int),
            decreases n - i,
        {
            let m = &self.mappings[i];
            if m.addr == start {
                match &m.source {
                    Some(s) => {
                        if s.source_id() == source.source_id() {
                            proof {
                                let ghost id = (*source).spec_id();
                                assert(old(self).is_removal_match(i as int, id, start as int));
                                let ghost j = old(self).removal_index(id, start as int);
                                old(self).lemma_removal_match_unique(i as int, j, id, start as int);
                            }
                            self.mappings.remove(i);
                            proof {
                                old(self).lemma_remove_keeps_wf(*self, i as int);
                            }
                            return Ok(());
                        }
                    },
                    None => {},
                }
            }
            i = i + 1;
        }
        Err(MapError::NotFound)
    }
}

} // verus!
