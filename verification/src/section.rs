//! Sections of the traced process's address space and the table of those
//! that are live.

use vstd::prelude::*;

verus! {

/// A contiguous readable, writable and executable region of the traced
/// process. Its length is fixed when it is created.
#[derive(Clone, Copy, Debug, PartialEq, Eq, Structural)]
pub struct MemorySection {
    /// Address of the first byte.
    pub base: u64,
    /// Length in bytes.
    pub length: u32,
    /// Whether the region is kept apart from every other section.
    pub isolated: bool,
}

impl MemorySection {
    /// Address of the first byte.
    pub open spec fn start(self) -> int {
        self.base as int
    }

    /// Address right behind the last byte.
    pub open spec fn end(self) -> int {
        self.base + self.length
    }

    /// A section is not empty, does not start at the null address and
    /// ends within the address space.
    pub open spec fn wf(self) -> bool {
        &&& self.base != 0
        &&& self.length > 0
        &&& self.end() <= u64::MAX
    }

    /// Whether the byte at `address` belongs to the section.
    pub open spec fn holds(self, address: int) -> bool {
        self.start() <= address < self.end()
    }

    /// Whether an access of `length` bytes at `address` starts inside the
    /// section and does not run past its end.
    pub open spec fn covers(self, address: int, length: int) -> bool {
        self.holds(address) && address + length <= self.end()
    }

    /// Whether the two sections share a byte.
    pub open spec fn overlaps(self, other: MemorySection) -> bool {
        self.start() < other.end() && other.start() < self.end()
    }

    /// Whether the two sections share a byte or lie back to back.
    pub open spec fn touches(self, other: MemorySection) -> bool {
        self.start() <= other.end() && other.start() <= self.end()
    }

    /// Whether the two sections may be live together: they share no byte,
    /// and if either is isolated they do not even lie back to back.
    pub open spec fn compatible(self, other: MemorySection) -> bool {
        if self.isolated || other.isolated {
            !self.touches(other)
        } else {
            !self.overlaps(other)
        }
    }

    /// Whether base, length and address range make up a section.
    pub fn is_wf(&self) -> (ok: bool)
        ensures
            ok == self.wf(),
    {
        self.base != 0 && self.length > 0 && self.length as u64 <= u64::MAX - self.base
    }

    /// Address right behind the last byte.
    pub fn end_address(&self) -> (end: u64)
        requires
            self.wf(),
        ensures
            end == self.end(),
    {
        self.base + self.length as u64
    }

    /// Whether an access of `length` bytes at `address` lies in the section.
    pub fn covers_access(&self, address: u64, length: u64) -> (ok: bool)
        requires
            self.wf(),
        ensures
            ok == self.covers(address as int, length as int),
    {
        let end: u64 = self.end_address();
        self.base <= address && address < end && length <= end - address
    }

    /// Whether the two sections may be live together.
    pub fn is_compatible(&self, other: &MemorySection) -> (ok: bool)
        requires
            self.wf(),
            other.wf(),
        ensures
            ok == self.compatible(*other),
    {
        let self_end: u64 = self.end_address();
        let other_end: u64 = other.end_address();
        if self.isolated || other.isolated {
            self_end < other.base || other_end < self.base
        } else {
            self_end <= other.base || other_end <= self.base
        }
    }
}

/// Layout of the mapping that backs a section: whole pages, with one
/// guard page before and one behind the section if it is isolated.
#[derive(Clone, Copy, Debug, PartialEq, Eq, Structural)]
pub struct Mapping {
    /// Bytes to map, guard pages included.
    pub span: u64,
    /// Offset of the section's first byte within the mapping.
    pub offset: u64,
}

/// Bytes of the whole pages that hold `length` bytes.
pub open spec fn paged(length: int, page: int) -> int {
    (length + page - 1) / page * page
}

/// The mapping that backs a section of `length` bytes with pages of `page`
/// bytes.
pub open spec fn mapping_for(length: u32, isolated: bool, page: u32) -> Mapping {
    if isolated {
        Mapping { span: (paged(length as int, page as int) + 2 * page) as u64, offset: page as u64 }
    } else {
        Mapping { span: paged(length as int, page as int) as u64, offset: 0 }
    }
}

/// Computes the mapping that backs a section. The section fits into it
/// behind the offset, and an isolated one leaves a page free at either end.
pub fn mapping_of(length: u32, isolated: bool, page: u32) -> (mapping: Mapping)
    requires
        page > 0,
    ensures
        mapping == mapping_for(length, isolated, page),
        mapping.span == paged(length as int, page as int) + 2 * mapping.offset,
        length <= paged(length as int, page as int) < length + page,
        mapping.offset + length + mapping.offset <= mapping.span,
{
    let size: u64 = page as u64;
    let count: u64 = (length as u64 + size - 1) / size;
    assert(count * size <= length + size - 1 && count * size > length - 1) by (nonlinear_arith)
        requires
            size > 0,
            count == (length + size - 1) / (size as int),
    ;
    let whole: u64 = count * size;
    if isolated {
        Mapping { span: whole + 2 * size, offset: size }
    } else {
        Mapping { span: whole, offset: 0 }
    }
}

/// Whether every section of `sections` is well formed and any two of them
/// may be live together.
pub open spec fn consistent(sections: Seq<MemorySection>) -> bool {
    &&& forall|i: int| 0 <= i < sections.len() ==> (#[trigger] sections[i]).wf()
    &&& forall|i: int, j: int|
        0 <= i < sections.len() && 0 <= j < sections.len() && i != j ==> (#[trigger] sections[i]).compatible(
            #[trigger] sections[j],
        )
}

/// Whether `candidate` may join `sections`: it is well formed and may be
/// live together with each of them.
pub open spec fn admissible(sections: Seq<MemorySection>, candidate: MemorySection) -> bool {
    &&& candidate.wf()
    &&& forall|i: int| 0 <= i < sections.len() ==> (#[trigger] sections[i]).compatible(candidate)
}

/// Whether a section with this base and length is among `sections`.
pub open spec fn is_live(sections: Seq<MemorySection>, base: u64, length: u32) -> bool {
    exists|i: int|
        0 <= i < sections.len() && (#[trigger] sections[i]).base == base && sections[i].length
            == length
}

/// Whether one of `sections` covers the access of `length` bytes at
/// `address`.
pub open spec fn is_covered(sections: Seq<MemorySection>, address: u64, length: u64) -> bool {
    exists|i: int|
        0 <= i < sections.len() && (#[trigger] sections[i]).covers(address as int, length as int)
}

/// The live sections of one engine.
pub struct SectionTable {
    sections: Vec<MemorySection>,
}

impl View for SectionTable {
    type V = Seq<MemorySection>;

    closed spec fn view(&self) -> Seq<MemorySection> {
        self.sections@
    }
}

impl SectionTable {
    /// The live sections are well formed and pairwise compatible.
    pub open spec fn wf(&self) -> bool {
        consistent(self@)
    }

    /// A table without sections.
    pub fn new() -> (table: SectionTable)
        ensures
            table@ == Seq::<MemorySection>::empty(),
            table.wf(),
    {
        SectionTable { sections: Vec::new() }
    }

    /// Number of live sections.
    pub fn len(&self) -> (count: usize)
        ensures
            count == self@.len(),
    {
        self.sections.len()
    }

    /// The live section with the given index.
    pub fn get(&self, index: usize) -> (section: MemorySection)
        requires
            index < self@.len(),
        ensures
            section == self@[index as int],
    {
        self.sections[index]
    }

    /// Whether `candidate` may join the live sections.
    pub fn admits(&self, candidate: &MemorySection) -> (ok: bool)
        requires
            self.wf(),
        ensures
            ok == admissible(self@, *candidate),
    {
        if !candidate.is_wf() {
            return false;
        }
        let mut i: usize = 0;
        while i < self.sections.len()
            invariant
                i <= self.sections.len(),
                self.wf(),
                candidate.wf(),
                forall|k: int| 0 <= k < i ==> (#[trigger] self@[k]).compatible(*candidate),
            decreases self.sections.len() - i,
        {
            if !self.sections[i].is_compatible(candidate) {
                return false;
            }
            i += 1;
        }
        true
    }

    /// Adds a section that the table admits.
    pub fn insert(&mut self, section: MemorySection)
        requires
            old(self).wf(),
            admissible(old(self)@, section),
        ensures
            final(self)@ == old(self)@.push(section),
            final(self).wf(),
    {
        self.sections.push(section);
        proof {
            lemma_push_consistent(old(self)@, section);
        }
    }

    /// Index of the live section with this base and length, if there is one.
    pub fn position(&self, base: u64, length: u32) -> (found: Option<usize>)
        ensures
            found matches Some(i) ==> i < self@.len() && self@[i as int].base == base
                && self@[i as int].length == length,
            found is Some <==> is_live(self@, base, length),
    {
        let mut i: usize = 0;
        while i < self.sections.len()
            invariant
                i <= self.sections.len(),
                forall|k: int|
                    0 <= k < i ==> !((#[trigger] self@[k]).base == base && self@[k].length
                        == length),
            decreases self.sections.len() - i,
        {
            if self.sections[i].base == base && self.sections[i].length == length {
                return Some(i);
            }
            i += 1;
        }
        None
    }

    /// Index of the live section that covers the access, if there is one.
    pub fn locate(&self, address: u64, length: u64) -> (found: Option<usize>)
        requires
            self.wf(),
        ensures
            found matches Some(i) ==> i < self@.len() && self@[i as int].covers(
                address as int,
                length as int,
            ),
            found is Some <==> is_covered(self@, address, length),
    {
        let mut i: usize = 0;
        while i < self.sections.len()
            invariant
                i <= self.sections.len(),
                self.wf(),
                forall|k: int|
                    0 <= k < i ==> !(#[trigger] self@[k]).covers(address as int, length as int),
            decreases self.sections.len() - i,
        {
            if self.sections[i].covers_access(address, length) {
                return Some(i);
            }
            i += 1;
        }
        None
    }

    /// Takes the section with the given index out of the table. The others
    /// keep their order.
    pub fn remove(&mut self, index: usize) -> (section: MemorySection)
        requires
            old(self).wf(),
            index < old(self)@.len(),
        ensures
            section == old(self)@[index as int],
            final(self)@ == old(self)@.remove(index as int),
            final(self).wf(),
    {
        let section = self.sections.remove(index);
        proof {
            lemma_remove_consistent(old(self)@, index as int);
        }
        section
    }

    /// Drops every section.
    pub fn clear(&mut self)
        ensures
            final(self)@ == Seq::<MemorySection>::empty(),
            final(self).wf(),
    {
        self.sections.clear();
    }
}

/// Compatibility does not depend on the order of the two sections.
pub proof fn lemma_compatible_symmetric(a: MemorySection, b: MemorySection)
    ensures
        a.compatible(b) == b.compatible(a),
{
}

/// Compatible sections share no byte.
pub proof fn lemma_compatible_disjoint(a: MemorySection, b: MemorySection, address: int)
    requires
        a.compatible(b),
    ensures
        !(a.holds(address) && b.holds(address)),
{
}

/// A consistent table stays consistent when an admissible section joins.
pub proof fn lemma_push_consistent(sections: Seq<MemorySection>, candidate: MemorySection)
    requires
        consistent(sections),
        admissible(sections, candidate),
    ensures
        consistent(sections.push(candidate)),
{
    let grown = sections.push(candidate);
    assert forall|i: int, j: int|
        0 <= i < grown.len() && 0 <= j < grown.len() && i != j implies (#[trigger] grown[i]).compatible(
        #[trigger] grown[j],
    ) by {
        if i < sections.len() && j < sections.len() {
            assert(sections[i].compatible(sections[j]));
        } else if i < sections.len() {
            assert(sections[i].compatible(candidate));
        } else {
            assert(sections[j].compatible(candidate));
            lemma_compatible_symmetric(sections[j], candidate);
        }
    }
}

/// A consistent table stays consistent when a section leaves.
pub proof fn lemma_remove_consistent(sections: Seq<MemorySection>, index: int)
    requires
        consistent(sections),
        0 <= index < sections.len(),
    ensures
        consistent(sections.remove(index)),
{
    let rest = sections.remove(index);
    assert forall|i: int| 0 <= i < rest.len() implies (#[trigger] rest[i]).wf() by {
        let from = if i < index { i } else { i + 1 };
        assert(rest[i] == sections[from]);
    }
    assert forall|i: int, j: int|
        0 <= i < rest.len() && 0 <= j < rest.len() && i != j implies (#[trigger] rest[i]).compatible(
        #[trigger] rest[j],
    ) by {
        let from_i = if i < index { i } else { i + 1 };
        let from_j = if j < index { j } else { j + 1 };
        assert(rest[i] == sections[from_i]);
        assert(rest[j] == sections[from_j]);
        assert(sections[from_i].compatible(sections[from_j]));
    }
}

} // verus!
