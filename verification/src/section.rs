//! The section table: the lookup capability that turns a relative virtual
//! address (RVA) into a position in the file's raw bytes.

use vstd::prelude::*;
use vstd::slice::slice_subrange;

verus! {

/// One section of a PE image: where it sits in the mapped image
/// (`virtual_address`) and where its raw bytes sit in the file
/// (`pointer_to_raw_data`, `size_of_raw_data`).
#[derive(Debug, Clone, Copy, PartialEq, Eq, Structural)]
pub struct Section {
    pub virtual_address: u32,
    pub pointer_to_raw_data: u32,
    pub size_of_raw_data: u32,
}

/// Whether `rva` falls in the virtual range covered by `sec`.
///
/// The end of the range is inclusive: an address just past the section's last
/// byte still resolves to the section (with an empty remainder), mirroring how
/// PE readers slice the tail of a section's data.
pub open spec fn section_contains_rva(sec: Section, rva: u32) -> bool {
    sec.virtual_address <= rva <= sec.virtual_address + sec.size_of_raw_data
}

/// With a known file size, only sections whose raw bytes lie wholly inside the
/// file take part in lookups; a truncated section cannot back any directory.
pub open spec fn section_eligible(sec: Section, file_size_if_known: Option<u64>) -> bool {
    match file_size_if_known {
        None => true,
        Some(fs) => sec.pointer_to_raw_data + sec.size_of_raw_data <= fs,
    }
}

/// The first section, in table order, that is eligible and contains `rva`.
pub open spec fn first_section_at(
    sections: Seq<Section>,
    file_size_if_known: Option<u64>,
    rva: u32,
) -> Option<Section>
    decreases sections.len(),
{
    if sections.len() == 0 {
        None
    } else if section_eligible(sections[0], file_size_if_known)
        && section_contains_rva(sections[0], rva) {
        Some(sections[0])
    } else {
        first_section_at(sections.drop_first(), file_size_if_known, rva)
    }
}

/// The file-backed bytes of `sec` from `rva` to the section's end, if the
/// section's raw range lies inside `data` and `rva` lies inside the section.
pub open spec fn section_pe_data_at(data: Seq<u8>, sec: Section, rva: u32) -> Option<Seq<u8>> {
    if sec.pointer_to_raw_data + sec.size_of_raw_data <= data.len()
        && section_contains_rva(sec, rva) {
        Some(data.subrange(
            sec.pointer_to_raw_data + (rva - sec.virtual_address),
            sec.pointer_to_raw_data + sec.size_of_raw_data,
        ))
    } else {
        None
    }
}

/// The remainder of the first section that yields file-backed bytes for `rva`.
pub open spec fn spec_pe_data_at(data: Seq<u8>, sections: Seq<Section>, rva: u32) -> Option<
    Seq<u8>,
>
    decreases sections.len(),
{
    if sections.len() == 0 {
        None
    } else {
        match section_pe_data_at(data, sections[0], rva) {
            Some(bytes) => Some(bytes),
            None => spec_pe_data_at(data, sections.drop_first(), rva),
        }
    }
}

/// A successful lookup returns a section that is eligible and contains the
/// looked-up address.
pub proof fn lemma_first_section_at_found(
    sections: Seq<Section>,
    file_size_if_known: Option<u64>,
    rva: u32,
)
    requires
        first_section_at(sections, file_size_if_known, rva) is Some,
    ensures
        section_eligible(first_section_at(sections, file_size_if_known, rva)->Some_0, file_size_if_known),
        section_contains_rva(first_section_at(sections, file_size_if_known, rva)->Some_0, rva),
    decreases sections.len(),
{
    if sections.len() == 0 {
    } else if section_eligible(sections[0], file_size_if_known)
        && section_contains_rva(sections[0], rva) {
    } else {
        lemma_first_section_at_found(sections.drop_first(), file_size_if_known, rva);
    }
}

/// When no section contains `rva` at all, no section can yield file-backed
/// bytes for it either.
pub proof fn lemma_no_section_no_data(data: Seq<u8>, sections: Seq<Section>, rva: u32)
    requires
        first_section_at(sections, None, rva) is None,
    ensures
        spec_pe_data_at(data, sections, rva) is None,
    decreases sections.len(),
{
    if sections.len() == 0 {
    } else {
        lemma_no_section_no_data(data, sections.drop_first(), rva);
    }
}

/// An ordered table of sections, searched front to back.
#[derive(Debug)]
pub struct SectionTable {
    sections: Vec<Section>,
}

impl View for SectionTable {
    type V = Seq<Section>;

    closed spec fn view(&self) -> Seq<Section> {
        self.sections@
    }
}

impl SectionTable {
    /// Builds a table holding `sections` in the given order.
    pub fn new(sections: Vec<Section>) -> (r: SectionTable)
        ensures
            r@ == sections@,
    {
        SectionTable { sections }
    }

    /// The number of sections.
    pub fn len(&self) -> (r: usize)
        ensures
            r == self@.len(),
    {
        self.sections.len()
    }

    /// Returns the first section containing the virtual address `rva`; with a
    /// known file size, sections whose raw bytes overrun the file are skipped.
    pub fn section_at(&self, file_size_if_known: Option<u64>, rva: u32) -> (r: Option<Section>)
        ensures
            r == first_section_at(self@, file_size_if_known, rva),
    {
        let n = self.sections.len();
        let mut i: usize = 0;
        proof {
            assert(self@.skip(0) =~= self@);
        }
        while i < n
            invariant
                i <= n,
                n == self@.len(),
                first_section_at(self@, file_size_if_known, rva) == first_section_at(
                    self@.skip(i as int),
                    file_size_if_known,
                    rva,
                ),
            decreases n - i,
        {
            let sec = self.sections[i];
            let eligible = match file_size_if_known {
                None => true,
                Some(fs) => sec.pointer_to_raw_data as u64 + sec.size_of_raw_data as u64 <= fs,
            };
            proof {
                assert(self@.skip(i as int)[0] == self@[i as int]);
            }
            if eligible && sec.virtual_address <= rva
                && rva - sec.virtual_address <= sec.size_of_raw_data {
                return Some(sec);
            }
            proof {
                assert(self@.skip(i as int).drop_first() =~= self@.skip(i as int + 1));
            }
            i = i + 1;
        }
        None
    }

    /// Resolves `rva` to the remainder of its containing section's file-backed
    /// bytes: the first section whose raw range lies inside `data` and whose
    /// virtual range contains `rva` yields its bytes from `rva` to its end.
    pub fn pe_data_at<'a>(&self, data: &'a [u8], rva: u32) -> (r: Option<&'a [u8]>)
        ensures
            r is Some <==> spec_pe_data_at(data@, self@, rva) is Some,
            r matches Some(bytes) ==> bytes@ == spec_pe_data_at(data@, self@, rva)->Some_0,
    {
        let n = self.sections.len();
        let mut i: usize = 0;
        proof {
            assert(self@.skip(0) =~= self@);
        }
        while i < n
            invariant
                i <= n,
                n == self@.len(),
                spec_pe_data_at(data@, self@, rva) == spec_pe_data_at(
                    data@,
                    self@.skip(i as int),
                    rva,
                ),
            decreases n - i,
        {
            let sec = self.sections[i];
            proof {
                assert(self@.skip(i as int)[0] == self@[i as int]);
            }
            let ptr = sec.pointer_to_raw_data as usize;
            let raw_size = sec.size_of_raw_data as usize;
            if ptr <= data.len() && raw_size <= data.len() - ptr && sec.virtual_address <= rva
                && rva - sec.virtual_address <= sec.size_of_raw_data {
                let off = (rva - sec.virtual_address) as usize;
                return Some(slice_subrange(data, ptr + off, ptr + raw_size));
            }
            proof {
                assert(self@.skip(i as int).drop_first() =~= self@.skip(i as int + 1));
            }
            i = i + 1;
        }
        None
    }
}

} // verus!
