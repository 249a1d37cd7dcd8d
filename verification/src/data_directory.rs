//! The data directory table and the translation of its entries to file
//! offsets.

use vstd::prelude::*;
use vstd::slice::slice_subrange;

use crate::section::first_section_at;
use crate::section::Section;
use crate::section::spec_pe_data_at;
use crate::section::lemma_first_section_at_found;
use crate::section::lemma_no_section_no_data;
use crate::section::SectionTable;

verus! {

/// Why a table parse or an address translation was refused.
#[derive(Debug, Clone, Copy, PartialEq, Eq, Structural)]
pub enum PeError {
    /// Fewer directory entries fit in the given bytes than were requested.
    InvalidNumberOfRvaAndSizes,
    /// No section contains the directory's virtual address.
    NoValidSection,
    /// Translating the directory's addresses would overflow 32 bits.
    InvalidDirectoryAddresses,
    /// The directory's virtual address maps to no file-backed bytes.
    InvalidDataDirVirtualAddress,
    /// The file-backed bytes at the directory's address are fewer than its size.
    InvalidDataDirSize,
}

impl PeError {
    /// A short description of the failure.
    pub fn message(&self) -> (r: &'static str)
        ensures
            r@ == match *self {
                PeError::InvalidNumberOfRvaAndSizes => "Invalid PE number of RVA and sizes"@,
                PeError::NoValidSection => "This directory does not point to a valid section"@,
                PeError::InvalidDirectoryAddresses => "Invalid directory addresses"@,
                PeError::InvalidDataDirVirtualAddress => "Invalid data dir virtual address"@,
                PeError::InvalidDataDirSize => "Invalid data dir size"@,
            },
    {
        match *self {
            PeError::InvalidNumberOfRvaAndSizes => "Invalid PE number of RVA and sizes",
            PeError::NoValidSection => "This directory does not point to a valid section",
            PeError::InvalidDirectoryAddresses => "Invalid directory addresses",
            PeError::InvalidDataDirVirtualAddress => "Invalid data dir virtual address",
            PeError::InvalidDataDirSize => "Invalid data dir size",
        }
    }
}

/// One data directory entry: the virtual address and size of a well-known
/// sub-structure of the image. A zero virtual address means the directory is
/// absent.
#[derive(Debug, Clone, Copy, PartialEq, Eq, Structural)]
pub struct ImageDataDirectory {
    pub virtual_address: u32,
    pub size: u32,
}

/// The 32-bit little-endian value at byte offset `off` of `data`.
pub open spec fn le_u32_at(data: Seq<u8>, off: int) -> u32 {
    (data[off] as u32) | ((data[off + 1] as u32) << 8) | ((data[off + 2] as u32) << 16) | ((data[off
        + 3] as u32) << 24)
}

/// The directory entry stored in the `i`th 8-byte record of `data`.
pub open spec fn spec_entry_at(data: Seq<u8>, i: int) -> ImageDataDirectory {
    ImageDataDirectory {
        virtual_address: le_u32_at(data, 8 * i),
        size: le_u32_at(data, 8 * i + 4),
    }
}

/// The first `number` directory entries stored in `data`, in file order.
pub open spec fn spec_parse_entries(data: Seq<u8>, number: int) -> Seq<ImageDataDirectory> {
    Seq::new(number as nat, |i: int| spec_entry_at(data, i))
}

/// What `file_range` returns: the entry's virtual address range shifted into
/// file offsets by the first section containing its virtual address, or the
/// error that stops the translation.
pub open spec fn spec_file_range(d: ImageDataDirectory, sections: Seq<Section>) -> Result<
    (u32, u32),
    PeError,
> {
    match first_section_at(sections, None, d.virtual_address) {
        None => Err(PeError::NoValidSection),
        Some(sec) => {
            let start = d.virtual_address - sec.virtual_address + sec.pointer_to_raw_data;
            if start + d.size <= u32::MAX {
                Ok(((start as u32), ((start + d.size) as u32)))
            } else {
                Err(PeError::InvalidDirectoryAddresses)
            }
        },
    }
}

/// What `data` returns: the first `size` file-backed bytes at the entry's
/// virtual address, or the error that stops the resolution.
pub open spec fn spec_data(d: ImageDataDirectory, data: Seq<u8>, sections: Seq<Section>) -> Result<
    Seq<u8>,
    PeError,
> {
    match spec_pe_data_at(data, sections, d.virtual_address) {
        None => Err(PeError::InvalidDataDirVirtualAddress),
        Some(bytes) => if d.size <= bytes.len() {
            Ok(bytes.subrange(0, d.size as int))
        } else {
            Err(PeError::InvalidDataDirSize)
        },
    }
}

/// Reads the 32-bit little-endian value at byte offset `off` of `data`.
fn read_u32_le(data: &[u8], off: usize) -> (r: u32)
    requires
        off + 4 <= data@.len(),
    ensures
        r == le_u32_at(data@, off as int),
{
    let b0 = data[off];
    let b1 = data[off + 1];
    let b2 = data[off + 2];
    let b3 = data[off + 3];
    (b0 as u32) | ((b1 as u32) << 8) | ((b2 as u32) << 16) | ((b3 as u32) << 24)
}

impl ImageDataDirectory {
    /// Return the virtual address range of this directory entry, unvalidated.
    pub fn address_range(&self) -> (r: (u32, u32))
        ensures
            r.0 == self.virtual_address,
            r.1 == self.size,
    {
        (self.virtual_address, self.size)
    }

    /// Return the file offset range of this directory entry: its virtual
    /// address range shifted by the containing section's raw-data offset.
    ///
    /// Fails when no section contains the entry's virtual address, and when
    /// the translation would overflow 32 bits.
    pub fn file_range(&self, sections: &SectionTable) -> (r: Result<(u32, u32), PeError>)
        ensures
            r == spec_file_range(*self, sections@),
    {
        let start_section = match sections.section_at(None, self.virtual_address) {
            None => {
                return Err(PeError::NoValidSection);
            },
            Some(sec) => sec,
        };
        proof {
            lemma_first_section_at_found(sections@, None, self.virtual_address);
        }
        let section_file_offset = start_section.pointer_to_raw_data;
        let section_va = start_section.virtual_address;
        // The containment established by the lookup rules out underflow, but
        // the subtraction stays checked, as defence in depth.
        let start = match self.virtual_address.checked_sub(section_va) {
            None => {
                return Err(PeError::InvalidDirectoryAddresses);
            },
            Some(rel) => match rel.checked_add(section_file_offset) {
                None => {
                    return Err(PeError::InvalidDirectoryAddresses);
                },
                Some(start) => start,
            },
        };
        let end = match start.checked_add(self.size) {
            None => {
                return Err(PeError::InvalidDirectoryAddresses);
            },
            Some(end) => end,
        };
        Ok((start, end))
    }

    /// Get the data referenced by this directory entry: exactly `size` bytes
    /// of `data`, starting where the entry's virtual address falls in its
    /// containing section's raw bytes.
    ///
    /// This resolution has some limitations:
    /// - It requires that the data is contained in a single section.
    /// - It uses the size field of the directory entry, which is not
    ///   desirable for all data directories.
    /// - It uses the `virtual_address` of the directory entry as an address,
    ///   which is not valid for `IMAGE_DIRECTORY_ENTRY_SECURITY`.
    pub fn data<'a>(&self, data: &'a [u8], sections: &SectionTable) -> (r: Result<
        &'a [u8],
        PeError,
    >)
        ensures
            r matches Ok(bytes) ==> spec_data(*self, data@, sections@) == Ok::<_, PeError>(bytes@),
            r matches Err(e) ==> spec_data(*self, data@, sections@) == Err::<Seq<u8>, _>(e),
    {
        let bytes = match sections.pe_data_at(data, self.virtual_address) {
            None => {
                return Err(PeError::InvalidDataDirVirtualAddress);
            },
            Some(bytes) => bytes,
        };
        let size = self.size as usize;
        if size <= bytes.len() {
            Ok(slice_subrange(bytes, 0, size))
        } else {
            Err(PeError::InvalidDataDirSize)
        }
    }
}

/// Index of the export table directory.
pub const IMAGE_DIRECTORY_ENTRY_EXPORT: usize = 0;

/// Index of the import table directory.
pub const IMAGE_DIRECTORY_ENTRY_IMPORT: usize = 1;

/// Index of the resource directory.
pub const IMAGE_DIRECTORY_ENTRY_RESOURCE: usize = 2;

/// Index of the exception table directory.
pub const IMAGE_DIRECTORY_ENTRY_EXCEPTION: usize = 3;

/// Index of the security (certificate) directory; its value is a file offset,
/// not a virtual address.
pub const IMAGE_DIRECTORY_ENTRY_SECURITY: usize = 4;

/// Index of the base relocation directory.
pub const IMAGE_DIRECTORY_ENTRY_BASERELOC: usize = 5;

/// Index of the debug directory.
pub const IMAGE_DIRECTORY_ENTRY_DEBUG: usize = 6;

/// Index of the architecture-specific directory.
pub const IMAGE_DIRECTORY_ENTRY_ARCHITECTURE: usize = 7;

/// Index of the global pointer directory.
pub const IMAGE_DIRECTORY_ENTRY_GLOBALPTR: usize = 8;

/// Index of the thread-local storage directory.
pub const IMAGE_DIRECTORY_ENTRY_TLS: usize = 9;

/// Index of the load configuration directory.
pub const IMAGE_DIRECTORY_ENTRY_LOAD_CONFIG: usize = 10;

/// Index of the bound import directory.
pub const IMAGE_DIRECTORY_ENTRY_BOUND_IMPORT: usize = 11;

/// Index of the import address table directory.
pub const IMAGE_DIRECTORY_ENTRY_IAT: usize = 12;

/// Index of the delay-load import directory.
pub const IMAGE_DIRECTORY_ENTRY_DELAY_IMPORT: usize = 13;

/// Index of the COM descriptor directory.
pub const IMAGE_DIRECTORY_ENTRY_COM_DESCRIPTOR: usize = 14;

/// The file offset one past the end of the bytes a directory entry occupies,
/// translated through the first section containing its virtual address.
///
/// `None` when no section contains the address (or, with a known file size,
/// none whose raw bytes fit the file), and when a known file size shows the
/// entry's claimed end to be bogus.
pub open spec fn spec_directory_end_offset(
    d: ImageDataDirectory,
    sections: Seq<Section>,
    file_size_if_known: Option<u64>,
) -> Option<int> {
    match first_section_at(sections, file_size_if_known, d.virtual_address) {
        None => None,
        Some(sec) => {
            let end = d.virtual_address - sec.virtual_address + sec.pointer_to_raw_data + d.size;
            match file_size_if_known {
                Some(fs) => if end > fs { None } else { Some(end) },
                None => Some(end),
            }
        },
    }
}

/// The largest usable end offset among the first `n` directory entries, with
/// the security directory and entries without a usable end left out.
pub open spec fn spec_max_offset_upto(
    entries: Seq<ImageDataDirectory>,
    sections: Seq<Section>,
    file_size_if_known: Option<u64>,
    n: int,
) -> Option<int>
    decreases n,
{
    if n <= 0 {
        None
    } else {
        let prev = spec_max_offset_upto(entries, sections, file_size_if_known, n - 1);
        if n - 1 == IMAGE_DIRECTORY_ENTRY_SECURITY {
            prev
        } else {
            match spec_directory_end_offset(entries[n - 1], sections, file_size_if_known) {
                None => prev,
                Some(end) => match prev {
                    None => Some(end),
                    Some(m) => if end > m {
                        Some(end)
                    } else {
                        Some(m)
                    },
                },
            }
        }
    }
}

/// What `max_directory_file_offset` returns, over the whole table.
pub open spec fn spec_max_directory_file_offset(
    entries: Seq<ImageDataDirectory>,
    sections: Seq<Section>,
    file_size_if_known: Option<u64>,
) -> Option<int> {
    spec_max_offset_upto(entries, sections, file_size_if_known, entries.len() as int)
}

/// What `get` returns: the entry at `index`, unless the index is out of range
/// or the entry's zero virtual address marks the directory as absent.
pub open spec fn spec_get(entries: Seq<ImageDataDirectory>, index: int) -> Option<
    ImageDataDirectory,
> {
    if 0 <= index < entries.len() && entries[index].virtual_address != 0 {
        Some(entries[index])
    } else {
        None
    }
}

/// The table of data directories in a PE file.
#[derive(Debug)]
pub struct DataDirectories {
    entries: Vec<ImageDataDirectory>,
}

impl View for DataDirectories {
    type V = Seq<ImageDataDirectory>;

    closed spec fn view(&self) -> Seq<ImageDataDirectory> {
        self.entries@
    }
}

impl DataDirectories {
    /// Parse the data directory table.
    ///
    /// `data` must be the remaining optional data following the optional
    /// header. `number` must be from the `number_of_rva_and_sizes` field of
    /// the optional header.
    ///
    /// Succeeds exactly when `number` 8-byte records fit in `data`, yielding
    /// all `number` entries in file order; a shorter buffer is refused whole.
    pub fn parse(data: &[u8], number: u32) -> (r: Result<DataDirectories, PeError>)
        ensures
            8 * (number as int) <= data@.len() ==> (r matches Ok(t) && t@ == spec_parse_entries(
                data@,
                number as int,
            )),
            8 * (number as int) > data@.len() ==> r === Err(PeError::InvalidNumberOfRvaAndSizes),
    {
        if (number as u64) * 8 > data.len() as u64 {
            return Err(PeError::InvalidNumberOfRvaAndSizes);
        }
        let n = number as usize;
        let data_len = data.len();
        let mut entries: Vec<ImageDataDirectory> = Vec::new();
        let mut i: usize = 0;
        while i < n
            invariant
                i <= n,
                data_len == data@.len(),
                8 * (n as int) <= data_len,
                entries@.len() == i,
                forall|j: int| 0 <= j < i ==> entries@[j] == spec_entry_at(data@, j),
            decreases n - i,
        {
            let off = 8 * i;
            let virtual_address = read_u32_le(data, off);
            let size = read_u32_le(data, off + 4);
            entries.push(ImageDataDirectory { virtual_address, size });
            i = i + 1;
        }
        proof {
            assert(entries@ =~= spec_parse_entries(data@, number as int));
        }
        Ok(DataDirectories { entries })
    }

    /// The number of data directories.
    pub fn len(&self) -> (r: usize)
        ensures
            r == self@.len(),
    {
        self.entries.len()
    }

    /// The data directories, in file order, for read-only traversal.
    pub fn iter(&self) -> (r: &Vec<ImageDataDirectory>)
        ensures
            r@ == self@,
    {
        &self.entries
    }

    /// The data directories paired with their index, which is the
    /// directory-type identifier (one of the `IMAGE_DIRECTORY_ENTRY_*`
    /// constants).
    pub fn enumerate(&self) -> (r: Vec<(usize, ImageDataDirectory)>)
        ensures
            r@.len() == self@.len(),
            forall|i: int| 0 <= i < r@.len() ==> #[trigger] r@[i] == (i as usize, self@[i]),
    {
        let n = self.entries.len();
        let mut pairs: Vec<(usize, ImageDataDirectory)> = Vec::new();
        let mut i: usize = 0;
        while i < n
            invariant
                i <= n,
                n == self@.len(),
                pairs@.len() == i,
                forall|j: int| 0 <= j < i ==> #[trigger] pairs@[j] == (j as usize, self@[j]),
            decreases n - i,
        {
            pairs.push((i, self.entries[i]));
            i = i + 1;
        }
        pairs
    }

    /// Returns the data directory at the given index.
    ///
    /// Index should be one of the `IMAGE_DIRECTORY_ENTRY_*` constants.
    ///
    /// Returns `None` if the index is larger than the table size, or if the
    /// entry at the index has a zero virtual address.
    pub fn get(&self, index: usize) -> (r: Option<ImageDataDirectory>)
        ensures
            r == spec_get(self@, index as int),
    {
        if index < self.entries.len() {
            let d = self.entries[index];
            if d.virtual_address != 0 {
                Some(d)
            } else {
                None
            }
        } else {
            None
        }
    }

    /// Returns the unparsed export directory's bytes: the bounds-checked
    /// range an export directory parser consumes.
    ///
    /// `data` must be the entire file data. `Ok(None)` when the export
    /// directory is absent.
    pub fn export_directory<'a>(&self, data: &'a [u8], sections: &SectionTable) -> (r: Result<
        Option<&'a [u8]>,
        PeError,
    >)
        ensures
            match spec_get(self@, IMAGE_DIRECTORY_ENTRY_EXPORT as int) {
                None => r matches Ok(o) && o is None,
                Some(d) => match spec_data(d, data@, sections@) {
                    Ok(bytes) => r matches Ok(o) && o matches Some(b) && b@ == bytes,
                    Err(e) => r === Err(e),
                },
            },
    {
        let data_dir = match self.get(IMAGE_DIRECTORY_ENTRY_EXPORT) {
            Some(data_dir) => data_dir,
            None => {
                return Ok(None);
            },
        };
        let export_data = match data_dir.data(data, sections) {
            Ok(bytes) => bytes,
            Err(e) => {
                return Err(e);
            },
        };
        Ok(Some(export_data))
    }

    /// Returns the export directory's bytes together with its virtual
    /// address, which an export table parser needs to compute further
    /// internal offsets.
    ///
    /// `data` must be the entire file data. `Ok(None)` when the export
    /// directory is absent.
    pub fn export_table<'a>(&self, data: &'a [u8], sections: &SectionTable) -> (r: Result<
        Option<(&'a [u8], u32)>,
        PeError,
    >)
        ensures
            match spec_get(self@, IMAGE_DIRECTORY_ENTRY_EXPORT as int) {
                None => r matches Ok(o) && o is None,
                Some(d) => match spec_data(d, data@, sections@) {
                    Ok(bytes) => r matches Ok(o) && o matches Some(p) && p.0@ == bytes && p.1
                        == d.virtual_address,
                    Err(e) => r === Err(e),
                },
            },
    {
        let data_dir = match self.get(IMAGE_DIRECTORY_ENTRY_EXPORT) {
            Some(data_dir) => data_dir,
            None => {
                return Ok(None);
            },
        };
        let export_va = data_dir.virtual_address;
        let export_data = match data_dir.data(data, sections) {
            Ok(bytes) => bytes,
            Err(e) => {
                return Err(e);
            },
        };
        Ok(Some((export_data, export_va)))
    }

    /// Returns the import directory's virtual address, which an import table
    /// parser resolves against the entire file data and the section table to
    /// compute internal offsets.
    ///
    /// `Ok(None)` when the import directory is absent.
    pub fn import_table(&self) -> (r: Result<Option<u32>, PeError>)
        ensures
            match spec_get(self@, IMAGE_DIRECTORY_ENTRY_IMPORT as int) {
                None => r matches Ok(o) && o is None,
                Some(d) => r matches Ok(o) && o === Some(d.virtual_address),
            },
    {
        let data_dir = match self.get(IMAGE_DIRECTORY_ENTRY_IMPORT) {
            Some(data_dir) => data_dir,
            None => {
                return Ok(None);
            },
        };
        Ok(Some(data_dir.virtual_address))
    }

    /// Returns the bytes of the base relocation directory, which a relocation
    /// block iterator walks.
    ///
    /// `data` must be the entire file data. `Ok(None)` when the base
    /// relocation directory is absent.
    pub fn relocation_blocks<'a>(&self, data: &'a [u8], sections: &SectionTable) -> (r: Result<
        Option<&'a [u8]>,
        PeError,
    >)
        ensures
            match spec_get(self@, IMAGE_DIRECTORY_ENTRY_BASERELOC as int) {
                None => r matches Ok(o) && o is None,
                Some(d) => match spec_data(d, data@, sections@) {
                    Ok(bytes) => r matches Ok(o) && o matches Some(b) && b@ == bytes,
                    Err(e) => r === Err(e),
                },
            },
    {
        let data_dir = match self.get(IMAGE_DIRECTORY_ENTRY_BASERELOC) {
            Some(data_dir) => data_dir,
            None => {
                return Ok(None);
            },
        };
        let reloc_data = match data_dir.data(data, sections) {
            Ok(bytes) => bytes,
            Err(e) => {
                return Err(e);
            },
        };
        Ok(Some(reloc_data))
    }

    /// Returns the bytes of the resource directory, which a resource
    /// directory parser consumes.
    ///
    /// `data` must be the entire file data. `Ok(None)` when the resource
    /// directory is absent.
    pub fn resource_directory<'a>(&self, data: &'a [u8], sections: &SectionTable) -> (r: Result<
        Option<&'a [u8]>,
        PeError,
    >)
        ensures
            match spec_get(self@, IMAGE_DIRECTORY_ENTRY_RESOURCE as int) {
                None => r matches Ok(o) && o is None,
                Some(d) => match spec_data(d, data@, sections@) {
                    Ok(bytes) => r matches Ok(o) && o matches Some(b) && b@ == bytes,
                    Err(e) => r === Err(e),
                },
            },
    {
        let data_dir = match self.get(IMAGE_DIRECTORY_ENTRY_RESOURCE) {
            Some(data_dir) => data_dir,
            None => {
                return Ok(None);
            },
        };
        let rsrc_data = match data_dir.data(data, sections) {
            Ok(bytes) => bytes,
            Err(e) => {
                return Err(e);
            },
        };
        Ok(Some(rsrc_data))
    }

    /// Compute the maximum file offset used by data directories.
    ///
    /// This will usually match the end of file, unless the PE file has a data
    /// overlay: extra bytes appended after the image's formal content.
    ///
    /// The security directory (which contains a file signature) is ignored,
    /// because it is considered an exception to the concept of a data
    /// overlay. Entries whose virtual address no section maps, and entries
    /// whose computed end exceeds a known file size, are skipped rather than
    /// failing the scan.
    pub fn max_directory_file_offset(
        &self,
        file_size_if_known: Option<u64>,
        section_table: &SectionTable,
    ) -> (r: Option<u64>)
        ensures
            r is Some <==> spec_max_directory_file_offset(
                self@,
                section_table@,
                file_size_if_known,
            ) is Some,
            r matches Some(m) ==> m == spec_max_directory_file_offset(
                self@,
                section_table@,
                file_size_if_known,
            )->Some_0,
    {
        let mut max: Option<u64> = None;
        let n = self.entries.len();
        let mut i: usize = 0;
        while i < n
            invariant
                i <= n,
                n == self@.len(),
                max is Some <==> spec_max_offset_upto(
                    self@,
                    section_table@,
                    file_size_if_known,
                    i as int,
                ) is Some,
                max matches Some(m) ==> m == spec_max_offset_upto(
                    self@,
                    section_table@,
                    file_size_if_known,
                    i as int,
                )->Some_0,
            decreases n - i,
        {
            let directory = self.entries[i];
            if i != IMAGE_DIRECTORY_ENTRY_SECURITY {
                let rva = directory.virtual_address;
                match section_table.section_at(file_size_if_known, rva) {
                    None => {},
                    Some(section_for_dir) => {
                        proof {
                            lemma_first_section_at_found(section_table@, file_size_if_known, rva);
                        }
                        let end_of_directory = (rva - section_for_dir.virtual_address) as u64
                            + section_for_dir.pointer_to_raw_data as u64 + directory.size as u64;
                        let usable = match file_size_if_known {
                            Some(total_size) => end_of_directory <= total_size,
                            None => true,
                        };
                        if usable {
                            max = Some(
                                match max {
                                    None => end_of_directory,
                                    Some(m) => if end_of_directory > m {
                                        end_of_directory
                                    } else {
                                        m
                                    },
                                },
                            );
                        }
                    },
                }
            }
            i = i + 1;
        }
        max
    }
}

/// When the first section containing an entry's virtual address is `sec`, the
/// entry's file range is its address range shifted by
/// `sec.pointer_to_raw_data - sec.virtual_address`, with `end = start + size`;
/// a shifted range past 32 bits is refused, and so is an address that no
/// section contains.
pub proof fn lemma_file_range_translation(d: ImageDataDirectory, sections: Seq<Section>)
    ensures
        first_section_at(sections, None, d.virtual_address) matches Some(sec) ==> ({
            let start = d.virtual_address - sec.virtual_address + sec.pointer_to_raw_data;
            &&& start + d.size <= u32::MAX ==> spec_file_range(d, sections) === Ok(
                ((start as u32), ((start + d.size) as u32)),
            )
            &&& start + d.size > u32::MAX ==> spec_file_range(d, sections) === Err(
                PeError::InvalidDirectoryAddresses,
            )
        }),
        first_section_at(sections, None, d.virtual_address) is None ==> spec_file_range(
            d,
            sections,
        ) === Err(PeError::NoValidSection),
{
}

proof fn lemma_security_entry_ignored_upto(
    entries1: Seq<ImageDataDirectory>,
    entries2: Seq<ImageDataDirectory>,
    sections: Seq<Section>,
    file_size_if_known: Option<u64>,
    n: int,
)
    requires
        entries1.len() == entries2.len(),
        forall|i: int|
            0 <= i < entries1.len() && i != IMAGE_DIRECTORY_ENTRY_SECURITY ==> #[trigger] entries1[i]
                == entries2[i],
        n <= entries1.len(),
    ensures
        spec_max_offset_upto(entries1, sections, file_size_if_known, n) == spec_max_offset_upto(
            entries2,
            sections,
            file_size_if_known,
            n,
        ),
    decreases n,
{
    if n > 0 {
        lemma_security_entry_ignored_upto(entries1, entries2, sections, file_size_if_known, n - 1);
    }
}

/// The security directory's entry never influences
/// `max_directory_file_offset`: two tables that differ at most at that index
/// compute the same maximum, whatever the entry holds.
pub proof fn lemma_security_entry_ignored(
    entries1: Seq<ImageDataDirectory>,
    entries2: Seq<ImageDataDirectory>,
    sections: Seq<Section>,
    file_size_if_known: Option<u64>,
)
    requires
        entries1.len() == entries2.len(),
        forall|i: int|
            0 <= i < entries1.len() && i != IMAGE_DIRECTORY_ENTRY_SECURITY ==> #[trigger] entries1[i]
                == entries2[i],
    ensures
        spec_max_directory_file_offset(entries1, sections, file_size_if_known)
            == spec_max_directory_file_offset(entries2, sections, file_size_if_known),
{
    lemma_security_entry_ignored_upto(
        entries1,
        entries2,
        sections,
        file_size_if_known,
        entries1.len() as int,
    );
}

proof fn lemma_max_offset_bounded_upto(
    entries: Seq<ImageDataDirectory>,
    sections: Seq<Section>,
    file_size: u64,
    n: int,
)
    ensures
        spec_max_offset_upto(entries, sections, Some(file_size), n) matches Some(m) ==> m
            <= file_size,
    decreases n,
{
    if n > 0 {
        lemma_max_offset_bounded_upto(entries, sections, file_size, n - 1);
    }
}

/// With a known file size, every entry whose computed end offset exceeds it
/// is excluded from the scan, so the maximum that comes back never exceeds
/// the file size.
pub proof fn lemma_max_offset_bounded_by_file_size(
    entries: Seq<ImageDataDirectory>,
    sections: Seq<Section>,
    file_size: u64,
)
    ensures
        spec_max_directory_file_offset(entries, sections, Some(file_size)) matches Some(m) ==> m
            <= file_size,
{
    lemma_max_offset_bounded_upto(entries, sections, file_size, entries.len() as int);
}

proof fn lemma_all_entries_excluded_upto(
    entries: Seq<ImageDataDirectory>,
    sections: Seq<Section>,
    file_size_if_known: Option<u64>,
    n: int,
)
    requires
        n <= entries.len(),
        forall|i: int|
            0 <= i < entries.len() && i != IMAGE_DIRECTORY_ENTRY_SECURITY
                ==> spec_directory_end_offset(
                #[trigger] entries[i],
                sections,
                file_size_if_known,
            ) is None,
    ensures
        spec_max_offset_upto(entries, sections, file_size_if_known, n) is None,
    decreases n,
{
    if n > 0 {
        lemma_all_entries_excluded_upto(entries, sections, file_size_if_known, n - 1);
    }
}

/// When every entry other than the security directory is excluded — its
/// address unmapped, or its computed end past the known file size — the scan
/// returns `None` rather than a made-up offset.
pub proof fn lemma_all_entries_excluded_none(
    entries: Seq<ImageDataDirectory>,
    sections: Seq<Section>,
    file_size_if_known: Option<u64>,
)
    requires
        forall|i: int|
            0 <= i < entries.len() && i != IMAGE_DIRECTORY_ENTRY_SECURITY
                ==> spec_directory_end_offset(
                #[trigger] entries[i],
                sections,
                file_size_if_known,
            ) is None,
    ensures
        spec_max_directory_file_offset(entries, sections, file_size_if_known) is None,
{
    lemma_all_entries_excluded_upto(
        entries,
        sections,
        file_size_if_known,
        entries.len() as int,
    );
}

/// Presence and mappability are independent: an entry with a nonzero virtual
/// address that no section contains is still returned by `get`, while
/// `file_range` and `data` both fail on it.
pub proof fn lemma_unmapped_entry_still_present(
    entries: Seq<ImageDataDirectory>,
    sections: Seq<Section>,
    data: Seq<u8>,
    index: int,
)
    requires
        0 <= index < entries.len(),
        entries[index].virtual_address != 0,
        first_section_at(sections, None, entries[index].virtual_address) is None,
    ensures
        spec_get(entries, index) === Some(entries[index]),
        spec_file_range(entries[index], sections) === Err(PeError::NoValidSection),
        spec_data(entries[index], data, sections) === Err(PeError::InvalidDataDirVirtualAddress),
{
    lemma_no_section_no_data(data, sections, entries[index].virtual_address);
}

} // verus!
