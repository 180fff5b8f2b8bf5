//! The header structures of a PE file. Every multi-byte field holds its bytes
//! most significant first, as they are read little-endian out of the file and reversed.

use vstd::prelude::*;

verus! {

/// One byte of a PE file.
pub type Byte = u8;

/// A field whose size depends on the target architecture.
#[derive(Debug, PartialEq)]
pub enum DifArch {
    /// A 4-byte field of a 32-bit image.
    B32([Byte; 4]),
    /// An 8-byte field of a 64-bit image.
    B64([Byte; 8]),
}

/// 64-byte structure on all target architectures.
/// Makes PE file an MS-DOS executable.
#[derive(Debug, PartialEq)]
pub struct DosHeader {
    pub e_magic: [Byte; 2],
    pub e_cblp: [Byte; 2],
    pub e_cp: [Byte; 2],
    pub e_crlc: [Byte; 2],
    pub e_cparhdr: [Byte; 2],
    pub e_minalloc: [Byte; 2],
    pub e_maxalloc: [Byte; 2],
    pub e_ss: [Byte; 2],
    pub e_sp: [Byte; 2],
    pub e_csum: [Byte; 2],
    pub e_ip: [Byte; 2],
    pub e_cs: [Byte; 2],
    pub e_lfarlc: [Byte; 2],
    pub e_ovno: [Byte; 2],
    pub e_res: [Byte; 8],
    pub e_oemid: [Byte; 2],
    pub e_oeminfo: [Byte; 2],
    pub e_res2: [Byte; 20],
    pub e_lfanew: [Byte; 4],
}

/// The bytes that a [`DosHeader`] holds, field by field.
#[verifier::ext_equal]
pub struct DosHeaderView {
    pub e_magic: Seq<u8>,
    pub e_cblp: Seq<u8>,
    pub e_cp: Seq<u8>,
    pub e_crlc: Seq<u8>,
    pub e_cparhdr: Seq<u8>,
    pub e_minalloc: Seq<u8>,
    pub e_maxalloc: Seq<u8>,
    pub e_ss: Seq<u8>,
    pub e_sp: Seq<u8>,
    pub e_csum: Seq<u8>,
    pub e_ip: Seq<u8>,
    pub e_cs: Seq<u8>,
    pub e_lfarlc: Seq<u8>,
    pub e_ovno: Seq<u8>,
    pub e_res: Seq<u8>,
    pub e_oemid: Seq<u8>,
    pub e_oeminfo: Seq<u8>,
    pub e_res2: Seq<u8>,
    pub e_lfanew: Seq<u8>,
}

impl View for DosHeader {
    type V = DosHeaderView;

    open spec fn view(&self) -> DosHeaderView {
        DosHeaderView {
            e_magic: self.e_magic@,
            e_cblp: self.e_cblp@,
            e_cp: self.e_cp@,
            e_crlc: self.e_crlc@,
            e_cparhdr: self.e_cparhdr@,
            e_minalloc: self.e_minalloc@,
            e_maxalloc: self.e_maxalloc@,
            e_ss: self.e_ss@,
            e_sp: self.e_sp@,
            e_csum: self.e_csum@,
            e_ip: self.e_ip@,
            e_cs: self.e_cs@,
            e_lfarlc: self.e_lfarlc@,
            e_ovno: self.e_ovno@,
            e_res: self.e_res@,
            e_oemid: self.e_oemid@,
            e_oeminfo: self.e_oeminfo@,
            e_res2: self.e_res2@,
            e_lfanew: self.e_lfanew@,
        }
    }
}

/// 20-byte structure on all target architectures.
/// Includes general info about the PE file.
#[derive(Debug, PartialEq)]
pub struct FileHeader {
    pub machine: [Byte; 2],
    pub number_of_sections: [Byte; 2],
    pub time_date_stamp: [Byte; 4],
    pub pointer_to_symbol_table: [Byte; 4],
    pub number_of_symbols: [Byte; 4],
    pub size_of_optional_header: [Byte; 2],
    pub characteristics: [Byte; 2],
}

/// The optional header: its standard fields, then the Windows-specific ones.
#[derive(Debug, PartialEq)]
pub struct OptionalHeader {
    // Standard fields
    pub magic: [Byte; 2],
    pub major_linker_ver: [Byte; 1],
    pub minor_linker_ver: [Byte; 1],
    pub size_of_code: [Byte; 4],
    pub size_of_init_data: [Byte; 4],
    pub size_of_uninit_data: [Byte; 4],
    pub addr_of_entry_point: [Byte; 4],
    pub base_of_code: [Byte; 4],
    pub base_of_data: Option<[Byte; 4]>,
    // Windows-specific fields
    pub image_base: DifArch,
    pub section_alignment: [Byte; 4],
    pub file_alignment: [Byte; 4],
    pub os_version_major: [Byte; 2],
    pub os_version_minor: [Byte; 2],
    pub image_version_major: [Byte; 2],
    pub image_version_minor: [Byte; 2],
    pub subsystem_version_major: [Byte; 2],
    pub subsystem_version_minor: [Byte; 2],
    pub win32_version_value: [Byte; 4],
    pub size_of_image: [Byte; 4],
    pub size_of_headers: [Byte; 4],
    pub checksum: [Byte; 4],
    pub subsystem: [Byte; 2],
    pub dll_characteristics: [Byte; 2],
    pub size_of_stack_reserve: DifArch,
    pub size_of_stack_commit: DifArch,
    pub size_of_heap_reserve: DifArch,
    pub size_of_heap_commit: DifArch,
    pub loader_flags: [Byte; 4],
    pub number_of_rva_and_sizes: [Byte; 4],
    pub data_directories: [Option<ImageDataDirectory>; 16],
}

/// The address and size of one of the image's data directories.
#[derive(Clone, Copy, Debug, Default, PartialEq)]
pub struct ImageDataDirectory {
    pub address: [Byte; 4],
    pub size: [Byte; 4],
}

/// The section table: one entry per section.
pub type SectionTable = Vec<SectionTableEntry>;

/// One row of the section table.
#[derive(Debug, PartialEq)]
pub struct SectionTableEntry {
    pub name: [Byte; 8],
    pub virtual_size: [Byte; 4],
    pub virtual_addr: [Byte; 4],
    pub size_of_raw_data: [Byte; 4],
    pub pointer_to_raw_data: [Byte; 4],
    pub pointer_to_relocations: [Byte; 4],
    pub pointer_to_line_nums: [Byte; 4],
    pub number_of_relocations: [Byte; 2],
    pub number_of_line_nums: [Byte; 2],
    pub characteristics: [Byte; 4],
}

} // verus!
