use pe_data_dir::data_directory::DataDirectories;
use pe_data_dir::data_directory::ImageDataDirectory;
use pe_data_dir::data_directory::PeError;
use pe_data_dir::data_directory::IMAGE_DIRECTORY_ENTRY_EXPORT;
use pe_data_dir::data_directory::IMAGE_DIRECTORY_ENTRY_IMPORT;
use pe_data_dir::data_directory::IMAGE_DIRECTORY_ENTRY_SECURITY;

fn entry_bytes(entries: &[(u32, u32)]) -> Vec<u8> {
    let mut bytes = Vec::new();
    for &(va, size) in entries {
        bytes.extend_from_slice(&va.to_le_bytes());
        bytes.extend_from_slice(&size.to_le_bytes());
    }
    bytes
}

#[test]
fn parse_reads_exactly_number_entries_in_file_order() {
    let bytes = entry_bytes(&[(0x2000, 0x100), (0x3000, 0x42), (0, 7)]);
    let dirs = DataDirectories::parse(&bytes, 3).unwrap();
    assert_eq!(dirs.len(), 3);
    let entries = dirs.iter();
    assert_eq!(entries.len(), 3);
    assert_eq!(
        entries[0],
        ImageDataDirectory { virtual_address: 0x2000, size: 0x100 }
    );
    assert_eq!(
        entries[1],
        ImageDataDirectory { virtual_address: 0x3000, size: 0x42 }
    );
    assert_eq!(entries[2], ImageDataDirectory { virtual_address: 0, size: 7 });
}

#[test]
fn parse_decodes_little_endian_fields() {
    let bytes: Vec<u8> = vec![0x01, 0x02, 0x03, 0x04, 0x05, 0x06, 0x07, 0x08];
    let dirs = DataDirectories::parse(&bytes, 1).unwrap();
    let entry = dirs.get(0).unwrap();
    assert_eq!(entry.virtual_address, 0x04030201);
    assert_eq!(entry.size, 0x08070605);
}

#[test]
fn parse_accepts_trailing_bytes() {
    let mut bytes = entry_bytes(&[(0x2000, 0x100)]);
    bytes.extend_from_slice(&[0xAA; 5]);
    let dirs = DataDirectories::parse(&bytes, 1).unwrap();
    assert_eq!(dirs.len(), 1);
}

#[test]
fn parse_refuses_short_buffer_whole() {
    let bytes = entry_bytes(&[(0x2000, 0x100), (0x3000, 0x42)]);
    let short = &bytes[..15];
    let err = DataDirectories::parse(short, 2).unwrap_err();
    assert_eq!(err, PeError::InvalidNumberOfRvaAndSizes);
    assert_eq!(err.message(), "Invalid PE number of RVA and sizes");
}

#[test]
fn parse_refuses_huge_count_without_overflow() {
    let bytes = entry_bytes(&[(0x2000, 0x100)]);
    let err = DataDirectories::parse(&bytes, u32::MAX).unwrap_err();
    assert_eq!(err, PeError::InvalidNumberOfRvaAndSizes);
}

#[test]
fn parse_zero_entries_from_empty_buffer() {
    let dirs = DataDirectories::parse(&[], 0).unwrap();
    assert_eq!(dirs.len(), 0);
    assert!(dirs.iter().is_empty());
}

#[test]
fn get_returns_none_past_the_end() {
    let bytes = entry_bytes(&[(0x2000, 0x100)]);
    let dirs = DataDirectories::parse(&bytes, 1).unwrap();
    assert_eq!(dirs.get(1), None);
    assert_eq!(dirs.get(usize::MAX), None);
}

#[test]
fn get_returns_none_for_zero_virtual_address() {
    let bytes = entry_bytes(&[(0, 0x100), (0x2000, 0x100)]);
    let dirs = DataDirectories::parse(&bytes, 2).unwrap();
    assert_eq!(dirs.get(0), None);
    assert_eq!(
        dirs.get(1),
        Some(ImageDataDirectory { virtual_address: 0x2000, size: 0x100 })
    );
}

#[test]
fn get_returns_present_entry_unchanged() {
    let bytes = entry_bytes(&[(0x1234, 0), (0x2000, 0x100)]);
    let dirs = DataDirectories::parse(&bytes, 2).unwrap();
    // A zero size does not mark an entry absent; only a zero address does.
    assert_eq!(
        dirs.get(0),
        Some(ImageDataDirectory { virtual_address: 0x1234, size: 0 })
    );
}

#[test]
fn enumerate_pairs_entries_with_their_directory_index() {
    let bytes = entry_bytes(&[(0x2000, 0x100), (0x3000, 0x42)]);
    let dirs = DataDirectories::parse(&bytes, 2).unwrap();
    let pairs = dirs.enumerate();
    assert_eq!(pairs.len(), 2);
    assert_eq!(
        pairs[0],
        (
            IMAGE_DIRECTORY_ENTRY_EXPORT,
            ImageDataDirectory { virtual_address: 0x2000, size: 0x100 }
        )
    );
    assert_eq!(
        pairs[1],
        (
            IMAGE_DIRECTORY_ENTRY_IMPORT,
            ImageDataDirectory { virtual_address: 0x3000, size: 0x42 }
        )
    );
}

#[test]
fn iter_is_restartable() {
    let bytes = entry_bytes(&[(0x2000, 0x100), (0x3000, 0x42)]);
    let dirs = DataDirectories::parse(&bytes, 2).unwrap();
    let first: Vec<ImageDataDirectory> = dirs.iter().to_vec();
    let second: Vec<ImageDataDirectory> = dirs.iter().to_vec();
    assert_eq!(first, second);
}

#[test]
fn directory_index_constants_follow_the_pe_convention() {
    assert_eq!(IMAGE_DIRECTORY_ENTRY_EXPORT, 0);
    assert_eq!(IMAGE_DIRECTORY_ENTRY_IMPORT, 1);
    assert_eq!(pe_data_dir::data_directory::IMAGE_DIRECTORY_ENTRY_RESOURCE, 2);
    assert_eq!(pe_data_dir::data_directory::IMAGE_DIRECTORY_ENTRY_EXCEPTION, 3);
    assert_eq!(IMAGE_DIRECTORY_ENTRY_SECURITY, 4);
    assert_eq!(pe_data_dir::data_directory::IMAGE_DIRECTORY_ENTRY_BASERELOC, 5);
    assert_eq!(pe_data_dir::data_directory::IMAGE_DIRECTORY_ENTRY_DEBUG, 6);
    assert_eq!(
        pe_data_dir::data_directory::IMAGE_DIRECTORY_ENTRY_ARCHITECTURE,
        7
    );
    assert_eq!(pe_data_dir::data_directory::IMAGE_DIRECTORY_ENTRY_GLOBALPTR, 8);
    assert_eq!(pe_data_dir::data_directory::IMAGE_DIRECTORY_ENTRY_TLS, 9);
    assert_eq!(
        pe_data_dir::data_directory::IMAGE_DIRECTORY_ENTRY_LOAD_CONFIG,
        10
    );
    assert_eq!(
        pe_data_dir::data_directory::IMAGE_DIRECTORY_ENTRY_BOUND_IMPORT,
        11
    );
    assert_eq!(pe_data_dir::data_directory::IMAGE_DIRECTORY_ENTRY_IAT, 12);
    assert_eq!(
        pe_data_dir::data_directory::IMAGE_DIRECTORY_ENTRY_DELAY_IMPORT,
        13
    );
    assert_eq!(
        pe_data_dir::data_directory::IMAGE_DIRECTORY_ENTRY_COM_DESCRIPTOR,
        14
    );
}

#[test]
fn error_messages_are_specific() {
    assert_eq!(
        PeError::NoValidSection.message(),
        "This directory does not point to a valid section"
    );
    assert_eq!(
        PeError::InvalidDirectoryAddresses.message(),
        "Invalid directory addresses"
    );
    assert_eq!(
        PeError::InvalidDataDirVirtualAddress.message(),
        "Invalid data dir virtual address"
    );
    assert_eq!(PeError::InvalidDataDirSize.message(), "Invalid data dir size");
}
