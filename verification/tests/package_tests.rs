use bg3_lib::abstract_file_info::AbstractFileInfo;
use bg3_lib::abstract_file_info::CompressionMethod;
use bg3_lib::error::Error;
use bg3_lib::error::Failure;
use bg3_lib::error::Section;
use bg3_lib::package::Package;
use bg3_lib::package_file::FileType;
use bg3_lib::package_file::PackageFile;
use bg3_lib::package_metadata::PackageMetadata;
use bg3_lib::package_reader::PackageReader;
use bg3_lib::package_version::PackageVersion;
use std::io::Write;

fn zlib(data: &[u8]) -> Vec<u8> {
    let mut enc = flate2::write::ZlibEncoder::new(Vec::new(), flate2::Compression::default());
    enc.write_all(data).unwrap();
    enc.finish().unwrap()
}

fn file_entry(name: &str, offset: u64, flags: u8, size_on_disk: u32, uncompressed: u32) -> Vec<u8> {
    let mut e = vec![0u8; 256];
    e[..name.len()].copy_from_slice(name.as_bytes());
    e.extend_from_slice(&((offset & 0xffff_ffff) as u32).to_le_bytes());
    e.extend_from_slice(&((offset >> 32) as u16).to_le_bytes());
    e.push(0);
    e.push(flags);
    e.extend_from_slice(&size_on_disk.to_le_bytes());
    e.extend_from_slice(&uncompressed.to_le_bytes());
    assert_eq!(e.len(), 272);
    e
}

/// An archive: signature, header, payloads, file list.
fn archive(signature: &[u8; 4], version: u32, entries: &[(&str, u8, Vec<u8>, u32)]) -> Vec<u8> {
    let mut out = Vec::new();
    out.extend_from_slice(signature);
    let mut payload_at = 4 + 36;
    let mut list = Vec::new();
    let mut payloads = Vec::new();
    for (name, flags, stored, uncompressed) in entries {
        list.extend(file_entry(name, payload_at as u64, *flags, stored.len() as u32, *uncompressed));
        payloads.extend_from_slice(stored);
        payload_at += stored.len();
    }
    let packed = lz4_flex::block::compress(&list);
    out.extend_from_slice(&version.to_le_bytes());
    out.extend_from_slice(&(payload_at as u64).to_le_bytes());
    out.extend_from_slice(&((8 + packed.len()) as u32).to_le_bytes());
    out.push(3);
    out.push(7);
    out.extend_from_slice(&[0u8; 16]);
    out.extend_from_slice(&1u16.to_le_bytes());
    out.extend_from_slice(&payloads);
    out.extend_from_slice(&(entries.len() as u32).to_le_bytes());
    out.extend_from_slice(&(packed.len() as u32).to_le_bytes());
    out.extend_from_slice(&packed);
    out
}

#[test]
fn minimal_package_zlib_entry_decompresses() {
    let bytes = archive(b"LSPK", 18, &[("foo.txt", 1, zlib(b"abcd"), 4)]);
    let mut reader = PackageReader::new("test.lsv".to_string(), bytes);
    let package = reader.read().unwrap();
    assert_eq!(package.files.len(), 1);
    assert_eq!(package.files[0].name, "foo.txt");
    assert_eq!(package.metadata.flags, 3);
    assert_eq!(package.metadata.priority, 7);
    assert_eq!(package.files[0].offset_in_file, 40);
    assert_eq!(CompressionMethod::get(package.files[0].flags), Some(CompressionMethod::Zlib));
    let content = reader.decompress_file(&package.files[0]).unwrap();
    assert_eq!(content, b"abcd".to_vec());
}

#[test]
fn wrong_signature_is_not_lspk() {
    let bytes = archive(b"XXXX", 18, &[("foo.txt", 1, zlib(b"abcd"), 4)]);
    let mut reader = PackageReader::new("test.lsv".to_string(), bytes);
    let failure = reader.read().unwrap_err();
    assert_eq!(failure, Failure { kind: Error::NotLSPK, section: Section::Package, offset: 0 });
}

#[test]
fn entry_flags_with_bit_7_are_refused() {
    let bytes = archive(b"LSPK", 18, &[("foo.txt", 0x88, zlib(b"abcd"), 4)]);
    let mut reader = PackageReader::new("test.lsv".to_string(), bytes);
    let failure = reader.read().unwrap_err();
    assert_eq!(failure.kind, Error::UnsupportedEntryFlags);
    assert_eq!(failure.section, Section::FileList);
    assert_eq!(failure.offset, 40 + zlib(b"abcd").len() as u64);
}

#[test]
fn package_version_other_than_18_is_refused() {
    let bytes = archive(b"LSPK", 16, &[("foo.txt", 1, zlib(b"abcd"), 4)]);
    let mut reader = PackageReader::new("test.lsv".to_string(), bytes);
    assert_eq!(reader.read().unwrap_err().kind, Error::UnsupportedPackageVersion);
}

#[test]
fn truncated_archives_are_short() {
    let bytes = archive(b"LSPK", 18, &[("foo.txt", 1, zlib(b"abcd"), 4)]);
    for cut in [0usize, 3, 4, 7, 8, 39, bytes.len() - 1] {
        let mut reader = PackageReader::new("test.lsv".to_string(), bytes[..cut].to_vec());
        assert_eq!(reader.read().unwrap_err().kind, Error::ShortRead, "cut at {}", cut);
    }
    let mut far = bytes.clone();
    far[8..16].copy_from_slice(&u64::MAX.to_le_bytes());
    let mut reader = PackageReader::new("test.lsv".to_string(), far);
    assert_eq!(reader.read().unwrap_err().kind, Error::ShortRead);
}

#[test]
fn read_twice_gives_the_same_package() {
    let bytes = archive(b"LSPK", 18, &[("a", 0, b"xy".to_vec(), 2), ("b", 2, lz4_flex::block::compress(b"zzzzzzzzzz"), 10)]);
    let mut reader = PackageReader::new("test.lsv".to_string(), bytes);
    let first = reader.read().unwrap();
    let second = reader.read().unwrap();
    assert_eq!(first.files.len(), 2);
    assert_eq!(second.files.len(), 2);
    assert_eq!(first.entries(), &second.files);
    assert_eq!(reader.position, reader.buffer.len() as u64);
    assert_eq!(first.files[1].name, second.files[1].name);
    assert_eq!(reader.decompress_file(&first.files[0]).unwrap(), b"xy".to_vec());
    assert_eq!(reader.decompress_file(&second.files[1]).unwrap(), b"zzzzzzzzzz".to_vec());
    assert_eq!(first.files[0].size(), 2);
    assert_eq!(first.files[1].size(), 10);
}

#[test]
fn file_list_of_the_wrong_size_is_a_mismatch() {
    let mut bytes = archive(b"LSPK", 18, &[("foo.txt", 1, zlib(b"abcd"), 4)]);
    let list_at = u64::from_le_bytes(bytes[8..16].try_into().unwrap()) as usize;
    bytes[list_at..list_at + 4].copy_from_slice(&2u32.to_le_bytes());
    let mut reader = PackageReader::new("test.lsv".to_string(), bytes.clone());
    assert_eq!(reader.read().unwrap_err().kind, Error::SizeMismatch);
    bytes[list_at..list_at + 4].copy_from_slice(&0u32.to_le_bytes());
    let mut reader = PackageReader::new("test.lsv".to_string(), bytes.clone());
    assert_eq!(reader.read().unwrap_err().kind, Error::DecompressFailed);
    bytes[list_at..list_at + 4].copy_from_slice(&1u32.to_le_bytes());
    let last = bytes.len() - 1;
    bytes[list_at + 8] = 0xF0;
    bytes[last] ^= 0xFF;
    let mut reader = PackageReader::new("test.lsv".to_string(), bytes);
    assert!(reader.read().is_err());
}

#[test]
fn entry_offset_joins_low_and_high_part() {
    let mut e = file_entry("big", 0xABCD_1234_5678, 0x42, 9, 10);
    let info = bg3_lib::file_entry::file_info(&bg3_lib::file_entry::read_file_entry(&e, 0)).unwrap();
    assert_eq!(info.offset_in_file, 0x5678u64 | 0x1234_0000 | (0xABCDu64 << 32));
    assert_eq!(info.offset_in_file, bg3_lib::file_entry::join_offset(0x1234_5678, 0xABCD));
    assert_eq!(info.flags, 0x42);
    assert_eq!(info.size_on_disk, 9);
    assert_eq!(info.uncompressed_size, 10);
    assert_eq!(info.crc, 0);
    assert_eq!(info.archive_part, 0);
    assert_eq!(info.name, "big");
    e[262] = 5;
    e[0..3].copy_from_slice(&[0x62, 0xFF, 0x67]);
    for b in e[3..256].iter_mut() {
        *b = b'x';
    }
    let entry = bg3_lib::file_entry::read_file_entry(&e, 0);
    assert_eq!(entry.offset_in_file_1, 0x1234_5678);
    assert_eq!(entry.offset_in_file_2, 0xABCD);
    let info = bg3_lib::file_entry::file_info(&entry).unwrap();
    assert_eq!(info.archive_part, 5);
    assert_eq!(info.name.chars().count(), 256);
    assert!(info.name.starts_with("b\u{FFFD}gx"));
}

#[test]
fn entry_flags_rules() {
    for flags in 0u8..=255 {
        let e = file_entry("f", 0, flags, 0, 0);
        let r = bg3_lib::file_entry::file_info(&bg3_lib::file_entry::read_file_entry(&e, 0));
        let accepted = (flags & 0x0F) <= 3 && (flags & 0x80) == 0;
        match r {
            Ok(info) => {
                assert!(accepted);
                assert_eq!(info.flags, flags);
            }
            Err(e) => {
                assert!(!accepted);
                assert_eq!(e, Error::UnsupportedEntryFlags);
            }
        }
    }
}

#[test]
fn entries_over_2_gib_are_refused() {
    let bytes = archive(b"LSPK", 18, &[("foo.txt", 1, zlib(b"abcd"), 4)]);
    let mut reader = PackageReader::new("test.lsv".to_string(), bytes);
    let package = reader.read().unwrap();
    let mut pfi = package.files[0].duplicate();
    pfi.size_on_disk = 0x8000_0000;
    assert_eq!(
        reader.decompress_file(&pfi).unwrap_err(),
        Failure { kind: Error::EntryTooLarge, section: Section::Entry, offset: 40 }
    );
    pfi.size_on_disk = 0x7fff_ffff;
    assert_eq!(reader.decompress_file(&pfi).unwrap_err().kind, Error::ShortRead);
    let mut pfi = package.files[0].duplicate();
    pfi.offset_in_file = u64::MAX;
    assert_eq!(reader.decompress_file(&pfi).unwrap_err().kind, Error::ShortRead);
    let mut pfi = package.files[0].duplicate();
    pfi.uncompressed_size = 5;
    assert_eq!(reader.decompress_file(&pfi).unwrap_err().kind, Error::DecompressFailed);
    let mut pfi = package.files[0].duplicate();
    pfi.flags = 0;
    assert_eq!(reader.decompress_file(&pfi).unwrap_err().kind, Error::SizeMismatch);
    pfi.uncompressed_size = pfi.size_on_disk;
    assert_eq!(reader.decompress_file(&pfi).unwrap(), zlib(b"abcd"));
    pfi.flags = 3;
    assert_eq!(reader.decompress_file(&pfi).unwrap_err().kind, Error::UnsupportedCompression);
}

#[test]
fn sizes_go_by_the_compression_method() {
    let info = |flags: u8| AbstractFileInfo::PackagedFileInfo {
        offset_in_file: 0,
        size_on_disk: 11,
        uncompressed_size: 22,
        archive_part: 0,
        flags,
        crc: 0,
        name: "n".to_string(),
    };
    assert_eq!(info(0).size(), 11);
    assert_eq!(info(0x40).size(), 11);
    assert_eq!(info(1).size(), 22);
    assert_eq!(info(0x42).size(), 22);
    assert_eq!(AbstractFileInfo::Unknown.size(), 0);
    assert_eq!(CompressionMethod::get(0), Some(CompressionMethod::Stored));
    assert_eq!(CompressionMethod::get(0x71), Some(CompressionMethod::Zlib));
    assert_eq!(CompressionMethod::get(0x12), Some(CompressionMethod::LZ4));
    assert_eq!(CompressionMethod::get(3), Some(CompressionMethod::ZSTD));
    assert_eq!(CompressionMethod::get(4), None);
    assert_eq!(CompressionMethod::get(0xFF), None);
}

#[test]
fn new_values_are_empty() {
    let p = Package::new();
    assert!(p.files.is_empty());
    assert_eq!(p.version, PackageVersion::V18);
    assert_eq!(p.metadata, PackageMetadata { flags: 0, priority: 0 });
    assert_eq!(PackageMetadata::new(), PackageMetadata::default());
    assert_eq!(PackageVersion::default(), PackageVersion::Unset);
    assert_eq!(PackageVersion::try_from(18), Ok(PackageVersion::V18));
    assert_eq!(PackageVersion::try_from(17), Err(Error::UnsupportedPackageVersion));
    assert_eq!(PackageVersion::V18.tag(), Some(18));
    assert_eq!(PackageVersion::Unset.tag(), None);
    let r = bg3_lib::lsf_reader::Resource::new();
    assert_eq!(r.metadata.major_version, 3);
    assert!(r.node_instances.is_empty());
    assert_eq!(r.regions.len(), 0);
    let reader = bg3_lib::lsf_reader::LSFReader::new();
    assert_eq!(reader.version, None);
    assert!(reader.values.is_empty());
}

#[test]
fn file_type_goes_by_the_extension() {
    assert_eq!(FileType::of_name("Globals.lsf"), FileType::Lsf);
    assert_eq!(FileType::of_name("dir.json/meta.LSF"), FileType::Lsf);
    assert_eq!(FileType::of_name("a/b/data.Bin"), FileType::Bin);
    assert_eq!(FileType::of_name("info.json"), FileType::Json);
    assert_eq!(FileType::of_name("image.WebP"), FileType::WebP);
    assert_eq!(FileType::of_name("image.webp.txt"), FileType::Unknown);
    assert_eq!(FileType::of_name("lsf"), FileType::Unknown);
    assert_eq!(FileType::of_name(".lsf"), FileType::Unknown);
    assert_eq!(FileType::of_name("x.lsf/"), FileType::Lsf);
    assert_eq!(FileType::of_name(""), FileType::Unknown);
    assert_eq!(FileType::of_extension(Some("JSON")), FileType::Json);
    assert_eq!(FileType::of_extension(Some("jsonx")), FileType::Unknown);
    assert_eq!(FileType::of_extension(None), FileType::Unknown);
    assert_eq!(FileType::default(), FileType::Unknown);
    let bytes = archive(b"LSPK", 18, &[("a/Globals.LSF", 0, vec![], 0), ("b.bin", 0, vec![], 0)]);
    let mut reader = PackageReader::new("test.lsv".to_string(), bytes);
    let package = reader.read().unwrap();
    let first = PackageFile::classify(package.files[0].duplicate());
    assert_eq!(first.file_type, FileType::Lsf);
    assert_eq!(first.pfi, package.files[0]);
    let second = PackageFile::new(FileType::Json, package.files[1].duplicate());
    assert_eq!(second.file_type, FileType::Json);
    assert!(first != second);
    assert!(first == PackageFile::new(FileType::Unknown, package.files[0].duplicate()));
}
