use vstd::prelude::*;
use crate::abstract_file_info::PackagedFileInfo;
use crate::abstract_file_info::PackagedFileInfoView;
use crate::bin_utils::available;
use crate::bin_utils::bytes_at;
use crate::bin_utils::bytes_result;
use crate::bin_utils::decompress;
use crate::bin_utils::decompress_lz4_block;
use crate::bin_utils::le_u32;
use crate::bin_utils::spec_decompress;
use crate::bin_utils::spec_lz4_block;
use crate::bin_utils::ByteReader;
use crate::error::in_section;
use crate::error::locate;
use crate::error::Error;
use crate::error::Failure;
use crate::error::Section;
use crate::file_entry::entry_at;
use crate::file_entry::file_info;
use crate::file_entry::flags_accepted;
use crate::file_entry::read_file_entry;
use crate::file_entry::spec_file_info;
use crate::lspk_header::header_at;
use crate::lspk_header::read_lspk_header;
use crate::lspk_header::LSPKHeader16View;
use crate::package::files_view;
use crate::package::Package;
use crate::package::PackageView;
use crate::package_metadata::PackageMetadata;
use crate::package_version::PackageVersion;

verus! {

/// A reader of one archive, which it holds in memory.
#[derive(Debug)]
pub struct PackageReader {
    pub file_name: String,
    /// The bytes of the archive.
    pub buffer: Vec<u8>,
    /// The read cursor: where the last read ended.
    pub position: u64,
}

/// Whether the four bytes at `pos` are `LSPK`.
pub open spec fn is_lspk(data: Seq<u8>, pos: int) -> bool {
    data[pos] == 0x4C && data[pos + 1] == 0x53 && data[pos + 2] == 0x50 && data[pos + 3] == 0x4B
}

/// Whether each of the first `n` entries of a file list has flags that are accepted.
pub open spec fn all_accepted(list: Seq<u8>, n: int) -> bool {
    forall|i: int| 0 <= i < n ==> flags_accepted(#[trigger] entry_at(list, 272 * i).flags)
}

/// The files that a decoded file list of `n` entries describes, in order. One entry
/// whose flags are not accepted spoils the list.
pub open spec fn spec_files(list: Seq<u8>, n: int) -> Result<Seq<PackagedFileInfoView>, Error> {
    if all_accepted(list, n) {
        Ok(Seq::new(n as nat, |i: int| spec_file_info(entry_at(list, 272 * i))->Ok_0))
    } else {
        Err(Error::UnsupportedEntryFlags)
    }
}

/// The files of the file list stored at `pos`: the number of files, the size of the
/// compressed list, and the list as an LZ4 block that holds 272 bytes for each file.
pub open spec fn spec_file_list(data: Seq<u8>, pos: int) -> Result<
    Seq<PackagedFileInfoView>,
    Error,
> {
    if !available(data, pos, 8) {
        Err(Error::ShortRead)
    } else if !available(data, pos + 8, le_u32(data, pos + 4) as int) {
        Err(Error::ShortRead)
    } else if le_u32(data, pos) * 272 > usize::MAX {
        Err(Error::SizeMismatch)
    } else {
        match spec_lz4_block(
            bytes_at(data, pos + 8, le_u32(data, pos + 4) as int),
            (le_u32(data, pos) * 272) as usize,
        ) {
            Err(e) => Err(e),
            Ok(list) => spec_files(list, le_u32(data, pos) as int),
        }
    }
}

/// The header of an archive: the signature `LSPK`, the version tag 18, and the header,
/// which starts at the version tag.
pub open spec fn spec_package_header(data: Seq<u8>) -> Result<LSPKHeader16View, Error> {
    if !available(data, 0, 4) {
        Err(Error::ShortRead)
    } else if !is_lspk(data, 0) {
        Err(Error::NotLSPK)
    } else if !available(data, 4, 4) {
        Err(Error::ShortRead)
    } else if le_u32(data, 4) != 18 {
        Err(Error::UnsupportedPackageVersion)
    } else if !available(data, 4, 36) {
        Err(Error::ShortRead)
    } else {
        Ok(header_at(data, 4))
    }
}

/// Where the file list stored at `pos` ends.
pub open spec fn spec_file_list_end(data: Seq<u8>, pos: int) -> int {
    pos + 8 + le_u32(data, pos + 4)
}

/// The package that an archive holds: what its header says, and the files of the file
/// list at the place that the header names. An error comes with the part of the archive
/// in which it came up.
pub open spec fn spec_package(data: Seq<u8>) -> Result<PackageView, Failure> {
    match spec_package_header(data) {
        Err(kind) => Err(Failure { kind, section: Section::Package, offset: 0 }),
        Ok(header) => match spec_file_list(data, header.file_list_offset as int) {
            Err(kind) => Err(
                Failure { kind, section: Section::FileList, offset: header.file_list_offset },
            ),
            Ok(files) => Ok(
                PackageView {
                    metadata: PackageMetadata { flags: header.flags, priority: header.priority },
                    files,
                    version: PackageVersion::V18,
                },
            ),
        },
    }
}

/// The content of the entry `pfi` of an archive: what the codec makes of the bytes
/// stored at the entry's offset. An entry of more than 2 GiB - 1 on disk is refused.
pub open spec fn spec_entry(data: Seq<u8>, pfi: PackagedFileInfoView) -> Result<Seq<u8>, Error> {
    if pfi.size_on_disk > 0x7fff_ffff {
        Err(Error::EntryTooLarge)
    } else if !available(data, pfi.offset_in_file as int, pfi.size_on_disk as int) {
        Err(Error::ShortRead)
    } else {
        spec_decompress(
            bytes_at(data, pfi.offset_in_file as int, pfi.size_on_disk as int),
            pfi.uncompressed_size,
            pfi.flags,
            false,
        )
    }
}

/// The content of the entry `pfi` of an archive, or the error and the offset of the
/// entry.
pub open spec fn spec_entry_located(data: Seq<u8>, pfi: PackagedFileInfoView) -> Result<
    Seq<u8>,
    Failure,
> {
    in_section(spec_entry(data, pfi), Section::Entry, pfi.offset_in_file)
}

/// Whether each file has flags that are accepted, and an offset of 48 bits.
pub open spec fn all_files_accepted(files: Seq<PackagedFileInfoView>) -> bool {
    forall|i: int|
        0 <= i < files.len() ==> flags_accepted((#[trigger] files[i]).flags) && files[i].offset_in_file
            < 0x1_0000_0000_0000 && files[i].crc == 0
}

/// Each file of a package that was decoded has flags that are accepted, the offset that
/// the two parts in its entry make, and no checksum.
pub proof fn lemma_package_files(data: Seq<u8>)
    requires
        spec_package(data) is Ok,
    ensures
        all_files_accepted(spec_package(data)->Ok_0.files),
{
    let pos = header_at(data, 4).file_list_offset as int;
    let n = le_u32(data, pos) as int;
    let list = spec_lz4_block(
        bytes_at(data, pos + 8, le_u32(data, pos + 4) as int),
        (le_u32(data, pos) * 272) as usize,
    )->Ok_0;
    let files = spec_package(data)->Ok_0.files;
    assert forall|i: int| 0 <= i < files.len() implies flags_accepted((#[trigger] files[i]).flags)
        && files[i].offset_in_file < 0x1_0000_0000_0000 && files[i].crc == 0 by {
        let entry = entry_at(list, 272 * i);
        assert(flags_accepted(entry.flags));
        let low = entry.offset_in_file_1;
        let high = entry.offset_in_file_2;
        assert(((low as u64) | ((high as u64) << 32)) < 0x1_0000_0000_0000) by (bit_vector);
    }
}

/// Turns the decoded file list of `n` entries into files.
pub fn read_files(list: &[u8], n: usize) -> (r: Result<Vec<PackagedFileInfo>, Error>)
    requires
        list@.len() == n * 272,
    ensures
        match spec_files(list@, n as int) {
            Ok(files) => r is Ok && files_view(r->Ok_0@) == files,
            Err(e) => r is Err && r->Err_0 == e,
        },
{
    let len = list.len();
    let mut files: Vec<PackagedFileInfo> = Vec::new();
    let mut i: usize = 0;
    while i < n
        invariant
            i <= n,
            len == list@.len(),
            len == n * 272,
            files@.len() == i,
            all_accepted(list@, i as int),
            forall|k: int|
                0 <= k < i ==> (#[trigger] files@[k])@ == spec_file_info(
                    entry_at(list@, 272 * k),
                )->Ok_0,
        decreases n - i,
    {
        let entry = read_file_entry(list, i * 272);
        match file_info(&entry) {
            Ok(info) => {
                files.push(info);
            },
            Err(e) => {
                assert(!flags_accepted(entry_at(list@, 272 * i).flags));
                return Err(e);
            },
        }
        i += 1;
    }
    assert(files_view(files@) =~= spec_files(list@, n as int)->Ok_0);
    Ok(files)
}

impl PackageReader {
    /// A reader of the archive `buffer`, which was read from the file `file_name`.
    pub fn new(file_name: String, buffer: Vec<u8>) -> (reader: Self)
        ensures
            reader.file_name == file_name,
            reader.buffer == buffer,
            reader.position == 0,
    {
        PackageReader { file_name, buffer, position: 0 }
    }

    /// Reads the package from the start of the archive.
    pub fn read(&mut self) -> (r: Result<Package, Failure>)
        ensures
            final(self).buffer == old(self).buffer,
            final(self).file_name == old(self).file_name,
            match spec_package(old(self).buffer@) {
                Ok(package) => r is Ok && r->Ok_0@ == package,
                Err(e) => r is Err && r->Err_0 == e,
            },
            r matches Ok(package) ==> all_files_accepted(package@.files) && final(self).position
                == spec_file_list_end(
                old(self).buffer@,
                header_at(old(self).buffer@, 4).file_list_offset as int,
            ),
    {
        let mut stream = ByteReader::new(self.buffer.as_slice());
        let signature = locate(stream.read_array::<4>(), Section::Package, 0)?;
        self.position = 4;
        if signature[0] != 0x4C || signature[1] != 0x53 || signature[2] != 0x50 || signature[3]
            != 0x4B {
            return Err(Failure { kind: Error::NotLSPK, section: Section::Package, offset: 0 });
        }
        let version = locate(stream.read_u32(), Section::Package, 0)?;
        if version != 18 {
            return Err(
                Failure { kind: Error::UnsupportedPackageVersion, section: Section::Package, offset: 0 },
            );
        }
        proof {
            if spec_package(self.buffer@) is Ok {
                lemma_package_files(self.buffer@);
            }
        }
        self.read_package_v18(version)
    }

    /// Reads the header at the version tag, and the file list at the place that the
    /// header names.
    fn read_package_v18(&mut self, version: u32) -> (r: Result<Package, Failure>)
        requires
            available(old(self).buffer@, 0, 8),
            is_lspk(old(self).buffer@, 0),
            le_u32(old(self).buffer@, 4) == 18,
        ensures
            final(self).buffer == old(self).buffer,
            final(self).file_name == old(self).file_name,
            match spec_package(old(self).buffer@) {
                Ok(package) => r is Ok && r->Ok_0@ == package,
                Err(e) => r is Err && r->Err_0 == e,
            },
            r is Ok ==> final(self).position == spec_file_list_end(
                old(self).buffer@,
                header_at(old(self).buffer@, 4).file_list_offset as int,
            ),
    {
        let mut package = Package::new();
        let mut stream = ByteReader::new(self.buffer.as_slice());
        stream.seek(4);
        let header = locate(read_lspk_header(&mut stream), Section::Package, 0)?;
        package.metadata.flags = header.flags;
        package.metadata.priority = header.priority;
        package.version = PackageVersion::V18;
        self.position = header.file_list_offset;
        let files = locate(
            self.read_file_list_v18(),
            Section::FileList,
            header.file_list_offset,
        )?;
        package.files = files;
        Ok(package)
    }

    /// Reads the file list at the cursor.
    fn read_file_list_v18(&mut self) -> (r: Result<Vec<PackagedFileInfo>, Error>)
        ensures
            final(self).buffer == old(self).buffer,
            final(self).file_name == old(self).file_name,
            match spec_file_list(old(self).buffer@, old(self).position as int) {
                Ok(files) => r is Ok && files_view(r->Ok_0@) == files,
                Err(e) => r is Err && r->Err_0 == e,
            },
            r is Ok ==> final(self).position == spec_file_list_end(
                old(self).buffer@,
                old(self).position as int,
            ),
    {
        let mut stream = ByteReader::new(self.buffer.as_slice());
        if self.position > stream.len() as u64 {
            return Err(Error::ShortRead);
        }
        stream.seek(self.position as usize);
        if !stream.has(8) {
            return Err(Error::ShortRead);
        }
        let num_files = stream.read_u32()?;
        let compressed_size = stream.read_u32()?;
        let compressed_file_list = stream.read_bytes(compressed_size as usize)?;
        self.position = stream.pos as u64;
        if num_files as u64 * 272 > usize::MAX as u64 {
            return Err(Error::SizeMismatch);
        }
        let filebuffer_size: usize = (num_files as u64 * 272) as usize;
        let uncompressed_list = decompress_lz4_block(
            compressed_file_list.as_slice(),
            filebuffer_size,
        )?;
        read_files(uncompressed_list.as_slice(), num_files as usize)
    }

    /// Reads the content of the entry `pfi`.
    pub fn decompress_file(&mut self, pfi: &PackagedFileInfo) -> (r: Result<Vec<u8>, Failure>)
        ensures
            final(self).buffer == old(self).buffer,
            final(self).file_name == old(self).file_name,
            match spec_entry_located(old(self).buffer@, pfi@) {
                Ok(bytes) => r is Ok && r->Ok_0@ == bytes,
                Err(e) => r is Err && r->Err_0 == e,
            },
            r is Ok ==> final(self).position == pfi.offset_in_file + pfi.size_on_disk,
    {
        locate(self.read_entry(pfi), Section::Entry, pfi.offset_in_file)
    }

    /// Reads the content of the entry `pfi`.
    fn read_entry(&mut self, pfi: &PackagedFileInfo) -> (r: Result<Vec<u8>, Error>)
        ensures
            final(self).buffer == old(self).buffer,
            final(self).file_name == old(self).file_name,
            bytes_result(r, spec_entry(old(self).buffer@, pfi@)),
            r is Ok ==> final(self).position == pfi.offset_in_file + pfi.size_on_disk,
    {
        if pfi.size_on_disk > 0x7fff_ffff {
            return Err(Error::EntryTooLarge);
        }
        let len = self.buffer.len();
        let mut stream = ByteReader::new(self.buffer.as_slice());
        self.position = pfi.offset_in_file;
        if pfi.offset_in_file > len as u64 {
            if pfi.size_on_disk > 0 {
                return Err(Error::ShortRead);
            }
            stream.seek(len);
        } else {
            stream.seek(pfi.offset_in_file as usize);
        }
        let compressed = stream.read_bytes(pfi.size_on_disk)?;
        self.position = pfi.offset_in_file + pfi.size_on_disk as u64;
        decompress(compressed.as_slice(), pfi.uncompressed_size, pfi.flags, false)
    }
}

} // verus!
