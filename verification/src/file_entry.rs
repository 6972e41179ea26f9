use vstd::prelude::*;
use crate::abstract_file_info::PackagedFileInfo;
use crate::abstract_file_info::PackagedFileInfoView;
use crate::bin_utils::array_at;
use crate::bin_utils::bytes_at;
use crate::bin_utils::decode_lossy;
use crate::bin_utils::le_u16;
use crate::bin_utils::le_u32;
use crate::bin_utils::u16_at;
use crate::bin_utils::u32_at;
use crate::bin_utils::utf8_lossy;
use crate::error::Error;

verus! {

/// An entry of the file list of a package of version 18: 272 bytes, packed.
#[derive(Debug, Clone, Copy)]
pub struct FileEntry18 {
    /// The logical path, ended by NUL where it is shorter than the field.
    pub name: [u8; 256],
    /// The low 32 bits of the offset.
    pub offset_in_file_1: u32,
    /// The high 16 bits of the offset.
    pub offset_in_file_2: u16,
    pub archive_part: u8,
    pub flags: u8,
    pub size_on_disk: u32,
    pub uncompressed_size: u32,
}

/// What a `FileEntry18` holds, the name as a sequence of bytes.
pub struct FileEntry18View {
    pub name: Seq<u8>,
    pub offset_in_file_1: u32,
    pub offset_in_file_2: u16,
    pub archive_part: u8,
    pub flags: u8,
    pub size_on_disk: u32,
    pub uncompressed_size: u32,
}

impl View for FileEntry18 {
    type V = FileEntry18View;

    open spec fn view(&self) -> FileEntry18View {
        FileEntry18View {
            name: self.name@,
            offset_in_file_1: self.offset_in_file_1,
            offset_in_file_2: self.offset_in_file_2,
            archive_part: self.archive_part,
            flags: self.flags,
            size_on_disk: self.size_on_disk,
            uncompressed_size: self.uncompressed_size,
        }
    }
}

/// The number of bytes of an entry: those of its fields, without padding.
pub const SIZE_OF_FILE_ENTRY_18: usize = 256 + 4 + 2 + 1 + 1 + 4 + 4;

/// The entry stored at `pos`.
pub open spec fn entry_at(data: Seq<u8>, pos: int) -> FileEntry18View {
    FileEntry18View {
        name: bytes_at(data, pos, 256),
        offset_in_file_1: le_u32(data, pos + 256),
        offset_in_file_2: le_u16(data, pos + 260),
        archive_part: data[pos + 262],
        flags: data[pos + 263],
        size_on_disk: le_u32(data, pos + 264),
        uncompressed_size: le_u32(data, pos + 268),
    }
}

/// The place of the first NUL of `name` from `from` on; the length of `name` where
/// there is none.
pub open spec fn first_nul(name: Seq<u8>, from: int) -> int
    decreases name.len() - from,
{
    if from < 0 || from >= name.len() {
        name.len() as int
    } else if name[from] == 0 {
        from
    } else {
        first_nul(name, from + 1)
    }
}

/// The bytes of `name` before its first NUL.
pub open spec fn until_nul(name: Seq<u8>) -> Seq<u8> {
    name.subrange(0, first_nul(name, 0))
}

/// The 48-bit offset made of its low 32 bits and its high 16 bits.
pub open spec fn spec_offset(low: u32, high: u16) -> u64 {
    (low as u64) | ((high as u64) << 32)
}

/// Whether the flags of an entry are accepted: a compression method from 0 to 3 and no
/// bit outside the mask `0x7F`.
pub open spec fn flags_accepted(flags: u8) -> bool {
    (flags & 0x0F) <= 3 && (flags & 0x80) == 0
}

/// The file that an entry describes, where its flags are accepted.
pub open spec fn spec_file_info(entry: FileEntry18View) -> Result<PackagedFileInfoView, Error> {
    if flags_accepted(entry.flags) {
        Ok(
            PackagedFileInfoView {
                offset_in_file: spec_offset(entry.offset_in_file_1, entry.offset_in_file_2),
                size_on_disk: entry.size_on_disk as usize,
                uncompressed_size: entry.uncompressed_size as usize,
                archive_part: entry.archive_part,
                flags: entry.flags,
                crc: 0,
                name: utf8_lossy(until_nul(entry.name)),
            },
        )
    } else {
        Err(Error::UnsupportedEntryFlags)
    }
}

/// Joins the two parts of an offset.
pub fn join_offset(low: u32, high: u16) -> (offset: u64)
    ensures
        offset == spec_offset(low, high),
        offset == low + high * 0x1_0000_0000,
        offset < 0x1_0000_0000_0000,
{
    let offset = (low as u64) | ((high as u64) << 32);
    assert(((low as u64) | ((high as u64) << 32)) == low as u64 + (high as u64) * 0x1_0000_0000)
        by (bit_vector);
    offset
}

/// Reads the entry at `pos`, which must lie inside `data`.
pub fn read_file_entry(data: &[u8], pos: usize) -> (entry: FileEntry18)
    requires
        pos + 272 <= data@.len(),
    ensures
        entry@ == entry_at(data@, pos as int),
{
    let len = data.len();
    FileEntry18 {
        name: array_at::<256>(data, pos),
        offset_in_file_1: u32_at(data, pos + 256),
        offset_in_file_2: u16_at(data, pos + 260),
        archive_part: data[pos + 262],
        flags: data[pos + 263],
        size_on_disk: u32_at(data, pos + 264),
        uncompressed_size: u32_at(data, pos + 268),
    }
}

/// The file that an entry describes. An entry whose flags are not accepted is refused.
pub fn file_info(entry: &FileEntry18) -> (r: Result<PackagedFileInfo, Error>)
    ensures
        match spec_file_info(entry@) {
            Ok(info) => r is Ok && r->Ok_0@ == info,
            Err(e) => r is Err && r->Err_0 == e,
        },
{
    let mut name_len: usize = 0;
    while name_len < 256 && entry.name[name_len] != 0
        invariant
            name_len <= 256,
            first_nul(entry.name@, 0) == first_nul(entry.name@, name_len as int),
        decreases 256 - name_len,
    {
        name_len += 1;
    }
    let name_bytes = vstd::slice::slice_subrange(entry.name.as_slice(), 0, name_len);
    assert(name_bytes@ =~= until_nul(entry.name@));
    let name = decode_lossy(name_bytes);
    if (entry.flags & 0x0F) > 3 || (entry.flags & 0x80) != 0 {
        return Err(Error::UnsupportedEntryFlags);
    }
    Ok(
        PackagedFileInfo {
            offset_in_file: join_offset(entry.offset_in_file_1, entry.offset_in_file_2),
            size_on_disk: entry.size_on_disk as usize,
            uncompressed_size: entry.uncompressed_size as usize,
            archive_part: entry.archive_part,
            flags: entry.flags,
            crc: 0,
            name,
        },
    )
}

} // verus!
