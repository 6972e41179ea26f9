use vstd::prelude::*;
use crate::bin_utils::bytes_at;
use crate::bin_utils::le_u16;
use crate::bin_utils::le_u32;
use crate::bin_utils::le_u64;
use crate::bin_utils::ByteReader;
use crate::error::Error;

verus! {

/// The header of a package of version 18: 36 bytes, packed.
#[derive(Debug, Clone, Copy)]
pub struct LSPKHeader16 {
    pub version: u32,
    pub file_list_offset: u64,
    pub _file_list_size: u32,
    pub flags: u8,
    pub priority: u8,
    pub _md5: [u8; 16],
    pub _num_parts: u16,
}

/// What an `LSPKHeader16` holds, the digest as a sequence of bytes.
pub struct LSPKHeader16View {
    pub version: u32,
    pub file_list_offset: u64,
    pub file_list_size: u32,
    pub flags: u8,
    pub priority: u8,
    pub md5: Seq<u8>,
    pub num_parts: u16,
}

impl View for LSPKHeader16 {
    type V = LSPKHeader16View;

    open spec fn view(&self) -> LSPKHeader16View {
        LSPKHeader16View {
            version: self.version,
            file_list_offset: self.file_list_offset,
            file_list_size: self._file_list_size,
            flags: self.flags,
            priority: self.priority,
            md5: self._md5@,
            num_parts: self._num_parts,
        }
    }
}

/// The number of bytes of a header.
pub const LSPK_HEADER_SIZE: usize = 36;

/// The header stored at `pos`.
pub open spec fn header_at(data: Seq<u8>, pos: int) -> LSPKHeader16View {
    LSPKHeader16View {
        version: le_u32(data, pos),
        file_list_offset: le_u64(data, pos + 4),
        file_list_size: le_u32(data, pos + 12),
        flags: data[pos + 16],
        priority: data[pos + 17],
        md5: bytes_at(data, pos + 18, 16),
        num_parts: le_u16(data, pos + 34),
    }
}

/// Reads the header at the cursor.
pub fn read_lspk_header(stream: &mut ByteReader) -> (r: Result<LSPKHeader16, Error>)
    ensures
        final(stream).data@ == old(stream).data@,
        crate::bin_utils::parsed(
            r,
            final(stream).pos as int,
            if crate::bin_utils::available(old(stream).data@, old(stream).pos as int, 36) {
                Ok((header_at(old(stream).data@, old(stream).pos as int), old(stream).pos + 36))
            } else {
                Err(Error::ShortRead)
            },
        ),
{
    if !stream.has(36) {
        return Err(Error::ShortRead);
    }
    let ghost start = stream.pos as int;
    let version = stream.read_u32()?;
    let file_list_offset = stream.read_u64()?;
    let file_list_size = stream.read_u32()?;
    let flags = stream.read_u8()?;
    let priority = stream.read_u8()?;
    let md5 = stream.read_array::<16>()?;
    let num_parts = stream.read_u16()?;
    Ok(
        LSPKHeader16 {
            version,
            file_list_offset,
            _file_list_size: file_list_size,
            flags,
            priority,
            _md5: md5,
            _num_parts: num_parts,
        },
    )
}

} // verus!
