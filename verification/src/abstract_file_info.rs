use vstd::prelude::*;

verus! {

/// A file as the archive describes it.
#[derive(Debug)]
pub enum AbstractFileInfo {
    PackagedFileInfo {
        offset_in_file: u64,
        size_on_disk: usize,
        uncompressed_size: usize,
        archive_part: u8,
        flags: u8,
        crc: u32,
        name: String,
    },
    Unknown,
}

/// The size of the content of an entry: what is stored where the entry is not
/// compressed, the declared uncompressed size where it is.
pub open spec fn content_size(flags: u8, size_on_disk: usize, uncompressed_size: usize) -> usize {
    if flags & 0x0f == 0 {
        size_on_disk
    } else {
        uncompressed_size
    }
}

impl AbstractFileInfo {
    /// The size of the file's content; 0 for a file of unknown kind.
    pub open spec fn spec_size(&self) -> usize {
        match self {
            AbstractFileInfo::PackagedFileInfo { flags, size_on_disk, uncompressed_size, .. } => {
                content_size(*flags, *size_on_disk, *uncompressed_size)
            },
            AbstractFileInfo::Unknown => 0,
        }
    }

    /// The size of the file's content; 0 for a file of unknown kind.
    pub fn size(&self) -> (n: usize)
        ensures
            n == self.spec_size(),
    {
        match self {
            AbstractFileInfo::PackagedFileInfo { flags, size_on_disk, uncompressed_size, .. } => {
                if (*flags & 0x0f) == 0 {
                    *size_on_disk
                } else {
                    *uncompressed_size
                }
            },
            _ => 0,
        }
    }
}

/// One entry of a package.
#[derive(Debug, Clone, PartialEq)]
pub struct PackagedFileInfo {
    /// Offset of the payload within its archive part (48 bits).
    pub offset_in_file: u64,
    pub size_on_disk: usize,
    pub uncompressed_size: usize,
    /// 0-based index of the archive part that holds the payload.
    pub archive_part: u8,
    /// Low nibble: compression method; bit 6: chunked hint.
    pub flags: u8,
    /// 0 when absent.
    pub crc: u32,
    /// Logical path, POSIX style.
    pub name: String,
}

/// What a `PackagedFileInfo` holds, with the name as a sequence of characters.
pub struct PackagedFileInfoView {
    pub offset_in_file: u64,
    pub size_on_disk: usize,
    pub uncompressed_size: usize,
    pub archive_part: u8,
    pub flags: u8,
    pub crc: u32,
    pub name: Seq<char>,
}

impl View for PackagedFileInfo {
    type V = PackagedFileInfoView;

    open spec fn view(&self) -> PackagedFileInfoView {
        PackagedFileInfoView {
            offset_in_file: self.offset_in_file,
            size_on_disk: self.size_on_disk,
            uncompressed_size: self.uncompressed_size,
            archive_part: self.archive_part,
            flags: self.flags,
            crc: self.crc,
            name: self.name@,
        }
    }
}

impl PackagedFileInfo {
    /// The size of the entry's content.
    pub open spec fn spec_size(&self) -> usize {
        content_size(self.flags, self.size_on_disk, self.uncompressed_size)
    }

    /// The size of the entry's content.
    pub fn size(&self) -> (n: usize)
        ensures
            n == self.spec_size(),
    {
        if (self.flags & 0x0f) == 0 {
            self.size_on_disk
        } else {
            self.uncompressed_size
        }
    }

    /// A copy of the entry.
    pub fn duplicate(&self) -> (copy: Self)
        ensures
            copy@ == self@,
    {
        PackagedFileInfo {
            offset_in_file: self.offset_in_file,
            size_on_disk: self.size_on_disk,
            uncompressed_size: self.uncompressed_size,
            archive_part: self.archive_part,
            flags: self.flags,
            crc: self.crc,
            name: self.name.clone(),
        }
    }
}

/// The codec that the low nibble of an entry's flags selects.
#[derive(Debug, Clone, Copy, PartialEq, Eq, Structural)]
pub enum CompressionMethod {
    Stored,
    Zlib,
    LZ4,
    ZSTD,
}

impl CompressionMethod {
    /// The method named by the low nibble of `flags`, if it is one of the four known.
    pub open spec fn spec_get(flags: u8) -> Option<Self> {
        let nibble = flags & 0x0F;
        if nibble == 0 {
            Some(CompressionMethod::Stored)
        } else if nibble == 1 {
            Some(CompressionMethod::Zlib)
        } else if nibble == 2 {
            Some(CompressionMethod::LZ4)
        } else if nibble == 3 {
            Some(CompressionMethod::ZSTD)
        } else {
            None
        }
    }

    /// The method named by the low nibble of `flags`, if it is one of the four known.
    pub fn get(flags: u8) -> (m: Option<Self>)
        ensures
            m == Self::spec_get(flags),
    {
        let nibble: u8 = flags & 0x0F;
        if nibble == 0 {
            Some(CompressionMethod::Stored)
        } else if nibble == 1 {
            Some(CompressionMethod::Zlib)
        } else if nibble == 2 {
            Some(CompressionMethod::LZ4)
        } else if nibble == 3 {
            Some(CompressionMethod::ZSTD)
        } else {
            None
        }
    }
}

} // verus!
