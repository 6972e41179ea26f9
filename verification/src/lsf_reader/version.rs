use vstd::prelude::*;
use vstd::std_specs::convert::FromSpecImpl;
use crate::bin_utils::as_u32;
use crate::bin_utils::as_u64;
use crate::bin_utils::i32_to_u32;
use crate::bin_utils::i64_to_u64;
use crate::bin_utils::available;
use crate::bin_utils::le_u16;
use crate::bin_utils::le_u32;
use crate::bin_utils::le_u64;
use crate::bin_utils::u16_at;
use crate::bin_utils::u32_at;
use crate::bin_utils::u64_at;
use crate::bin_utils::ByteReader;
use crate::error::Error;

verus! {

/// The seven known versions of the resource format.
#[derive(Debug, Clone, Copy, PartialEq, Eq, Structural)]
pub enum LSFVersion {
    VerInitial,
    VerChunkedCompress,
    VerExtendedNodes,
    VerBG3,
    VerBG3ExtendedHeader,
    VerBG3AdditionalBlob,
    VerBg3Patch3,
}

impl LSFVersion {
    /// The number that stands for the version in a file: 1 to 7.
    pub open spec fn spec_number(self) -> u32 {
        match self {
            LSFVersion::VerInitial => 1,
            LSFVersion::VerChunkedCompress => 2,
            LSFVersion::VerExtendedNodes => 3,
            LSFVersion::VerBG3 => 4,
            LSFVersion::VerBG3ExtendedHeader => 5,
            LSFVersion::VerBG3AdditionalBlob => 6,
            LSFVersion::VerBg3Patch3 => 7,
        }
    }

    /// The version that `n` stands for, if any.
    pub open spec fn spec_get(n: u64) -> Option<Self> {
        if n == 1 {
            Some(LSFVersion::VerInitial)
        } else if n == 2 {
            Some(LSFVersion::VerChunkedCompress)
        } else if n == 3 {
            Some(LSFVersion::VerExtendedNodes)
        } else if n == 4 {
            Some(LSFVersion::VerBG3)
        } else if n == 5 {
            Some(LSFVersion::VerBG3ExtendedHeader)
        } else if n == 6 {
            Some(LSFVersion::VerBG3AdditionalBlob)
        } else if n == 7 {
            Some(LSFVersion::VerBg3Patch3)
        } else {
            None
        }
    }

    /// Whether this version is `other` or a later one.
    pub open spec fn spec_at_least(self, other: LSFVersion) -> bool {
        self.spec_number() >= other.spec_number()
    }

    /// The number that stands for the version in a file.
    pub fn number(self) -> (n: u32)
        ensures
            n == self.spec_number(),
            1 <= n <= 7,
            Self::spec_get(n as u64) == Some(self),
    {
        match self {
            LSFVersion::VerInitial => 1,
            LSFVersion::VerChunkedCompress => 2,
            LSFVersion::VerExtendedNodes => 3,
            LSFVersion::VerBG3 => 4,
            LSFVersion::VerBG3ExtendedHeader => 5,
            LSFVersion::VerBG3AdditionalBlob => 6,
            LSFVersion::VerBg3Patch3 => 7,
        }
    }

    /// The version that `n` stands for, if it is one of 1 to 7.
    pub fn get(n: u64) -> (v: Option<Self>)
        ensures
            v == Self::spec_get(n),
            v matches Some(version) ==> version.spec_number() == n,
            v is Some <==> 1 <= n <= 7,
    {
        if n == 1 {
            Some(LSFVersion::VerInitial)
        } else if n == 2 {
            Some(LSFVersion::VerChunkedCompress)
        } else if n == 3 {
            Some(LSFVersion::VerExtendedNodes)
        } else if n == 4 {
            Some(LSFVersion::VerBG3)
        } else if n == 5 {
            Some(LSFVersion::VerBG3ExtendedHeader)
        } else if n == 6 {
            Some(LSFVersion::VerBG3AdditionalBlob)
        } else if n == 7 {
            Some(LSFVersion::VerBg3Patch3)
        } else {
            None
        }
    }

    /// Whether this version is `other` or a later one.
    pub fn at_least(self, other: LSFVersion) -> (b: bool)
        ensures
            b == self.spec_at_least(other),
    {
        self.number() >= other.number()
    }
}

/// Whether a file of version `version`, if it has one, is of `floor` or later.
pub open spec fn spec_version_at_least(version: Option<LSFVersion>, floor: LSFVersion) -> bool {
    match version {
        Some(v) => v.spec_at_least(floor),
        None => false,
    }
}

/// Whether a file of version `version`, if it has one, is of `floor` or later.
pub fn version_at_least(version: Option<LSFVersion>, floor: LSFVersion) -> (b: bool)
    ensures
        b == spec_version_at_least(version, floor),
{
    match version {
        Some(v) => v.at_least(floor),
        None => false,
    }
}

/// The engine version that wrote a file.
#[derive(Debug, Clone, Copy, PartialEq, Eq, Structural)]
pub struct PackedVersion {
    pub major: u32,
    pub minor: u32,
    pub revision: u32,
    pub build: u32,
}

impl PackedVersion {
    /// The fields of the 64-bit packing: build in bits 0..=30, revision in 31..=46,
    /// minor in 47..=54, major in 55..=62.
    pub open spec fn unpack64(bits: u64) -> PackedVersion {
        PackedVersion {
            major: ((bits >> 55) & 0xff) as u32,
            minor: ((bits >> 47) & 0xff) as u32,
            revision: ((bits >> 31) & 0xffff) as u32,
            build: (bits & 0x7fff_ffff) as u32,
        }
    }

    /// The fields of the 32-bit packing: build in bits 0..=15, revision in 16..=23,
    /// minor in 24..=27, major in 28..=31.
    pub open spec fn unpack32(bits: u32) -> PackedVersion {
        PackedVersion {
            major: (bits >> 28) & 0x0f,
            minor: (bits >> 24) & 0x0f,
            revision: (bits >> 16) & 0xff,
            build: bits & 0xffff,
        }
    }

    /// The version that stands in for one whose major number is 0, as files that were
    /// merged carry it.
    pub open spec fn spec_or_default(self) -> PackedVersion {
        if self.major == 0 {
            PackedVersion { major: 4, minor: 0, revision: 9, build: 0 }
        } else {
            self
        }
    }

    /// The version itself, or 4.0.9.0 where its major number is 0.
    pub fn or_default(self) -> (v: PackedVersion)
        ensures
            v == self.spec_or_default(),
            self.major == 0 ==> v == (PackedVersion { major: 4, minor: 0, revision: 9, build: 0 }),
            v.major != 0,
    {
        if self.major == 0 {
            PackedVersion { major: 4, minor: 0, revision: 9, build: 0 }
        } else {
            self
        }
    }

    /// Unpacks the 64-bit form from its bits.
    pub fn from_bits64(bits: u64) -> (v: PackedVersion)
        ensures
            v == Self::unpack64(bits),
    {
        let major: u64 = (bits >> 55) & 0xff;
        let minor: u64 = (bits >> 47) & 0xff;
        let revision: u64 = (bits >> 31) & 0xffff;
        let build: u64 = bits & 0x7fff_ffff;
        assert((bits >> 55) & 0xff <= 0xff) by (bit_vector);
        assert((bits >> 47) & 0xff <= 0xff) by (bit_vector);
        assert((bits >> 31) & 0xffff <= 0xffff) by (bit_vector);
        assert(bits & 0x7fff_ffff <= 0x7fff_ffff) by (bit_vector);
        PackedVersion {
            major: major as u32,
            minor: minor as u32,
            revision: revision as u32,
            build: build as u32,
        }
    }

    /// Unpacks the 32-bit form from its bits.
    pub fn from_bits32(bits: u32) -> (v: PackedVersion)
        ensures
            v == Self::unpack32(bits),
    {
        PackedVersion {
            major: (bits >> 28) & 0x0f,
            minor: (bits >> 24) & 0x0f,
            revision: (bits >> 16) & 0xff,
            build: bits & 0xffff,
        }
    }
}

impl Default for PackedVersion {
    fn default() -> (v: PackedVersion)
        ensures
            v == (PackedVersion { major: 0, minor: 0, revision: 0, build: 0 }),
    {
        PackedVersion { major: 0, minor: 0, revision: 0, build: 0 }
    }
}

impl From<i64> for PackedVersion {
    fn from(packed: i64) -> (v: PackedVersion) {
        PackedVersion::from_bits64(i64_to_u64(packed))
    }
}

impl FromSpecImpl<i64> for PackedVersion {
    open spec fn obeys_from_spec() -> bool {
        true
    }

    open spec fn from_spec(packed: i64) -> PackedVersion {
        PackedVersion::unpack64(as_u64(packed))
    }
}

impl From<i32> for PackedVersion {
    fn from(packed: i32) -> (v: PackedVersion) {
        PackedVersion::from_bits32(i32_to_u32(packed))
    }
}

impl FromSpecImpl<i32> for PackedVersion {
    open spec fn obeys_from_spec() -> bool {
        true
    }

    open spec fn from_spec(packed: i32) -> PackedVersion {
        PackedVersion::unpack32(as_u32(packed))
    }
}

/// The first eight bytes of a resource.
#[derive(Debug, Clone, Copy)]
pub struct LSFMagic {
    pub magic: [u8; 4],
    pub version: u32,
}

impl LSFMagic {
    /// The four bytes `LSOF` that open a resource.
    pub const LSOF_SIGNATURE: [u8; 4] = [0x4C, 0x53, 0x4F, 0x46];

    /// The signature read as a little-endian number.
    pub fn signature_u32() -> (n: u32)
        ensures
            n == 0x464F_534C,
    {
        0x464F_534C
    }
}

/// Whether the four bytes at `pos` are `LSOF`.
pub open spec fn is_lsof(data: Seq<u8>, pos: int) -> bool {
    data[pos] == 0x4C && data[pos + 1] == 0x53 && data[pos + 2] == 0x4F && data[pos + 3] == 0x46
}

/// The sizes of the four sections as files before `VerBG3AdditionalBlob` store them.
#[derive(Debug, Clone, Copy)]
pub struct LSFMetadataV5 {
    pub strings_uncompressed_size: u32,
    pub strings_size_on_disk: u32,
    pub nodes_uncompressed_size: u32,
    pub nodes_size_on_disk: u32,
    pub attributes_uncompressed_size: u32,
    pub attributes_size_on_disk: u32,
    pub values_uncompressed_size: u32,
    pub values_size_on_disk: u32,
    pub compression_flags: u8,
    pub unknown_2: u8,
    pub unknown_3: u16,
    pub has_sibling_data: u32,
}

/// The sizes of the four sections.
#[derive(Debug, Clone, Copy)]
pub struct LSFMetadataV6 {
    pub strings_uncompressed_size: u32,
    pub strings_size_on_disk: u32,
    pub unknown: u64,
    pub nodes_uncompressed_size: u32,
    pub nodes_size_on_disk: u32,
    pub attributes_uncompressed_size: u32,
    pub attributes_size_on_disk: u32,
    pub values_uncompressed_size: u32,
    pub values_size_on_disk: u32,
    pub compression_flags: u8,
    pub unknown_2: u8,
    pub unknown_3: u16,
    pub has_sibling_data: u32,
}

/// The later form of the earlier metadata: the same sizes, and zero for what the
/// earlier form lacks or does not keep.
pub open spec fn spec_widen(meta: LSFMetadataV5) -> LSFMetadataV6 {
    LSFMetadataV6 {
        strings_uncompressed_size: meta.strings_uncompressed_size,
        strings_size_on_disk: meta.strings_size_on_disk,
        unknown: 0,
        nodes_uncompressed_size: meta.nodes_uncompressed_size,
        nodes_size_on_disk: meta.nodes_size_on_disk,
        attributes_uncompressed_size: meta.attributes_uncompressed_size,
        attributes_size_on_disk: meta.attributes_size_on_disk,
        values_uncompressed_size: meta.values_uncompressed_size,
        values_size_on_disk: meta.values_size_on_disk,
        compression_flags: meta.compression_flags,
        unknown_2: 0,
        unknown_3: 0,
        has_sibling_data: meta.has_sibling_data,
    }
}

impl<'a> From<&'a LSFMetadataV5> for LSFMetadataV6 {
    fn from(meta: &'a LSFMetadataV5) -> (wide: LSFMetadataV6) {
        LSFMetadataV6 {
            strings_uncompressed_size: meta.strings_uncompressed_size,
            strings_size_on_disk: meta.strings_size_on_disk,
            unknown: 0,
            nodes_uncompressed_size: meta.nodes_uncompressed_size,
            nodes_size_on_disk: meta.nodes_size_on_disk,
            attributes_uncompressed_size: meta.attributes_uncompressed_size,
            attributes_size_on_disk: meta.attributes_size_on_disk,
            values_uncompressed_size: meta.values_uncompressed_size,
            values_size_on_disk: meta.values_size_on_disk,
            compression_flags: meta.compression_flags,
            unknown_2: 0,
            unknown_3: 0,
            has_sibling_data: meta.has_sibling_data,
        }
    }
}

impl<'a> FromSpecImpl<&'a LSFMetadataV5> for LSFMetadataV6 {
    open spec fn obeys_from_spec() -> bool {
        true
    }

    open spec fn from_spec(meta: &'a LSFMetadataV5) -> LSFMetadataV6 {
        spec_widen(*meta)
    }
}

impl LSFMetadataV6 {
    /// The metadata of a decoder that has read no header: every size, every flag and
    /// every reserved field is 0.
    pub open spec fn spec_zero() -> LSFMetadataV6 {
        LSFMetadataV6 {
            strings_uncompressed_size: 0,
            strings_size_on_disk: 0,
            unknown: 0,
            nodes_uncompressed_size: 0,
            nodes_size_on_disk: 0,
            attributes_uncompressed_size: 0,
            attributes_size_on_disk: 0,
            values_uncompressed_size: 0,
            values_size_on_disk: 0,
            compression_flags: 0,
            unknown_2: 0,
            unknown_3: 0,
            has_sibling_data: 0,
        }
    }
}

impl Default for LSFMetadataV6 {
    fn default() -> (meta: LSFMetadataV6)
        ensures
            meta == spec_widen(
                LSFMetadataV5 {
                    strings_uncompressed_size: 0,
                    strings_size_on_disk: 0,
                    nodes_uncompressed_size: 0,
                    nodes_size_on_disk: 0,
                    attributes_uncompressed_size: 0,
                    attributes_size_on_disk: 0,
                    values_uncompressed_size: 0,
                    values_size_on_disk: 0,
                    compression_flags: 0,
                    unknown_2: 0,
                    unknown_3: 0,
                    has_sibling_data: 0,
                },
            ),
    {
        LSFMetadataV6 {
            strings_uncompressed_size: 0,
            strings_size_on_disk: 0,
            unknown: 0,
            nodes_uncompressed_size: 0,
            nodes_size_on_disk: 0,
            attributes_uncompressed_size: 0,
            attributes_size_on_disk: 0,
            values_uncompressed_size: 0,
            values_size_on_disk: 0,
            compression_flags: 0,
            unknown_2: 0,
            unknown_3: 0,
            has_sibling_data: 0,
        }
    }
}

/// The 40 bytes of metadata stored at `pos`, packed.
pub open spec fn metadata_v5_at(data: Seq<u8>, pos: int) -> LSFMetadataV5 {
    LSFMetadataV5 {
        strings_uncompressed_size: le_u32(data, pos),
        strings_size_on_disk: le_u32(data, pos + 4),
        nodes_uncompressed_size: le_u32(data, pos + 8),
        nodes_size_on_disk: le_u32(data, pos + 12),
        attributes_uncompressed_size: le_u32(data, pos + 16),
        attributes_size_on_disk: le_u32(data, pos + 20),
        values_uncompressed_size: le_u32(data, pos + 24),
        values_size_on_disk: le_u32(data, pos + 28),
        compression_flags: data[pos + 32],
        unknown_2: data[pos + 33],
        unknown_3: le_u16(data, pos + 34),
        has_sibling_data: le_u32(data, pos + 36),
    }
}

/// The 48 bytes of metadata stored at `pos`, packed.
pub open spec fn metadata_v6_at(data: Seq<u8>, pos: int) -> LSFMetadataV6 {
    LSFMetadataV6 {
        strings_uncompressed_size: le_u32(data, pos),
        strings_size_on_disk: le_u32(data, pos + 4),
        unknown: le_u64(data, pos + 8),
        nodes_uncompressed_size: le_u32(data, pos + 16),
        nodes_size_on_disk: le_u32(data, pos + 20),
        attributes_uncompressed_size: le_u32(data, pos + 24),
        attributes_size_on_disk: le_u32(data, pos + 28),
        values_uncompressed_size: le_u32(data, pos + 32),
        values_size_on_disk: le_u32(data, pos + 36),
        compression_flags: data[pos + 40],
        unknown_2: data[pos + 41],
        unknown_3: le_u16(data, pos + 42),
        has_sibling_data: le_u32(data, pos + 44),
    }
}

/// What the header of a resource says.
#[derive(Debug, Clone, Copy)]
pub struct LSFHeader {
    pub version: LSFVersion,
    pub game_version: PackedVersion,
    pub metadata: LSFMetadataV6,
}

/// The engine version of a header whose version field starts at `pos`, and where the
/// field ends: 64 bits from `VerBG3ExtendedHeader` on, 32 bits before. A major number of
/// 0 stands for 4.0.9.0.
pub open spec fn spec_engine_version(data: Seq<u8>, pos: int, version: LSFVersion) -> Result<
    (PackedVersion, int),
    Error,
> {
    if version.spec_at_least(LSFVersion::VerBG3ExtendedHeader) {
        if available(data, pos, 8) {
            Ok((PackedVersion::unpack64(le_u64(data, pos)).spec_or_default(), pos + 8))
        } else {
            Err(Error::ShortRead)
        }
    } else {
        if available(data, pos, 4) {
            Ok((PackedVersion::unpack32(le_u32(data, pos)).spec_or_default(), pos + 4))
        } else {
            Err(Error::ShortRead)
        }
    }
}

/// The metadata of a header whose metadata starts at `pos`, and where it ends: 48 bytes
/// from `VerBG3AdditionalBlob` on, 40 bytes before.
pub open spec fn spec_metadata(data: Seq<u8>, pos: int, version: LSFVersion) -> Result<
    (LSFMetadataV6, int),
    Error,
> {
    if version.spec_at_least(LSFVersion::VerBG3AdditionalBlob) {
        if available(data, pos, 48) {
            Ok((metadata_v6_at(data, pos), pos + 48))
        } else {
            Err(Error::ShortRead)
        }
    } else {
        if available(data, pos, 40) {
            Ok((spec_widen(metadata_v5_at(data, pos)), pos + 40))
        } else {
            Err(Error::ShortRead)
        }
    }
}

/// The header stored at `pos`, and where it ends: the signature `LSOF`, a version from 1
/// to 7, the engine version and the metadata.
pub open spec fn spec_header(data: Seq<u8>, pos: int) -> Result<(LSFHeader, int), Error> {
    if !available(data, pos, 8) {
        Err(Error::ShortRead)
    } else if !is_lsof(data, pos) {
        Err(Error::NotLSF)
    } else {
        match LSFVersion::spec_get(le_u32(data, pos + 4) as u64) {
            None => Err(Error::UnsupportedLSFVersion),
            Some(version) => match spec_engine_version(data, pos + 8, version) {
                Err(e) => Err(e),
                Ok((game_version, mid)) => match spec_metadata(data, mid, version) {
                    Err(e) => Err(e),
                    Ok((metadata, end)) => Ok((LSFHeader { version, game_version, metadata }, end)),
                },
            },
        }
    }
}

/// Reads the 40 bytes of metadata at the cursor.
pub fn read_metadata_v5(stream: &mut ByteReader) -> (r: Result<LSFMetadataV5, Error>)
    ensures
        ByteReader::reads(
            *old(stream),
            *final(stream),
            40,
            metadata_v5_at(old(stream).data@, old(stream).pos as int),
            r,
        ),
{
    if !stream.has(40) {
        return Err(Error::ShortRead);
    }
    let data = stream.data;
    let pos = stream.pos;
    let meta = LSFMetadataV5 {
        strings_uncompressed_size: u32_at(data, pos),
        strings_size_on_disk: u32_at(data, pos + 4),
        nodes_uncompressed_size: u32_at(data, pos + 8),
        nodes_size_on_disk: u32_at(data, pos + 12),
        attributes_uncompressed_size: u32_at(data, pos + 16),
        attributes_size_on_disk: u32_at(data, pos + 20),
        values_uncompressed_size: u32_at(data, pos + 24),
        values_size_on_disk: u32_at(data, pos + 28),
        compression_flags: data[pos + 32],
        unknown_2: data[pos + 33],
        unknown_3: u16_at(data, pos + 34),
        has_sibling_data: u32_at(data, pos + 36),
    };
    stream.seek(pos + 40);
    Ok(meta)
}

/// Reads the 48 bytes of metadata at the cursor.
pub fn read_metadata_v6(stream: &mut ByteReader) -> (r: Result<LSFMetadataV6, Error>)
    ensures
        ByteReader::reads(
            *old(stream),
            *final(stream),
            48,
            metadata_v6_at(old(stream).data@, old(stream).pos as int),
            r,
        ),
{
    if !stream.has(48) {
        return Err(Error::ShortRead);
    }
    let data = stream.data;
    let pos = stream.pos;
    let meta = LSFMetadataV6 {
        strings_uncompressed_size: u32_at(data, pos),
        strings_size_on_disk: u32_at(data, pos + 4),
        unknown: u64_at(data, pos + 8),
        nodes_uncompressed_size: u32_at(data, pos + 16),
        nodes_size_on_disk: u32_at(data, pos + 20),
        attributes_uncompressed_size: u32_at(data, pos + 24),
        attributes_size_on_disk: u32_at(data, pos + 28),
        values_uncompressed_size: u32_at(data, pos + 32),
        values_size_on_disk: u32_at(data, pos + 36),
        compression_flags: data[pos + 40],
        unknown_2: data[pos + 41],
        unknown_3: u16_at(data, pos + 42),
        has_sibling_data: u32_at(data, pos + 44),
    };
    stream.seek(pos + 48);
    Ok(meta)
}

/// Reads the header of a resource.
pub fn read_header(stream: &mut ByteReader) -> (r: Result<LSFHeader, Error>)
    ensures
        final(stream).data@ == old(stream).data@,
        match spec_header(old(stream).data@, old(stream).pos as int) {
            Ok((header, end)) => r == Ok::<LSFHeader, Error>(header) && final(stream).pos == end,
            Err(e) => r == Err::<LSFHeader, Error>(e),
        },
{
    if !stream.has(8) {
        return Err(Error::ShortRead);
    }
    let m0 = stream.read_u8()?;
    let m1 = stream.read_u8()?;
    let m2 = stream.read_u8()?;
    let m3 = stream.read_u8()?;
    let magic = LSFMagic { magic: [m0, m1, m2, m3], version: stream.read_u32()? };
    if magic.magic[0] != 0x4C || magic.magic[1] != 0x53 || magic.magic[2] != 0x4F || magic.magic[3]
        != 0x46 {
        return Err(Error::NotLSF);
    }
    let version = match LSFVersion::get(magic.version as u64) {
        Some(v) => v,
        None => {
            return Err(Error::UnsupportedLSFVersion);
        },
    };
    let game_version = if version.at_least(LSFVersion::VerBG3ExtendedHeader) {
        PackedVersion::from_bits64(stream.read_u64()?).or_default()
    } else {
        PackedVersion::from_bits32(stream.read_u32()?).or_default()
    };
    let metadata = if version.at_least(LSFVersion::VerBG3AdditionalBlob) {
        read_metadata_v6(stream)?
    } else {
        let meta = read_metadata_v5(stream)?;
        LSFMetadataV6::from(&meta)
    };
    Ok(LSFHeader { version, game_version, metadata })
}

} // verus!
