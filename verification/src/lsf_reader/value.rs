use vstd::prelude::*;
use crate::bin_utils::as_i16;
use crate::bin_utils::as_i32;
use crate::bin_utils::as_i64;
use crate::bin_utils::as_i8;
use crate::bin_utils::available;
use crate::bin_utils::bytes_at;
use crate::bin_utils::continues;
use crate::bin_utils::i32_to_u32;
use crate::bin_utils::le_i32_seq;
use crate::bin_utils::le_u16;
use crate::bin_utils::le_u32;
use crate::bin_utils::le_u32_mat;
use crate::bin_utils::le_u32_seq;
use crate::bin_utils::le_u64;
use crate::bin_utils::mat_view;
use crate::bin_utils::decode_lossy;
use crate::bin_utils::parsed;
use crate::bin_utils::utf8_lossy;
use crate::bin_utils::ByteReader;
use crate::error::Error;
use crate::lsf_reader::data_type::DataType;
use crate::lsf_reader::version::spec_version_at_least;
use crate::lsf_reader::version::version_at_least;
use crate::lsf_reader::version::LSFVersion;
use crate::lsf_reader::version::PackedVersion;

verus! {

/// A string that the game translates through a handle.
#[derive(Debug, PartialEq)]
pub struct TranslatedString {
    pub version: u16,
    /// The text stored inline by old files.
    pub value: Option<String>,
    pub handle: String,
}

/// A translated string with arguments, each of which holds one again.
#[derive(Debug, PartialEq)]
pub struct TranslatedFSString {
    pub base: TranslatedString,
    pub arguments: Vec<TranslatedFSStringArgument>,
}

/// An argument of a translated string: a key, a translated string and a value.
#[derive(Debug, PartialEq)]
pub struct TranslatedFSStringArgument {
    pub key: String,
    pub string: TranslatedFSString,
    pub value: String,
}

/// A `TranslatedString` with its texts as sequences of characters.
pub struct TranslatedStringView {
    pub version: u16,
    pub value: Option<Seq<char>>,
    pub handle: Seq<char>,
}

/// A `TranslatedFSString` with its texts as sequences of characters.
pub struct TranslatedFSStringView {
    pub base: TranslatedStringView,
    pub arguments: Seq<TranslatedFSStringArgumentView>,
}

/// A `TranslatedFSStringArgument` with its texts as sequences of characters.
pub struct TranslatedFSStringArgumentView {
    pub key: Seq<char>,
    pub string: TranslatedFSStringView,
    pub value: Seq<char>,
}

impl View for TranslatedString {
    type V = TranslatedStringView;

    open spec fn view(&self) -> TranslatedStringView {
        TranslatedStringView {
            version: self.version,
            value: match self.value {
                Some(s) => Some(s@),
                None => None,
            },
            handle: self.handle@,
        }
    }
}

impl View for TranslatedFSString {
    type V = TranslatedFSStringView;

    open spec fn view(&self) -> TranslatedFSStringView
        decreases self,
    {
        TranslatedFSStringView {
            base: self.base@,
            arguments: Seq::new(
                self.arguments@.len(),
                |i: int|
                    if 0 <= i < self.arguments@.len() {
                        self.arguments@[i].view()
                    } else {
                        arbitrary()
                    },
            ),
        }
    }
}

impl View for TranslatedFSStringArgument {
    type V = TranslatedFSStringArgumentView;

    open spec fn view(&self) -> TranslatedFSStringArgumentView
        decreases self,
    {
        TranslatedFSStringArgumentView {
            key: self.key@,
            string: self.string.view(),
            value: self.value@,
        }
    }
}

/// `s` without the NUL bytes at its end.
pub open spec fn strip_trailing_nuls(s: Seq<u8>) -> Seq<u8>
    decreases s.len(),
{
    if s.len() > 0 && s.last() == 0 {
        strip_trailing_nuls(s.drop_last())
    } else {
        s
    }
}

/// The string of `length` bytes stored at `pos`, and where it ends. A string that is not
/// empty ends in NUL; the NULs at its end are no part of its text.
pub open spec fn spec_string(data: Seq<u8>, pos: int, length: u32) -> Result<(Seq<char>, int), Error> {
    if !available(data, pos, length as int) {
        Err(Error::ShortRead)
    } else if length == 0 {
        Ok((Seq::empty(), pos))
    } else if data[pos + length - 1] != 0 {
        Err(Error::MalformedString)
    } else {
        Ok((utf8_lossy(strip_trailing_nuls(bytes_at(data, pos, length as int))), pos + length))
    }
}

/// Reads a string of `length` bytes.
pub fn read_string(stream: &mut ByteReader, length: u32) -> (r: Result<String, Error>)
    ensures
        final(stream).data@ == old(stream).data@,
        parsed(r, final(stream).pos as int, spec_string(old(stream).data@, old(stream).pos as int, length)),
{
    let mut bytes = match stream.read_bytes(length as usize) {
        Ok(b) => b,
        Err(e) => {
            return Err(e);
        },
    };
    let len = bytes.len();
    if len == 0 {
        return Ok(String::new());
    }
    if bytes[len - 1] != 0 {
        return Err(Error::MalformedString);
    }
    let ghost all = bytes@;
    let mut k: usize = len - 1;
    assert(all.drop_last() =~= all.subrange(0, k as int));
    while k > 0 && bytes[k - 1] == 0
        invariant
            k <= len,
            bytes@ == all,
            all.len() == len,
            strip_trailing_nuls(all) == strip_trailing_nuls(all.subrange(0, k as int)),
        decreases k,
    {
        assert(all.subrange(0, k as int).drop_last() =~= all.subrange(0, k - 1));
        k -= 1;
    }
    bytes.truncate(k);
    assert(bytes@ =~= all.subrange(0, k as int));
    Ok(decode_lossy(bytes.as_slice()))
}

/// The value of an attribute. Floating-point numbers are held as their IEEE 754 bit
/// patterns, a UUID as its 16 bytes.
#[derive(Debug, PartialEq)]
pub enum NodeAttributeValue {
    Empty,
    String(String),
    TranslatedString(TranslatedString),
    TranslatedFSString(TranslatedFSString),
    Bytes(Vec<u8>),
    Byte(u8),
    Short(i16),
    UShort(u16),
    Int(i32),
    UInt(u32),
    Float(u32),
    Double(u64),
    IVec2([i32; 2]),
    IVec3([i32; 3]),
    IVec4([i32; 4]),
    Vec2([u32; 2]),
    Vec3([u32; 3]),
    Vec4([u32; 4]),
    Mat2([[u32; 2]; 2]),
    Mat3([[u32; 3]; 3]),
    Mat3x4([[u32; 4]; 3]),
    Mat4x3([[u32; 3]; 4]),
    Mat4([[u32; 4]; 4]),
    Bool(bool),
    UInt64(u64),
    Int64(i64),
    I8(i8),
    Uuid([u8; 16]),
}

/// What a `NodeAttributeValue` holds: texts as sequences of characters, vectors by their
/// elements, matrices by their rows.
pub enum ValueView {
    Empty,
    Text(Seq<char>),
    Translated(TranslatedStringView),
    TranslatedFS(TranslatedFSStringView),
    Bytes(Seq<u8>),
    Byte(u8),
    Short(i16),
    UShort(u16),
    Int(i32),
    UInt(u32),
    Float(u32),
    Double(u64),
    IVec(Seq<i32>),
    FVec(Seq<u32>),
    Mat(Seq<Seq<u32>>),
    Bool(bool),
    UInt64(u64),
    Int64(i64),
    I8(i8),
    Uuid(Seq<u8>),
}

impl View for NodeAttributeValue {
    type V = ValueView;

    open spec fn view(&self) -> ValueView {
        match self {
            NodeAttributeValue::Empty => ValueView::Empty,
            NodeAttributeValue::String(s) => ValueView::Text(s@),
            NodeAttributeValue::TranslatedString(t) => ValueView::Translated(t@),
            NodeAttributeValue::TranslatedFSString(t) => ValueView::TranslatedFS(t@),
            NodeAttributeValue::Bytes(b) => ValueView::Bytes(b@),
            NodeAttributeValue::Byte(v) => ValueView::Byte(*v),
            NodeAttributeValue::Short(v) => ValueView::Short(*v),
            NodeAttributeValue::UShort(v) => ValueView::UShort(*v),
            NodeAttributeValue::Int(v) => ValueView::Int(*v),
            NodeAttributeValue::UInt(v) => ValueView::UInt(*v),
            NodeAttributeValue::Float(v) => ValueView::Float(*v),
            NodeAttributeValue::Double(v) => ValueView::Double(*v),
            NodeAttributeValue::IVec2(v) => ValueView::IVec(v@),
            NodeAttributeValue::IVec3(v) => ValueView::IVec(v@),
            NodeAttributeValue::IVec4(v) => ValueView::IVec(v@),
            NodeAttributeValue::Vec2(v) => ValueView::FVec(v@),
            NodeAttributeValue::Vec3(v) => ValueView::FVec(v@),
            NodeAttributeValue::Vec4(v) => ValueView::FVec(v@),
            NodeAttributeValue::Mat2(m) => ValueView::Mat(mat_view(*m)),
            NodeAttributeValue::Mat3(m) => ValueView::Mat(mat_view(*m)),
            NodeAttributeValue::Mat3x4(m) => ValueView::Mat(mat_view(*m)),
            NodeAttributeValue::Mat4x3(m) => ValueView::Mat(mat_view(*m)),
            NodeAttributeValue::Mat4(m) => ValueView::Mat(mat_view(*m)),
            NodeAttributeValue::Bool(v) => ValueView::Bool(*v),
            NodeAttributeValue::UInt64(v) => ValueView::UInt64(*v),
            NodeAttributeValue::Int64(v) => ValueView::Int64(*v),
            NodeAttributeValue::I8(v) => ValueView::I8(*v),
            NodeAttributeValue::Uuid(b) => ValueView::Uuid(b@),
        }
    }
}

/// A typed attribute value.
#[derive(Debug, PartialEq)]
pub struct NodeAttribute {
    pub ty: DataType,
    pub value: NodeAttributeValue,
}

/// A `NodeAttribute` with its value by its view.
pub struct NodeAttributeView {
    pub ty: DataType,
    pub value: ValueView,
}

impl View for NodeAttribute {
    type V = NodeAttributeView;

    open spec fn view(&self) -> NodeAttributeView {
        NodeAttributeView { ty: self.ty, value: self.value@ }
    }
}

/// The number of bytes that a value of a fixed-size type takes; nothing for the types
/// whose size the attribute entry gives, and for `Unknown`.
pub open spec fn fixed_size(ty: DataType) -> Option<int> {
    match ty {
        DataType::Empty => Some(0),
        DataType::Byte | DataType::Bool | DataType::Int8 => Some(1),
        DataType::Short | DataType::UShort => Some(2),
        DataType::Int | DataType::UInt | DataType::Float => Some(4),
        DataType::Double | DataType::ULongLong | DataType::Long | DataType::Int64 => Some(8),
        DataType::IVec2 | DataType::Vec2 => Some(8),
        DataType::IVec3 | DataType::Vec3 => Some(12),
        DataType::IVec4 | DataType::Vec4 | DataType::Mat2 | DataType::Uuid => Some(16),
        DataType::Mat3 => Some(36),
        DataType::Mat3x4 | DataType::Mat4x3 => Some(48),
        DataType::Mat4 => Some(64),
        _ => None,
    }
}

/// The value of fixed-size type `ty` stored at `pos`.
pub open spec fn fixed_value(data: Seq<u8>, pos: int, ty: DataType) -> ValueView {
    match ty {
        DataType::Byte => ValueView::Byte(data[pos]),
        DataType::Short => ValueView::Short(as_i16(le_u16(data, pos))),
        DataType::UShort => ValueView::UShort(le_u16(data, pos)),
        DataType::Int => ValueView::Int(as_i32(le_u32(data, pos))),
        DataType::UInt => ValueView::UInt(le_u32(data, pos)),
        DataType::Float => ValueView::Float(le_u32(data, pos)),
        DataType::Double => ValueView::Double(le_u64(data, pos)),
        DataType::IVec2 => ValueView::IVec(le_i32_seq(data, pos, 2)),
        DataType::IVec3 => ValueView::IVec(le_i32_seq(data, pos, 3)),
        DataType::IVec4 => ValueView::IVec(le_i32_seq(data, pos, 4)),
        DataType::Vec2 => ValueView::FVec(le_u32_seq(data, pos, 2)),
        DataType::Vec3 => ValueView::FVec(le_u32_seq(data, pos, 3)),
        DataType::Vec4 => ValueView::FVec(le_u32_seq(data, pos, 4)),
        DataType::Mat2 => ValueView::Mat(le_u32_mat(data, pos, 2, 2)),
        DataType::Mat3 => ValueView::Mat(le_u32_mat(data, pos, 3, 3)),
        DataType::Mat3x4 => ValueView::Mat(le_u32_mat(data, pos, 3, 4)),
        DataType::Mat4x3 => ValueView::Mat(le_u32_mat(data, pos, 4, 3)),
        DataType::Mat4 => ValueView::Mat(le_u32_mat(data, pos, 4, 4)),
        DataType::Bool => ValueView::Bool(data[pos] != 0),
        DataType::ULongLong => ValueView::UInt64(le_u64(data, pos)),
        DataType::Long | DataType::Int64 => ValueView::Int64(as_i64(le_u64(data, pos))),
        DataType::Int8 => ValueView::I8(as_i8(data[pos])),
        DataType::Uuid => ValueView::Uuid(bytes_at(data, pos, 16)),
        _ => ValueView::Empty,
    }
}

/// The attribute of fixed-size type `ty` stored at `pos`, and where it ends.
pub open spec fn spec_read_fixed(data: Seq<u8>, pos: int, ty: DataType) -> Result<
    (NodeAttributeView, int),
    Error,
> {
    match fixed_size(ty) {
        None => Err(Error::UnknownType),
        Some(size) => if available(data, pos, size) {
            Ok((NodeAttributeView { ty, value: fixed_value(data, pos, ty) }, pos + size))
        } else {
            Err(Error::ShortRead)
        },
    }
}

/// Reads a value of a fixed-size type.
pub fn read_attribute(stream: &mut ByteReader, type_id: DataType) -> (r: Result<NodeAttribute, Error>)
    ensures
        final(stream).data@ == old(stream).data@,
        parsed(
            r,
            final(stream).pos as int,
            spec_read_fixed(old(stream).data@, old(stream).pos as int, type_id),
        ),
{
    let attr = match type_id {
        DataType::Empty => NodeAttributeValue::Empty,
        DataType::Byte => NodeAttributeValue::Byte(stream.read_u8()?),
        DataType::Short => NodeAttributeValue::Short(stream.read_i16()?),
        DataType::UShort => NodeAttributeValue::UShort(stream.read_u16()?),
        DataType::Int => NodeAttributeValue::Int(stream.read_i32()?),
        DataType::UInt => NodeAttributeValue::UInt(stream.read_u32()?),
        DataType::Float => NodeAttributeValue::Float(stream.read_f32()?),
        DataType::Double => NodeAttributeValue::Double(stream.read_f64()?),
        DataType::IVec2 => NodeAttributeValue::IVec2(stream.read_i32_vec::<2>()?),
        DataType::IVec3 => NodeAttributeValue::IVec3(stream.read_i32_vec::<3>()?),
        DataType::IVec4 => NodeAttributeValue::IVec4(stream.read_i32_vec::<4>()?),
        DataType::Vec2 => NodeAttributeValue::Vec2(stream.read_f32_vec::<2>()?),
        DataType::Vec3 => NodeAttributeValue::Vec3(stream.read_f32_vec::<3>()?),
        DataType::Vec4 => NodeAttributeValue::Vec4(stream.read_f32_vec::<4>()?),
        DataType::Mat2 => NodeAttributeValue::Mat2(stream.read_f32_mat::<2, 2>()?),
        DataType::Mat3 => NodeAttributeValue::Mat3(stream.read_f32_mat::<3, 3>()?),
        DataType::Mat3x4 => NodeAttributeValue::Mat3x4(stream.read_f32_mat::<4, 3>()?),
        DataType::Mat4x3 => NodeAttributeValue::Mat4x3(stream.read_f32_mat::<3, 4>()?),
        DataType::Mat4 => NodeAttributeValue::Mat4(stream.read_f32_mat::<4, 4>()?),
        DataType::Bool => NodeAttributeValue::Bool(stream.read_u8()? != 0),
        DataType::ULongLong => NodeAttributeValue::UInt64(stream.read_u64()?),
        DataType::Long | DataType::Int64 => NodeAttributeValue::Int64(stream.read_i64()?),
        DataType::Int8 => NodeAttributeValue::I8(stream.read_i8()?),
        DataType::Uuid => NodeAttributeValue::Uuid(stream.read_uuid()?),
        _ => {
            return Err(Error::UnknownType);
        },
    };
    Ok(NodeAttribute { ty: type_id, value: attr })
}

/// The number of bytes of `data` from `pos` on.
pub open spec fn room(data: Seq<u8>, pos: int) -> nat {
    if pos <= data.len() {
        (data.len() - pos) as nat
    } else {
        0
    }
}

/// A string behind its length, a 32-bit number, and where it ends.
pub open spec fn spec_sized_string(data: Seq<u8>, pos: int) -> Result<(Seq<char>, int), Error> {
    if available(data, pos, 4) {
        spec_string(data, pos + 4, le_u32(data, pos))
    } else {
        Err(Error::ShortRead)
    }
}

/// Reads a 32-bit length and the string of that length.
pub fn read_sized_string(stream: &mut ByteReader) -> (r: Result<String, Error>)
    ensures
        final(stream).data@ == old(stream).data@,
        parsed(r, final(stream).pos as int, spec_sized_string(old(stream).data@, old(stream).pos as int)),
        r is Ok ==> old(stream).pos + 4 <= final(stream).pos <= final(stream).data@.len(),
{
    let length = i32_to_u32(stream.read_i32()?);
    read_string(stream, length)
}

/// The translated string stored at `pos`, and where it ends. One that is `versioned`
/// starts with a 16-bit version and holds no text; any other holds its text inline and
/// has version 0. The handle follows either.
pub open spec fn spec_translated_string(data: Seq<u8>, pos: int, versioned: bool) -> Result<
    (TranslatedStringView, int),
    Error,
> {
    if versioned {
        if available(data, pos, 2) {
            match spec_sized_string(data, pos + 2) {
                Ok((handle, end)) => Ok(
                    (TranslatedStringView { version: le_u16(data, pos), value: None, handle }, end),
                ),
                Err(e) => Err(e),
            }
        } else {
            Err(Error::ShortRead)
        }
    } else {
        match spec_sized_string(data, pos) {
            Ok((value, mid)) => match spec_sized_string(data, mid) {
                Ok((handle, end)) => Ok(
                    (TranslatedStringView { version: 0, value: Some(value), handle }, end),
                ),
                Err(e) => Err(e),
            },
            Err(e) => Err(e),
        }
    }
}

/// Reads a translated string.
pub fn read_translated_string(stream: &mut ByteReader, versioned: bool) -> (r: Result<
    TranslatedString,
    Error,
>)
    ensures
        final(stream).data@ == old(stream).data@,
        parsed(
            r,
            final(stream).pos as int,
            spec_translated_string(old(stream).data@, old(stream).pos as int, versioned),
        ),
        r is Ok ==> old(stream).pos + 4 <= final(stream).pos <= final(stream).data@.len(),
{
    let version: u16;
    let mut value: Option<String> = None;
    if versioned {
        version = stream.read_u16()?;
    } else {
        version = 0;
        value = Some(read_sized_string(stream)?);
    }
    let handle = read_sized_string(stream)?;
    Ok(TranslatedString { version, value, handle })
}

/// The translated string with arguments stored at `pos`, and where it ends: a translated
/// string, a count that is not negative, and that many arguments.
pub open spec fn spec_fs_string(data: Seq<u8>, pos: int, versioned: bool) -> Result<
    (TranslatedFSStringView, int),
    Error,
>
    decreases room(data, pos), 0nat,
{
    match spec_translated_string(data, pos, versioned) {
        Err(e) => Err(e),
        Ok((base, mid)) => if !available(data, mid, 4) {
            Err(Error::ShortRead)
        } else if as_i32(le_u32(data, mid)) < 0 {
            Err(Error::MalformedString)
        } else {
            match spec_fs_arguments(data, mid + 4, as_i32(le_u32(data, mid)) as nat, versioned) {
                Err(e) => Err(e),
                Ok((arguments, end)) => Ok((TranslatedFSStringView { base, arguments }, end)),
            }
        },
    }
}

/// The argument stored at `pos`, and where it ends: a key, a translated string with
/// arguments of its own, and a value.
pub open spec fn spec_fs_argument(data: Seq<u8>, pos: int, versioned: bool) -> Result<
    (TranslatedFSStringArgumentView, int),
    Error,
>
    decreases room(data, pos), 0nat,
{
    match spec_sized_string(data, pos) {
        Err(e) => Err(e),
        Ok((key, after_key)) => match spec_fs_string(data, after_key, versioned) {
            Err(e) => Err(e),
            Ok((string, after_string)) => match spec_sized_string(data, after_string) {
                Err(e) => Err(e),
                Ok((value, end)) => Ok((TranslatedFSStringArgumentView { key, string, value }, end)),
            },
        },
    }
}

/// `count` arguments stored from `pos` on, and where they end. A decoder never moves
/// backwards; the test on where an argument ends lets the definition recurse.
pub open spec fn spec_fs_arguments(data: Seq<u8>, pos: int, count: nat, versioned: bool) -> Result<
    (Seq<TranslatedFSStringArgumentView>, int),
    Error,
>
    decreases room(data, pos), count + 1,
{
    if count == 0 {
        Ok((Seq::empty(), pos))
    } else {
        match spec_fs_argument(data, pos, versioned) {
            Err(e) => Err(e),
            Ok((first, next)) => if next < pos {
                Err(Error::ShortRead)
            } else {
                match spec_fs_arguments(data, next, (count - 1) as nat, versioned) {
                    Err(e) => Err(e),
                    Ok((rest, end)) => Ok((seq![first] + rest, end)),
                }
            },
        }
    }
}

/// Reads one argument of a translated string.
pub fn read_fs_argument(stream: &mut ByteReader, version: Option<LSFVersion>) -> (r: Result<
    TranslatedFSStringArgument,
    Error,
>)
    ensures
        final(stream).data@ == old(stream).data@,
        parsed(
            r,
            final(stream).pos as int,
            spec_fs_argument(
                old(stream).data@,
                old(stream).pos as int,
                spec_version_at_least(version, LSFVersion::VerBG3),
            ),
        ),
        r is Ok ==> old(stream).pos + 16 <= final(stream).pos <= final(stream).data@.len(),
    decreases room(old(stream).data@, old(stream).pos as int),
{
    let key = read_sized_string(stream)?;
    let string = read_translated_fs_string(stream, version)?;
    let value = read_sized_string(stream)?;
    Ok(TranslatedFSStringArgument { key, string, value })
}

/// Reads a translated string with arguments. Files of version `VerBG3` and later store
/// the versioned form.
pub fn read_translated_fs_string(stream: &mut ByteReader, version: Option<LSFVersion>) -> (r:
    Result<TranslatedFSString, Error>)
    ensures
        final(stream).data@ == old(stream).data@,
        parsed(
            r,
            final(stream).pos as int,
            spec_fs_string(
                old(stream).data@,
                old(stream).pos as int,
                spec_version_at_least(version, LSFVersion::VerBG3),
            ),
        ),
        r is Ok ==> old(stream).pos + 8 <= final(stream).pos <= final(stream).data@.len(),
    decreases room(old(stream).data@, old(stream).pos as int),
{
    let ghost data = stream.data@;
    let ghost versioned = spec_version_at_least(version, LSFVersion::VerBG3);
    let base = read_translated_string(stream, version_at_least(version, LSFVersion::VerBG3))?;
    let count = stream.read_i32()?;
    if count < 0 {
        return Err(Error::MalformedString);
    }
    let ghost first = stream.pos as int;
    let ghost whole = spec_fs_arguments(data, first, count as nat, versioned);
    let ghost outer = spec_fs_string(data, old(stream).pos as int, versioned);
    let ghost base_view = base@;
    let ghost mut done: Seq<TranslatedFSStringArgumentView> = Seq::empty();
    let mut arguments: Vec<TranslatedFSStringArgument> = Vec::new();
    let mut i: i32 = 0;
    assert(done + Seq::<TranslatedFSStringArgumentView>::empty() =~= done);
    while i < count
        invariant
            0 <= i <= count,
            stream.data@ == data,
            data == old(stream).data@,
            first <= stream.pos <= data.len(),
            first >= old(stream).pos + 8,
            outer == spec_fs_string(old(stream).data@, old(stream).pos as int, versioned),
            outer == match whole {
                Ok((arguments, end)) => Ok::<(TranslatedFSStringView, int), Error>(
                    (TranslatedFSStringView { base: base_view, arguments }, end),
                ),
                Err(e) => Err(e),
            },
            base@ == base_view,
            done.len() == arguments@.len(),
            forall|k: int| 0 <= k < done.len() ==> (#[trigger] arguments@[k]).view() == done[k],
            versioned == spec_version_at_least(version, LSFVersion::VerBG3),
            continues(
                whole,
                done,
                spec_fs_arguments(data, stream.pos as int, (count - i) as nat, versioned),
            ),
        decreases count - i,
    {
        let ghost here = stream.pos as int;
        let ghost step = spec_fs_argument(data, here, versioned);
        let arg = match read_fs_argument(stream, version) {
            Ok(arg) => arg,
            Err(e) => {
                assert(whole == Err::<(Seq<TranslatedFSStringArgumentView>, int), Error>(e));
                return Err(e);
            },
        };
        proof {
            let rest = spec_fs_arguments(data, stream.pos as int, (count - i - 1) as nat, versioned);
            assert(step == Ok::<(TranslatedFSStringArgumentView, int), Error>((arg@, stream.pos as int)));
            if rest is Ok {
                assert(done + (seq![arg@] + rest->Ok_0.0) =~= done.push(arg@) + rest->Ok_0.0);
            }
            done = done.push(arg@);
        }
        arguments.push(arg);
        i += 1;
    }
    let result = TranslatedFSString { base, arguments };
    proof {
        assert(done + Seq::<TranslatedFSStringArgumentView>::empty() =~= done);
        assert(result@.arguments =~= done);
    }
    Ok(result)
}

/// Whether a translated string in a file of this version, written by this engine, is of
/// the versioned form: from `VerBG3` on, and from engine 4.0.0.26 on.
pub open spec fn spec_translated_versioned(version: Option<LSFVersion>, engine: PackedVersion) -> bool {
    ||| spec_version_at_least(version, LSFVersion::VerBG3)
    ||| engine.major > 4
    ||| (engine.major == 4 && engine.revision > 0)
    ||| (engine.major == 4 && engine.revision == 0 && engine.build >= 0x1A)
}

/// Whether a translated string in a file of this version, written by this engine, is of
/// the versioned form.
pub fn translated_versioned(version: Option<LSFVersion>, engine: PackedVersion) -> (b: bool)
    ensures
        b == spec_translated_versioned(version, engine),
{
    version_at_least(version, LSFVersion::VerBG3) || engine.major > 4 || (engine.major == 4
        && engine.revision > 0) || (engine.major == 4 && engine.revision == 0 && engine.build
        >= 0x1A)
}

/// Whether values of this type are strings of the length that the attribute entry gives.
pub open spec fn is_string_type(ty: DataType) -> bool {
    ty == DataType::String || ty == DataType::Path || ty == DataType::FixedString || ty
        == DataType::LSString || ty == DataType::WString || ty == DataType::LSWString
}

/// Pairs a decoded value with its type.
pub open spec fn typed<V>(
    ty: DataType,
    r: Result<(V, int), Error>,
    wrap: spec_fn(V) -> ValueView,
) -> Result<(NodeAttributeView, int), Error> {
    match r {
        Ok((v, end)) => Ok((NodeAttributeView { ty, value: wrap(v) }, end)),
        Err(e) => Err(e),
    }
}

/// The attribute of type `ty` and length `length` stored at `pos` of the values of a
/// file of version `version` written by engine `engine`, and where it ends.
pub open spec fn spec_read_attribute(
    data: Seq<u8>,
    pos: int,
    ty: DataType,
    length: u32,
    version: Option<LSFVersion>,
    engine: PackedVersion,
) -> Result<(NodeAttributeView, int), Error> {
    if is_string_type(ty) {
        typed(ty, spec_string(data, pos, length), |s: Seq<char>| ValueView::Text(s))
    } else if ty == DataType::TranslatedString {
        typed(
            ty,
            spec_translated_string(data, pos, spec_translated_versioned(version, engine)),
            |t: TranslatedStringView| ValueView::Translated(t),
        )
    } else if ty == DataType::TranslatedFSString {
        typed(
            ty,
            spec_fs_string(data, pos, spec_version_at_least(version, LSFVersion::VerBG3)),
            |t: TranslatedFSStringView| ValueView::TranslatedFS(t),
        )
    } else if ty == DataType::ScratchBuffer {
        if available(data, pos, length as int) {
            Ok(
                (
                    NodeAttributeView {
                        ty,
                        value: ValueView::Bytes(bytes_at(data, pos, length as int)),
                    },
                    pos + length,
                ),
            )
        } else {
            Err(Error::ShortRead)
        }
    } else {
        spec_read_fixed(data, pos, ty)
    }
}

/// Reads the value of an attribute of type `type_id` and length `length`.
pub fn read_typed_attribute(
    stream: &mut ByteReader,
    type_id: DataType,
    length: u32,
    version: Option<LSFVersion>,
    engine: PackedVersion,
) -> (r: Result<NodeAttribute, Error>)
    ensures
        final(stream).data@ == old(stream).data@,
        parsed(
            r,
            final(stream).pos as int,
            spec_read_attribute(
                old(stream).data@,
                old(stream).pos as int,
                type_id,
                length,
                version,
                engine,
            ),
        ),
{
    match type_id {
        DataType::String
        | DataType::Path
        | DataType::FixedString
        | DataType::LSString
        | DataType::WString
        | DataType::LSWString => {
            let value = read_string(stream, length)?;
            Ok(NodeAttribute { ty: type_id, value: NodeAttributeValue::String(value) })
        },
        DataType::TranslatedString => {
            let value = read_translated_string(stream, translated_versioned(version, engine))?;
            Ok(NodeAttribute { ty: type_id, value: NodeAttributeValue::TranslatedString(value) })
        },
        DataType::TranslatedFSString => {
            let value = read_translated_fs_string(stream, version)?;
            Ok(NodeAttribute { ty: type_id, value: NodeAttributeValue::TranslatedFSString(value) })
        },
        DataType::ScratchBuffer => {
            let buf = stream.read_bytes(length as usize)?;
            Ok(NodeAttribute { ty: type_id, value: NodeAttributeValue::Bytes(buf) })
        },
        _ => read_attribute(stream, type_id),
    }
}

/// A translated string with arguments ends after the place where it starts.
pub proof fn lemma_fs_string_advances(data: Seq<u8>, pos: int, versioned: bool)
    requires
        spec_fs_string(data, pos, versioned) is Ok,
    ensures
        spec_fs_string(data, pos, versioned)->Ok_0.1 >= pos + 8,
    decreases room(data, pos), 0nat,
{
    let mid = spec_translated_string(data, pos, versioned)->Ok_0.1;
    lemma_fs_arguments_advance(data, mid + 4, as_i32(le_u32(data, mid)) as nat, versioned);
}

/// An argument ends after the place where it starts, so the test on where it ends
/// never decides what `spec_fs_arguments` is.
pub proof fn lemma_fs_argument_advances(data: Seq<u8>, pos: int, versioned: bool)
    requires
        spec_fs_argument(data, pos, versioned) is Ok,
    ensures
        spec_fs_argument(data, pos, versioned)->Ok_0.1 >= pos + 16,
    decreases room(data, pos), 0nat,
{
    let after_key = spec_sized_string(data, pos)->Ok_0.1;
    lemma_fs_string_advances(data, after_key, versioned);
}

/// Arguments end at or after the place where they start.
pub proof fn lemma_fs_arguments_advance(data: Seq<u8>, pos: int, count: nat, versioned: bool)
    requires
        spec_fs_arguments(data, pos, count, versioned) is Ok,
    ensures
        spec_fs_arguments(data, pos, count, versioned)->Ok_0.1 >= pos,
    decreases room(data, pos), count + 1,
{
    if count > 0 {
        lemma_fs_argument_advances(data, pos, versioned);
        let next = spec_fs_argument(data, pos, versioned)->Ok_0.1;
        lemma_fs_arguments_advance(data, next, (count - 1) as nat, versioned);
    }
}

} // verus!
