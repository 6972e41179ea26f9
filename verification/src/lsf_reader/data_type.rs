use vstd::prelude::*;
use vstd::std_specs::convert::FromSpecImpl;
use vstd::std_specs::convert::TryFromSpecImpl;

verus! {

/// The type of an attribute's value, as its 6-bit tag names it.
#[derive(Debug, Clone, Copy, PartialEq, Eq, Structural)]
pub enum DataType {
    Empty,
    Byte,
    Short,
    UShort,
    Int,
    UInt,
    Float,
    Double,
    IVec2,
    IVec3,
    IVec4,
    Vec2,
    Vec3,
    Vec4,
    Mat2,
    Mat3,
    Mat3x4,
    Mat4x3,
    Mat4,
    Bool,
    String,
    Path,
    FixedString,
    LSString,
    ULongLong,
    ScratchBuffer,
    Long,
    Int8,
    TranslatedString,
    WString,
    LSWString,
    Uuid,
    Int64,
    TranslatedFSString,
    /// Any tag above 33.
    Unknown,
}

impl DataType {
    /// The last known type.
    pub fn max() -> (t: Self)
        ensures
            t == DataType::TranslatedFSString,
    {
        DataType::TranslatedFSString
    }

    /// The tag of the last known type.
    pub fn max_i32() -> (n: i32)
        ensures
            n == 33,
            DataType::spec_from_tag(n as u32) == DataType::TranslatedFSString,
    {
        33
    }

    /// The type that a tag names.
    pub open spec fn spec_from_tag(val: u32) -> DataType {
        if val == 0 {
            DataType::Empty
        } else if val == 1 {
            DataType::Byte
        } else if val == 2 {
            DataType::Short
        } else if val == 3 {
            DataType::UShort
        } else if val == 4 {
            DataType::Int
        } else if val == 5 {
            DataType::UInt
        } else if val == 6 {
            DataType::Float
        } else if val == 7 {
            DataType::Double
        } else if val == 8 {
            DataType::IVec2
        } else if val == 9 {
            DataType::IVec3
        } else if val == 10 {
            DataType::IVec4
        } else if val == 11 {
            DataType::Vec2
        } else if val == 12 {
            DataType::Vec3
        } else if val == 13 {
            DataType::Vec4
        } else if val == 14 {
            DataType::Mat2
        } else if val == 15 {
            DataType::Mat3
        } else if val == 16 {
            DataType::Mat3x4
        } else if val == 17 {
            DataType::Mat4x3
        } else if val == 18 {
            DataType::Mat4
        } else if val == 19 {
            DataType::Bool
        } else if val == 20 {
            DataType::String
        } else if val == 21 {
            DataType::Path
        } else if val == 22 {
            DataType::FixedString
        } else if val == 23 {
            DataType::LSString
        } else if val == 24 {
            DataType::ULongLong
        } else if val == 25 {
            DataType::ScratchBuffer
        } else if val == 26 {
            DataType::Long
        } else if val == 27 {
            DataType::Int8
        } else if val == 28 {
            DataType::TranslatedString
        } else if val == 29 {
            DataType::WString
        } else if val == 30 {
            DataType::LSWString
        } else if val == 31 {
            DataType::Uuid
        } else if val == 32 {
            DataType::Int64
        } else if val == 33 {
            DataType::TranslatedFSString
        } else {
            DataType::Unknown
        }
    }

    /// The tag of a type; `Unknown` has none.
    pub open spec fn spec_tag(self) -> Option<u32> {
        match self {
            DataType::Empty => Some(0u32),
            DataType::Byte => Some(1u32),
            DataType::Short => Some(2u32),
            DataType::UShort => Some(3u32),
            DataType::Int => Some(4u32),
            DataType::UInt => Some(5u32),
            DataType::Float => Some(6u32),
            DataType::Double => Some(7u32),
            DataType::IVec2 => Some(8u32),
            DataType::IVec3 => Some(9u32),
            DataType::IVec4 => Some(10u32),
            DataType::Vec2 => Some(11u32),
            DataType::Vec3 => Some(12u32),
            DataType::Vec4 => Some(13u32),
            DataType::Mat2 => Some(14u32),
            DataType::Mat3 => Some(15u32),
            DataType::Mat3x4 => Some(16u32),
            DataType::Mat4x3 => Some(17u32),
            DataType::Mat4 => Some(18u32),
            DataType::Bool => Some(19u32),
            DataType::String => Some(20u32),
            DataType::Path => Some(21u32),
            DataType::FixedString => Some(22u32),
            DataType::LSString => Some(23u32),
            DataType::ULongLong => Some(24u32),
            DataType::ScratchBuffer => Some(25u32),
            DataType::Long => Some(26u32),
            DataType::Int8 => Some(27u32),
            DataType::TranslatedString => Some(28u32),
            DataType::WString => Some(29u32),
            DataType::LSWString => Some(30u32),
            DataType::Uuid => Some(31u32),
            DataType::Int64 => Some(32u32),
            DataType::TranslatedFSString => Some(33u32),
            DataType::Unknown => None,
        }
    }

    /// The tag of a type; `Unknown` has none.
    pub fn tag(self) -> (t: Option<u32>)
        ensures
            t == self.spec_tag(),
            t matches Some(n) ==> n <= 33 && DataType::spec_from_tag(n) == self,
    {
        match self {
            DataType::Empty => Some(0u32),
            DataType::Byte => Some(1u32),
            DataType::Short => Some(2u32),
            DataType::UShort => Some(3u32),
            DataType::Int => Some(4u32),
            DataType::UInt => Some(5u32),
            DataType::Float => Some(6u32),
            DataType::Double => Some(7u32),
            DataType::IVec2 => Some(8u32),
            DataType::IVec3 => Some(9u32),
            DataType::IVec4 => Some(10u32),
            DataType::Vec2 => Some(11u32),
            DataType::Vec3 => Some(12u32),
            DataType::Vec4 => Some(13u32),
            DataType::Mat2 => Some(14u32),
            DataType::Mat3 => Some(15u32),
            DataType::Mat3x4 => Some(16u32),
            DataType::Mat4x3 => Some(17u32),
            DataType::Mat4 => Some(18u32),
            DataType::Bool => Some(19u32),
            DataType::String => Some(20u32),
            DataType::Path => Some(21u32),
            DataType::FixedString => Some(22u32),
            DataType::LSString => Some(23u32),
            DataType::ULongLong => Some(24u32),
            DataType::ScratchBuffer => Some(25u32),
            DataType::Long => Some(26u32),
            DataType::Int8 => Some(27u32),
            DataType::TranslatedString => Some(28u32),
            DataType::WString => Some(29u32),
            DataType::LSWString => Some(30u32),
            DataType::Uuid => Some(31u32),
            DataType::Int64 => Some(32u32),
            DataType::TranslatedFSString => Some(33u32),
            DataType::Unknown => None,
        }
    }
}

impl From<u32> for DataType {
    fn from(val: u32) -> (t: DataType) {
        match val {
            0 => DataType::Empty,
            1 => DataType::Byte,
            2 => DataType::Short,
            3 => DataType::UShort,
            4 => DataType::Int,
            5 => DataType::UInt,
            6 => DataType::Float,
            7 => DataType::Double,
            8 => DataType::IVec2,
            9 => DataType::IVec3,
            10 => DataType::IVec4,
            11 => DataType::Vec2,
            12 => DataType::Vec3,
            13 => DataType::Vec4,
            14 => DataType::Mat2,
            15 => DataType::Mat3,
            16 => DataType::Mat3x4,
            17 => DataType::Mat4x3,
            18 => DataType::Mat4,
            19 => DataType::Bool,
            20 => DataType::String,
            21 => DataType::Path,
            22 => DataType::FixedString,
            23 => DataType::LSString,
            24 => DataType::ULongLong,
            25 => DataType::ScratchBuffer,
            26 => DataType::Long,
            27 => DataType::Int8,
            28 => DataType::TranslatedString,
            29 => DataType::WString,
            30 => DataType::LSWString,
            31 => DataType::Uuid,
            32 => DataType::Int64,
            33 => DataType::TranslatedFSString,
            _ => DataType::Unknown,
        }
    }
}

impl TryFrom<DataType> for u32 {
    type Error = &'static str;

    fn try_from(value: DataType) -> (r: Result<u32, &'static str>) {
        match value.tag() {
            Some(n) => Ok(n),
            None => Err("No u32 value for DataType::UNKNOWN"),
        }
    }
}

impl TryFromSpecImpl<DataType> for u32 {
    open spec fn obeys_try_from_spec() -> bool {
        true
    }

    open spec fn try_from_spec(value: DataType) -> Result<u32, &'static str> {
        match value.spec_tag() {
            Some(n) => Ok(n),
            None => Err("No u32 value for DataType::UNKNOWN"),
        }
    }
}

impl FromSpecImpl<u32> for DataType {
    open spec fn obeys_from_spec() -> bool {
        true
    }

    open spec fn from_spec(val: u32) -> DataType {
        DataType::spec_from_tag(val)
    }
}

} // verus!
