use bg3_lib::bin_utils::decompress;
use bg3_lib::bin_utils::ByteReader;
use bg3_lib::error::Error;
use bg3_lib::lsf_reader::value::read_attribute;
use bg3_lib::lsf_reader::value::read_string;
use bg3_lib::lsf_reader::value::read_translated_fs_string;
use bg3_lib::lsf_reader::value::read_translated_string;
use bg3_lib::lsf_reader::value::read_typed_attribute;
use bg3_lib::lsf_reader::value::translated_versioned;
use bg3_lib::lsf_reader::DataType;
use bg3_lib::lsf_reader::LSFReader;
use bg3_lib::lsf_reader::LSFVersion;
use bg3_lib::lsf_reader::NodeAttributeValue;
use bg3_lib::lsf_reader::PackedVersion;
use bg3_lib::name_map::NameMap;
use std::io::Write;

#[test]
fn byte_reader_reads_little_endian_integers() {
    let data = [0x01u8, 0x02, 0x03, 0x04, 0x05, 0x06, 0x07, 0x08, 0xFF, 0xFE];
    let mut r = ByteReader::new(&data);
    assert_eq!(r.read_u8().unwrap(), 1);
    assert_eq!(r.pos, 1);
    r.seek(0);
    assert_eq!(r.read_u16().unwrap(), 0x0201);
    r.seek(0);
    assert_eq!(r.read_u32().unwrap(), 0x0403_0201);
    r.seek(0);
    assert_eq!(r.read_u64().unwrap(), 0x0807_0605_0403_0201);
    assert_eq!(r.pos, 8);
    assert_eq!(r.read_i16().unwrap(), -257);
    assert_eq!(r.pos, 10);
    r.seek(8);
    assert_eq!(r.read_i8().unwrap(), -1);
    assert_eq!(r.read_i8().unwrap(), -2);
    r.seek(6);
    assert_eq!(r.read_i32().unwrap(), i32::from_le_bytes([0x07, 0x08, 0xFF, 0xFE]));
    r.seek(2);
    assert_eq!(r.read_i64().unwrap(), i64::from_le_bytes([3, 4, 5, 6, 7, 8, 0xFF, 0xFE]));
    r.seek(1);
    assert_eq!(r.read_bytes(3).unwrap(), vec![2, 3, 4]);
    assert_eq!(r.pos, 4);
    assert_eq!(r.len(), 10);
}

#[test]
fn byte_reader_short_reads() {
    let data = [1u8, 2, 3];
    let mut r = ByteReader::new(&data);
    assert_eq!(r.read_u32().unwrap_err(), Error::ShortRead);
    assert_eq!(r.read_u64().unwrap_err(), Error::ShortRead);
    r.seek(2);
    assert_eq!(r.read_u16().unwrap_err(), Error::ShortRead);
    assert_eq!(r.read_u8().unwrap(), 3);
    assert_eq!(r.read_u8().unwrap_err(), Error::ShortRead);
    assert_eq!(r.read_i8().unwrap_err(), Error::ShortRead);
    assert_eq!(r.read_bytes(1).unwrap_err(), Error::ShortRead);
    assert_eq!(r.read_bytes(0).unwrap(), Vec::<u8>::new());
    r.seek(100);
    assert_eq!(r.read_bytes(0).unwrap(), Vec::<u8>::new());
    assert_eq!(r.pos, 100);
    assert_eq!(r.read_u8().unwrap_err(), Error::ShortRead);
    assert_eq!(r.read_uuid().unwrap_err(), Error::ShortRead);
    assert_eq!(r.read_i32_vec::<2>().unwrap_err(), Error::ShortRead);
    r.seek(usize::MAX);
    assert_eq!(r.read_u16().unwrap_err(), Error::ShortRead);
}

#[test]
fn byte_reader_reads_floats_as_bits() {
    let mut data = Vec::new();
    data.extend_from_slice(&1.5f32.to_le_bytes());
    data.extend_from_slice(&(-2.25f64).to_le_bytes());
    let mut r = ByteReader::new(&data);
    assert_eq!(f32::from_bits(r.read_f32().unwrap()), 1.5f32);
    assert_eq!(f64::from_bits(r.read_f64().unwrap()), -2.25f64);
    assert_eq!(r.read_f32().unwrap_err(), Error::ShortRead);
}

#[test]
fn byte_reader_reads_vectors_and_matrices() {
    let mut data = Vec::new();
    for i in 0..12 {
        data.extend_from_slice(&(i as f32).to_le_bytes());
    }
    let mut r = ByteReader::new(&data);
    let m = r.read_f32_mat::<4, 3>().unwrap();
    assert_eq!(r.pos, 48);
    assert_eq!(f32::from_bits(m[0][0]), 0.0);
    assert_eq!(f32::from_bits(m[0][3]), 3.0);
    assert_eq!(f32::from_bits(m[1][0]), 4.0);
    assert_eq!(f32::from_bits(m[2][3]), 11.0);
    r.seek(0);
    let m = r.read_f32_mat::<3, 4>().unwrap();
    assert_eq!(f32::from_bits(m[1][0]), 3.0);
    assert_eq!(f32::from_bits(m[3][2]), 11.0);
    r.seek(4);
    let v = r.read_f32_vec::<3>().unwrap();
    assert_eq!(v.map(f32::from_bits), [1.0, 2.0, 3.0]);
    assert_eq!(r.pos, 16);
    r.seek(40);
    assert_eq!(r.read_f32_vec::<3>().unwrap_err(), Error::ShortRead);
    r.seek(4);
    assert_eq!(r.read_f32_mat::<4, 3>().unwrap_err(), Error::ShortRead);
    let ints: Vec<u8> = [-1i32, 2, i32::MIN, i32::MAX].iter().flat_map(|v| v.to_le_bytes()).collect();
    let mut r = ByteReader::new(&ints);
    assert_eq!(r.read_i32_vec::<4>().unwrap(), [-1, 2, i32::MIN, i32::MAX]);
    r.seek(0);
    let uuid = r.read_uuid().unwrap();
    assert_eq!(uuid.to_vec(), ints);
}

fn fixed(ty: DataType, bytes: &[u8]) -> Result<NodeAttributeValue, Error> {
    let mut r = ByteReader::new(bytes);
    let attr = read_attribute(&mut r, ty)?;
    assert_eq!(attr.ty, ty);
    assert_eq!(r.pos, bytes.len());
    Ok(attr.value)
}

#[test]
fn fixed_size_values_of_every_type() {
    assert!(matches!(fixed(DataType::Empty, &[]), Ok(NodeAttributeValue::Empty)));
    assert!(matches!(fixed(DataType::Byte, &[200]), Ok(NodeAttributeValue::Byte(200))));
    assert!(matches!(fixed(DataType::Short, &[0xFE, 0xFF]), Ok(NodeAttributeValue::Short(-2))));
    assert!(matches!(fixed(DataType::UShort, &[0xFE, 0xFF]), Ok(NodeAttributeValue::UShort(0xFFFE))));
    assert!(matches!(fixed(DataType::Int, &(-3i32).to_le_bytes()), Ok(NodeAttributeValue::Int(-3))));
    assert!(matches!(fixed(DataType::UInt, &[1, 0, 0, 0x80]), Ok(NodeAttributeValue::UInt(0x8000_0001))));
    assert!(matches!(fixed(DataType::Float, &1.0f32.to_le_bytes()), Ok(NodeAttributeValue::Float(0x3F80_0000))));
    assert!(matches!(
        fixed(DataType::Double, &1.0f64.to_le_bytes()),
        Ok(NodeAttributeValue::Double(0x3FF0_0000_0000_0000))
    ));
    assert!(matches!(fixed(DataType::Bool, &[0]), Ok(NodeAttributeValue::Bool(false))));
    assert!(matches!(fixed(DataType::Bool, &[2]), Ok(NodeAttributeValue::Bool(true))));
    assert!(matches!(
        fixed(DataType::ULongLong, &u64::MAX.to_le_bytes()),
        Ok(NodeAttributeValue::UInt64(u64::MAX))
    ));
    assert!(matches!(fixed(DataType::Long, &(-9i64).to_le_bytes()), Ok(NodeAttributeValue::Int64(-9))));
    assert!(matches!(
        fixed(DataType::Int64, &i64::MIN.to_le_bytes()),
        Ok(NodeAttributeValue::Int64(i64::MIN))
    ));
    assert!(matches!(fixed(DataType::Int8, &[0x80]), Ok(NodeAttributeValue::I8(-128))));
    let bytes: Vec<u8> = (1u8..=64).collect();
    assert!(matches!(fixed(DataType::Uuid, &bytes[..16]), Ok(NodeAttributeValue::Uuid(u)) if u.to_vec() == bytes[..16]));
    let w = |i: usize| u32::from_le_bytes([bytes[4 * i], bytes[4 * i + 1], bytes[4 * i + 2], bytes[4 * i + 3]]);
    assert!(matches!(fixed(DataType::IVec2, &bytes[..8]), Ok(NodeAttributeValue::IVec2(v)) if v == [w(0) as i32, w(1) as i32]));
    assert!(matches!(fixed(DataType::IVec3, &bytes[..12]), Ok(NodeAttributeValue::IVec3(v)) if v[2] == w(2) as i32));
    assert!(matches!(fixed(DataType::IVec4, &bytes[..16]), Ok(NodeAttributeValue::IVec4(v)) if v[3] == w(3) as i32));
    assert!(matches!(fixed(DataType::Vec2, &bytes[..8]), Ok(NodeAttributeValue::Vec2(v)) if v == [w(0), w(1)]));
    assert!(matches!(fixed(DataType::Vec3, &bytes[..12]), Ok(NodeAttributeValue::Vec3(v)) if v == [w(0), w(1), w(2)]));
    assert!(matches!(fixed(DataType::Vec4, &bytes[..16]), Ok(NodeAttributeValue::Vec4(v)) if v[3] == w(3)));
    assert!(matches!(fixed(DataType::Mat2, &bytes[..16]), Ok(NodeAttributeValue::Mat2(m)) if m == [[w(0), w(1)], [w(2), w(3)]]));
    assert!(matches!(fixed(DataType::Mat3, &bytes[..36]), Ok(NodeAttributeValue::Mat3(m)) if m[2] == [w(6), w(7), w(8)]));
    assert!(matches!(fixed(DataType::Mat3x4, &bytes[..48]), Ok(NodeAttributeValue::Mat3x4(m)) if m[2] == [w(8), w(9), w(10), w(11)] && m[1][0] == w(4)));
    assert!(matches!(fixed(DataType::Mat4x3, &bytes[..48]), Ok(NodeAttributeValue::Mat4x3(m)) if m[3] == [w(9), w(10), w(11)] && m[1][0] == w(3)));
    assert!(matches!(fixed(DataType::Mat4, &bytes[..64]), Ok(NodeAttributeValue::Mat4(m)) if m[3] == [w(12), w(13), w(14), w(15)]));
}

#[test]
fn fixed_size_values_stop_at_the_end() {
    assert_eq!(fixed(DataType::Int, &[1, 2, 3]).unwrap_err(), Error::ShortRead);
    assert_eq!(fixed(DataType::Mat4, &[0; 63]).unwrap_err(), Error::ShortRead);
    assert_eq!(fixed(DataType::Uuid, &[0; 15]).unwrap_err(), Error::ShortRead);
    assert_eq!(fixed(DataType::Bool, &[]).unwrap_err(), Error::ShortRead);
    assert_eq!(fixed(DataType::Unknown, &[]).unwrap_err(), Error::UnknownType);
    assert_eq!(fixed(DataType::String, &[]).unwrap_err(), Error::UnknownType);
    assert_eq!(fixed(DataType::ScratchBuffer, &[]).unwrap_err(), Error::UnknownType);
}

#[test]
fn strings_end_in_nul() {
    let mut r = ByteReader::new(b"abc\0\0\0xyz");
    assert_eq!(read_string(&mut r, 6).unwrap(), "abc");
    assert_eq!(r.pos, 6);
    r.seek(0);
    assert_eq!(read_string(&mut r, 4).unwrap(), "abc");
    r.seek(0);
    assert_eq!(read_string(&mut r, 3).unwrap_err(), Error::MalformedString);
    r.seek(3);
    assert_eq!(read_string(&mut r, 3).unwrap(), "");
    r.seek(3);
    assert_eq!(read_string(&mut r, 1).unwrap(), "");
    r.seek(7);
    assert_eq!(read_string(&mut r, 0).unwrap(), "");
    assert_eq!(r.pos, 7);
    assert_eq!(read_string(&mut r, 3).unwrap_err(), Error::ShortRead);
    assert_eq!(read_string(&mut r, u32::MAX).unwrap_err(), Error::ShortRead);
    let mut r = ByteReader::new(b"a\0b\0");
    assert_eq!(read_string(&mut r, 4).unwrap(), "a\0b");
    let mut r = ByteReader::new(&[0xC3, 0xA9, 0xFF, 0x00]);
    assert_eq!(read_string(&mut r, 4).unwrap(), "\u{e9}\u{FFFD}");
}

fn sized(text: &[u8]) -> Vec<u8> {
    let mut out = ((text.len() + 1) as i32).to_le_bytes().to_vec();
    out.extend_from_slice(text);
    out.push(0);
    out
}

#[test]
fn typed_values_with_a_length() {
    let engine = PackedVersion { major: 4, minor: 0, revision: 0, build: 0 };
    let version = Some(LSFVersion::VerBG3AdditionalBlob);
    for ty in [
        DataType::String,
        DataType::Path,
        DataType::FixedString,
        DataType::LSString,
        DataType::WString,
        DataType::LSWString,
    ] {
        let mut r = ByteReader::new(b"path/to\0rest");
        let attr = read_typed_attribute(&mut r, ty, 8, version, engine).unwrap();
        assert_eq!(attr.ty, ty);
        assert!(matches!(&attr.value, NodeAttributeValue::String(s) if s == "path/to"));
        assert_eq!(r.pos, 8);
    }
    let mut r = ByteReader::new(&[9, 8, 7, 6]);
    let attr = read_typed_attribute(&mut r, DataType::ScratchBuffer, 3, version, engine).unwrap();
    assert!(matches!(&attr.value, NodeAttributeValue::Bytes(b) if b == &vec![9, 8, 7]));
    let attr = read_typed_attribute(&mut r, DataType::ScratchBuffer, 0, version, engine).unwrap();
    assert!(matches!(&attr.value, NodeAttributeValue::Bytes(b) if b.is_empty()));
    assert_eq!(
        read_typed_attribute(&mut r, DataType::ScratchBuffer, 2, version, engine).unwrap_err(),
        Error::ShortRead
    );
    r.seek(0);
    let attr = read_typed_attribute(&mut r, DataType::UInt, 99, version, engine).unwrap();
    assert!(matches!(attr.value, NodeAttributeValue::UInt(0x0607_0809)));
    assert_eq!(
        read_typed_attribute(&mut r, DataType::Unknown, 0, version, engine).unwrap_err(),
        Error::UnknownType
    );
    let mut reader = LSFReader::new();
    reader.version = version;
    reader.game_version = engine;
    r.seek(1);
    let attr = reader.read_attribute(DataType::Short, &mut r, 2).unwrap();
    assert!(matches!(attr.value, NodeAttributeValue::Short(0x0708)));
}

#[test]
fn translated_string_gate() {
    let old = PackedVersion { major: 4, minor: 9, revision: 0, build: 0x19 };
    assert!(!translated_versioned(Some(LSFVersion::VerExtendedNodes), old));
    assert!(!translated_versioned(None, old));
    assert!(translated_versioned(Some(LSFVersion::VerBG3), old));
    assert!(translated_versioned(None, PackedVersion { build: 0x1A, ..old }));
    assert!(translated_versioned(None, PackedVersion { revision: 1, build: 0, ..old }));
    assert!(translated_versioned(None, PackedVersion { major: 5, build: 0, ..old }));
    assert!(!translated_versioned(None, PackedVersion { major: 3, revision: 7, build: 0xFFFF, ..old }));
}

#[test]
fn translated_strings_of_both_forms() {
    let mut data = 0x0102u16.to_le_bytes().to_vec();
    data.extend(sized(b"h123"));
    let mut r = ByteReader::new(&data);
    let t = read_translated_string(&mut r, true).unwrap();
    assert_eq!(t.version, 0x0102);
    assert_eq!(t.value, None);
    assert_eq!(t.handle, "h123");
    assert_eq!(r.pos, data.len());
    let mut data = sized(b"text");
    data.extend(sized(b"handle"));
    let mut r = ByteReader::new(&data);
    let t = read_translated_string(&mut r, false).unwrap();
    assert_eq!(t.version, 0);
    assert_eq!(t.value, Some("text".to_string()));
    assert_eq!(t.handle, "handle");
    assert_eq!(r.pos, data.len());
    let mut r = ByteReader::new(&data[..data.len() - 1]);
    assert_eq!(read_translated_string(&mut r, false).unwrap_err(), Error::ShortRead);
    let engine_old = PackedVersion { major: 4, minor: 0, revision: 0, build: 0 };
    let engine_new = PackedVersion { major: 4, minor: 0, revision: 0, build: 26 };
    let mut r = ByteReader::new(&data);
    let attr = read_typed_attribute(&mut r, DataType::TranslatedString, 0, Some(LSFVersion::VerInitial), engine_old).unwrap();
    assert!(matches!(&attr.value, NodeAttributeValue::TranslatedString(t) if t.value.as_deref() == Some("text")));
    let mut versioned = 7u16.to_le_bytes().to_vec();
    versioned.extend(sized(b"hh"));
    let mut r = ByteReader::new(&versioned);
    let attr = read_typed_attribute(&mut r, DataType::TranslatedString, 0, Some(LSFVersion::VerInitial), engine_new).unwrap();
    assert!(matches!(&attr.value, NodeAttributeValue::TranslatedString(t) if t.version == 7 && t.value.is_none() && t.handle == "hh"));
}

fn fs_string_versioned(version: u16, handle: &[u8], arguments: &[(&[u8], Vec<u8>, &[u8])]) -> Vec<u8> {
    let mut out = version.to_le_bytes().to_vec();
    out.extend(sized(handle));
    out.extend_from_slice(&(arguments.len() as i32).to_le_bytes());
    for (key, string, value) in arguments {
        out.extend(sized(key));
        out.extend_from_slice(string);
        out.extend(sized(value));
    }
    out
}

#[test]
fn translated_fs_strings_nest() {
    let inner = fs_string_versioned(2, b"inner", &[]);
    let middle = fs_string_versioned(3, b"middle", &[(b"k2", inner.clone(), b"v2")]);
    let data = fs_string_versioned(4, b"outer", &[(b"k0", inner, b"v0"), (b"k1", middle, b"v1")]);
    let mut r = ByteReader::new(&data);
    let t = read_translated_fs_string(&mut r, Some(LSFVersion::VerBG3)).unwrap();
    assert_eq!(r.pos, data.len());
    assert_eq!(t.base.version, 4);
    assert_eq!(t.base.handle, "outer");
    assert_eq!(t.base.value, None);
    assert_eq!(t.arguments.len(), 2);
    assert_eq!(t.arguments[0].key, "k0");
    assert_eq!(t.arguments[0].value, "v0");
    assert_eq!(t.arguments[0].string.base.handle, "inner");
    assert_eq!(t.arguments[0].string.arguments.len(), 0);
    assert_eq!(t.arguments[1].key, "k1");
    assert_eq!(t.arguments[1].string.base.version, 3);
    assert_eq!(t.arguments[1].string.arguments.len(), 1);
    assert_eq!(t.arguments[1].string.arguments[0].key, "k2");
    assert_eq!(t.arguments[1].string.arguments[0].string.base.version, 2);
    assert_eq!(t.arguments[1].string.arguments[0].value, "v2");
    let mut r = ByteReader::new(&data[..data.len() - 2]);
    assert_eq!(read_translated_fs_string(&mut r, Some(LSFVersion::VerBG3)).unwrap_err(), Error::ShortRead);
    let engine = PackedVersion { major: 9, minor: 0, revision: 0, build: 0 };
    let mut r = ByteReader::new(&data);
    let attr = read_typed_attribute(&mut r, DataType::TranslatedFSString, 0, Some(LSFVersion::VerBg3Patch3), engine).unwrap();
    assert!(matches!(&attr.value, NodeAttributeValue::TranslatedFSString(t) if t.arguments.len() == 2));
}

#[test]
fn translated_fs_string_inline_form_ignores_the_engine() {
    let mut data = sized(b"text");
    data.extend(sized(b"handle"));
    data.extend_from_slice(&0i32.to_le_bytes());
    let mut r = ByteReader::new(&data);
    let t = read_translated_fs_string(&mut r, Some(LSFVersion::VerExtendedNodes)).unwrap();
    assert_eq!(t.base.version, 0);
    assert_eq!(t.base.value, Some("text".to_string()));
    assert_eq!(t.base.handle, "handle");
    assert!(t.arguments.is_empty());
    let engine = PackedVersion { major: 9, minor: 0, revision: 0, build: 0 };
    let mut r = ByteReader::new(&data);
    let attr = read_typed_attribute(&mut r, DataType::TranslatedFSString, 0, Some(LSFVersion::VerExtendedNodes), engine).unwrap();
    assert!(matches!(&attr.value, NodeAttributeValue::TranslatedFSString(t) if t.base.value.as_deref() == Some("text")));
    let mut r = ByteReader::new(&data);
    let t = read_translated_fs_string(&mut r, None).unwrap();
    assert_eq!(t.base.handle, "handle");
}

#[test]
fn translated_fs_string_negative_count_is_malformed() {
    let mut data = 1u16.to_le_bytes().to_vec();
    data.extend(sized(b"h"));
    data.extend_from_slice(&(-1i32).to_le_bytes());
    let mut r = ByteReader::new(&data);
    assert_eq!(
        read_translated_fs_string(&mut r, Some(LSFVersion::VerBG3)).unwrap_err(),
        Error::MalformedString
    );
    let mut data = 1u16.to_le_bytes().to_vec();
    data.extend(sized(b"h"));
    data.extend_from_slice(&i32::MAX.to_le_bytes());
    let mut r = ByteReader::new(&data);
    assert_eq!(
        read_translated_fs_string(&mut r, Some(LSFVersion::VerBG3)).unwrap_err(),
        Error::ShortRead
    );
    let mut data = 1u16.to_le_bytes().to_vec();
    data.extend_from_slice(&(-4i32).to_le_bytes());
    let mut r = ByteReader::new(&data);
    assert_eq!(
        read_translated_fs_string(&mut r, Some(LSFVersion::VerBG3)).unwrap_err(),
        Error::ShortRead
    );
}

#[test]
fn codec_by_method() {
    let raw = b"hello hello hello hello hello".to_vec();
    assert_eq!(decompress(&raw, raw.len(), 0, false).unwrap(), raw);
    assert_eq!(decompress(&raw, raw.len(), 0x40, true).unwrap(), raw);
    assert_eq!(decompress(&raw, raw.len() + 1, 0, false).unwrap_err(), Error::SizeMismatch);
    assert_eq!(decompress(&raw, 0, 0, false).unwrap_err(), Error::SizeMismatch);
    let mut enc = flate2::write::ZlibEncoder::new(Vec::new(), flate2::Compression::default());
    enc.write_all(&raw).unwrap();
    let z = enc.finish().unwrap();
    assert_ne!(z, raw);
    assert_eq!(decompress(&z, raw.len(), 1, false).unwrap(), raw);
    assert_eq!(decompress(&z, raw.len(), 0x41, true).unwrap(), raw);
    assert_eq!(decompress(&z, 5, 1, false).unwrap(), raw[..5].to_vec());
    assert_eq!(decompress(&z, raw.len() + 1, 1, false).unwrap_err(), Error::DecompressFailed);
    assert_eq!(decompress(&raw, raw.len(), 1, false).unwrap_err(), Error::DecompressFailed);
    let block = lz4_flex::block::compress(&raw);
    assert_ne!(block, raw);
    assert_eq!(decompress(&block, raw.len(), 2, false).unwrap(), raw);
    assert_eq!(decompress(&block, raw.len() + 3, 2, false).unwrap_err(), Error::SizeMismatch);
    assert_eq!(decompress(&block, raw.len() - 3, 2, false).unwrap_err(), Error::DecompressFailed);
    assert_eq!(decompress(&block, raw.len(), 2, true).unwrap_err(), Error::DecompressFailed);
    let mut enc = lz4_flex::frame::FrameEncoder::new(Vec::new());
    enc.write_all(&raw).unwrap();
    let frame = enc.finish().unwrap();
    assert_eq!(decompress(&frame, raw.len(), 2, true).unwrap(), raw);
    assert_eq!(decompress(&frame, 4, 2, true).unwrap(), raw[..4].to_vec());
    assert_eq!(decompress(&frame, raw.len() + 1, 2, true).unwrap_err(), Error::DecompressFailed);
    assert_eq!(decompress(&raw, raw.len(), 3, false).unwrap_err(), Error::UnsupportedCompression);
    for nibble in 4u8..16 {
        assert_eq!(decompress(&raw, raw.len(), nibble, false).unwrap_err(), Error::UnsupportedCompression);
    }
    assert_eq!(decompress(&z, usize::MAX, 1, false).unwrap_err(), Error::SizeMismatch);
    assert_eq!(decompress(&block, usize::MAX, 2, false).unwrap_err(), Error::SizeMismatch);
}

#[test]
fn data_type_tags() {
    assert_eq!(DataType::from(0), DataType::Empty);
    assert_eq!(DataType::from(19), DataType::Bool);
    assert_eq!(DataType::from(25), DataType::ScratchBuffer);
    assert_eq!(DataType::from(33), DataType::TranslatedFSString);
    assert_eq!(DataType::from(34), DataType::Unknown);
    assert_eq!(DataType::from(u32::MAX), DataType::Unknown);
    for tag in 0u32..=33 {
        assert_eq!(u32::try_from(DataType::from(tag)), Ok(tag));
        assert_eq!(DataType::from(tag).tag(), Some(tag));
    }
    assert_eq!(u32::try_from(DataType::Unknown), Err("No u32 value for DataType::UNKNOWN"));
    assert_eq!(DataType::max(), DataType::TranslatedFSString);
    assert_eq!(DataType::max_i32(), 33);
}

#[test]
fn versions_unpack() {
    let packed = ((5i64) << 55) | (6i64 << 47) | (0x1234i64 << 31) | 0x7654_3210;
    assert_eq!(
        PackedVersion::from(packed),
        PackedVersion { major: 5, minor: 6, revision: 0x1234, build: 0x7654_3210 }
    );
    assert_eq!(
        PackedVersion::from(-1i64),
        PackedVersion { major: 0xFF, minor: 0xFF, revision: 0xFFFF, build: 0x7FFF_FFFF }
    );
    assert_eq!(
        PackedVersion::from(0x4321_8765i32),
        PackedVersion { major: 4, minor: 3, revision: 0x21, build: 0x8765 }
    );
    assert_eq!(
        PackedVersion::from(-1i32),
        PackedVersion { major: 15, minor: 15, revision: 255, build: 0xFFFF }
    );
    assert_eq!(PackedVersion::default(), PackedVersion { major: 0, minor: 0, revision: 0, build: 0 });
    assert_eq!(
        PackedVersion::default().or_default(),
        PackedVersion { major: 4, minor: 0, revision: 9, build: 0 }
    );
    assert_eq!(PackedVersion::from(0x1000_0000i32).or_default(), PackedVersion::from(0x1000_0000i32));
    assert_eq!(LSFVersion::get(0), None);
    assert_eq!(LSFVersion::get(1), Some(LSFVersion::VerInitial));
    assert_eq!(LSFVersion::get(4), Some(LSFVersion::VerBG3));
    assert_eq!(LSFVersion::get(7), Some(LSFVersion::VerBg3Patch3));
    assert_eq!(LSFVersion::get(8), None);
    for n in 1u64..=7 {
        assert_eq!(LSFVersion::get(n).unwrap().number() as u64, n);
    }
    assert!(LSFVersion::VerBG3.at_least(LSFVersion::VerBG3));
    assert!(!LSFVersion::VerExtendedNodes.at_least(LSFVersion::VerBG3));
}

#[test]
fn errors_describe_themselves() {
    assert_eq!(Error::NotLSPK.message(), "not an LSPK package");
    assert_eq!(Error::ShortRead.message(), "fewer bytes than expected");
    assert_eq!(Error::UnknownType.message(), "unknown attribute type");
    assert_ne!(Error::BadNameRef.message(), Error::BadParentRef.message());
}

#[test]
fn name_map_keeps_one_entry_for_each_name() {
    let mut m: NameMap<usize> = NameMap::new();
    assert_eq!(m.len(), 0);
    assert!(m.get(&"a".to_string()).is_none());
    m.insert("a".to_string(), 1);
    m.insert("b".to_string(), 2);
    m.insert("a".to_string(), 3);
    assert_eq!(m.len(), 2);
    assert_eq!(m.get(&"a".to_string()), Some(&3));
    assert_eq!(m.get(&"b".to_string()), Some(&2));
    assert_eq!(m.position(&"b".to_string()), Some(1));
    assert_eq!(m.position(&"c".to_string()), None);
    let mut lists: NameMap<Vec<usize>> = NameMap::new();
    lists.append(&"x".to_string(), 4);
    lists.append(&"y".to_string(), 5);
    lists.append(&"x".to_string(), 6);
    assert_eq!(lists.len(), 2);
    assert_eq!(lists.get(&"x".to_string()), Some(&vec![4, 6]));
    assert_eq!(lists.get(&"y".to_string()), Some(&vec![5]));
}
