use vstd::prelude::*;
use vstd::std_specs::convert::FromSpecImpl;
use crate::bin_utils::as_i32;
use crate::bin_utils::le_u32;
use crate::bin_utils::u32_at;
use crate::bin_utils::u32_to_i32;
use crate::bin_utils::ByteReader;
use crate::error::Error;

verus! {

/// The bucket that a packed name reference names: its high 16 bits.
pub open spec fn name_bucket(raw: u32) -> i32 {
    (raw >> 16) as i32
}

/// The slot that a packed name reference names: its low 16 bits.
pub open spec fn name_slot(raw: u32) -> i32 {
    (raw & 0xffff) as i32
}

/// The type tag of a packed type and length: its low 6 bits.
pub open spec fn packed_type(type_and_length: u32) -> u32 {
    type_and_length & 0x3f
}

/// The length of a packed type and length: its high 26 bits.
pub open spec fn packed_length(type_and_length: u32) -> u32 {
    type_and_length >> 6
}

/// An index stored as a signed 32-bit number, where any negative number means none.
pub open spec fn index_unless_negative(raw: i32) -> Option<usize> {
    if raw < 0 {
        None
    } else {
        Some(raw as usize)
    }
}

/// An index stored as a signed 32-bit number, where -1 means none. Any other negative
/// number is kept as the index it wraps to, which names nothing.
pub open spec fn index_unless_minus_one(raw: i32) -> Option<usize> {
    if raw == -1 {
        None
    } else {
        Some(raw as usize)
    }
}

/// A packed name reference is made of its bucket and its slot, and holds nothing else:
/// the bucket in the high 16 bits, the slot in the low 16 bits.
pub proof fn lemma_name_round_trip(raw: u32)
    ensures
        name_bucket(raw) == raw >> 16,
        name_slot(raw) == raw & 0xFFFF,
        0 <= name_bucket(raw) <= 0xFFFF,
        0 <= name_slot(raw) <= 0xFFFF,
        ((name_bucket(raw) as u32) << 16) | (name_slot(raw) as u32) == raw,
{
    assert(raw >> 16 <= 0xffff) by (bit_vector);
    assert(raw & 0xffff <= 0xffff) by (bit_vector);
    assert(((raw >> 16) << 16) | (raw & 0xffff) == raw) by (bit_vector);
}

/// A packed type and length is made of its type tag and its length, and holds nothing
/// else: the tag in the low 6 bits, the length in the high 26 bits.
pub proof fn lemma_type_round_trip(type_and_length: u32)
    ensures
        packed_type(type_and_length) == type_and_length & 0x3F,
        packed_length(type_and_length) == type_and_length >> 6,
        packed_type(type_and_length) <= 0x3F,
        packed_length(type_and_length) <= 0x3FF_FFFF,
        (packed_length(type_and_length) << 6) | packed_type(type_and_length) == type_and_length,
{
    assert(type_and_length & 0x3f <= 0x3f) by (bit_vector);
    assert(type_and_length >> 6 <= 0x3ff_ffff) by (bit_vector);
    assert(((type_and_length >> 6) << 6) | (type_and_length & 0x3f) == type_and_length)
        by (bit_vector);
}

/// Splits a packed name reference into bucket and slot.
pub fn split_name(raw: u32) -> (r: (i32, i32))
    ensures
        r.0 == name_bucket(raw),
        r.1 == name_slot(raw),
        0 <= r.0 <= 0xffff,
        0 <= r.1 <= 0xffff,
        raw == r.0 * 0x1_0000 + r.1,
{
    let bucket: u32 = raw >> 16;
    let slot: u32 = raw & 0xffff;
    assert(raw >> 16 <= 0xffff) by (bit_vector);
    assert(raw & 0xffff <= 0xffff) by (bit_vector);
    assert(raw == (raw >> 16) * 0x1_0000 + (raw & 0xffff)) by (bit_vector);
    (bucket as i32, slot as i32)
}

/// Splits a packed type and length into type tag and length.
pub fn split_type(type_and_length: u32) -> (r: (u32, u32))
    ensures
        r.0 == packed_type(type_and_length),
        r.1 == packed_length(type_and_length),
        r.0 <= 0x3f,
        r.1 <= 0x3ff_ffff,
        type_and_length == r.1 * 0x40 + r.0,
{
    let ty: u32 = type_and_length & 0x3f;
    let length: u32 = type_and_length >> 6;
    assert(type_and_length & 0x3f <= 0x3f) by (bit_vector);
    assert(type_and_length >> 6 <= 0x3ff_ffff) by (bit_vector);
    assert(type_and_length == (type_and_length >> 6) * 0x40 + (type_and_length & 0x3f))
        by (bit_vector);
    (ty, length)
}

/// The index that `raw` stores, where any negative number means none.
pub fn to_index_unless_negative(raw: i32) -> (r: Option<usize>)
    ensures
        r == index_unless_negative(raw),
{
    if raw < 0 {
        None
    } else {
        Some(raw as usize)
    }
}

/// The index that `raw` stores, where -1 means none.
pub fn to_index_unless_minus_one(raw: i32) -> (r: Option<usize>)
    ensures
        r == index_unless_minus_one(raw),
{
    if raw == -1 {
        None
    } else {
        Some(
            #[verifier::truncate]
            (raw as usize),
        )
    }
}

/// A node as the tree assembler takes it.
#[derive(Debug, Clone, Copy, PartialEq, Eq)]
pub struct LSFNodeInfo {
    /// The node above this one; a root has none.
    pub parent_index: Option<usize>,
    /// The bucket of the node's name.
    pub name_index: i32,
    /// The slot of the node's name.
    pub name_offset: i32,
    /// The first attribute of the node, if it has any.
    pub first_attribute_index: Option<usize>,
}

/// A node entry of 16 bytes, as files with sibling data store it.
#[derive(Debug, Clone, Copy)]
pub struct LSFNodeEntryV3 {
    pub name_hash_table_index: u32,
    pub parent_index: i32,
    pub _next_sibling_index: i32,
    pub first_attribute_index: i32,
}

/// A node entry of 12 bytes.
#[derive(Debug, Clone, Copy)]
pub struct LSFNodeEntryV2 {
    pub name_hash_table_index: u32,
    pub first_attribute_index: i32,
    pub parent_index: i32,
}

/// The node that a name reference, a parent and a first attribute describe.
pub open spec fn spec_node_info(name: u32, parent: i32, first_attribute: i32) -> LSFNodeInfo {
    LSFNodeInfo {
        parent_index: index_unless_negative(parent),
        name_index: name_bucket(name),
        name_offset: name_slot(name),
        first_attribute_index: index_unless_minus_one(first_attribute),
    }
}

fn node_info(name: u32, parent: i32, first_attribute: i32) -> (info: LSFNodeInfo)
    ensures
        info == spec_node_info(name, parent, first_attribute),
{
    let (name_index, name_offset) = split_name(name);
    LSFNodeInfo {
        parent_index: to_index_unless_negative(parent),
        name_index,
        name_offset,
        first_attribute_index: to_index_unless_minus_one(first_attribute),
    }
}

impl From<LSFNodeEntryV3> for LSFNodeInfo {
    fn from(val: LSFNodeEntryV3) -> (info: LSFNodeInfo) {
        node_info(val.name_hash_table_index, val.parent_index, val.first_attribute_index)
    }
}

impl FromSpecImpl<LSFNodeEntryV3> for LSFNodeInfo {
    open spec fn obeys_from_spec() -> bool {
        true
    }

    open spec fn from_spec(val: LSFNodeEntryV3) -> LSFNodeInfo {
        spec_node_info(val.name_hash_table_index, val.parent_index, val.first_attribute_index)
    }
}

impl From<LSFNodeEntryV2> for LSFNodeInfo {
    fn from(val: LSFNodeEntryV2) -> (info: LSFNodeInfo) {
        node_info(val.name_hash_table_index, val.parent_index, val.first_attribute_index)
    }
}

impl FromSpecImpl<LSFNodeEntryV2> for LSFNodeInfo {
    open spec fn obeys_from_spec() -> bool {
        true
    }

    open spec fn from_spec(val: LSFNodeEntryV2) -> LSFNodeInfo {
        spec_node_info(val.name_hash_table_index, val.parent_index, val.first_attribute_index)
    }
}

/// The 16-byte node entry stored at `pos`.
pub open spec fn node_entry_v3_at(data: Seq<u8>, pos: int) -> LSFNodeEntryV3 {
    LSFNodeEntryV3 {
        name_hash_table_index: le_u32(data, pos),
        parent_index: as_i32(le_u32(data, pos + 4)),
        _next_sibling_index: as_i32(le_u32(data, pos + 8)),
        first_attribute_index: as_i32(le_u32(data, pos + 12)),
    }
}

/// The 12-byte node entry stored at `pos`.
pub open spec fn node_entry_v2_at(data: Seq<u8>, pos: int) -> LSFNodeEntryV2 {
    LSFNodeEntryV2 {
        name_hash_table_index: le_u32(data, pos),
        first_attribute_index: as_i32(le_u32(data, pos + 4)),
        parent_index: as_i32(le_u32(data, pos + 8)),
    }
}

/// The size of a node entry, and of an attribute entry: 16 bytes in the long form, 12 in
/// the short one.
pub open spec fn entry_size(long: bool) -> int {
    if long {
        16
    } else {
        12
    }
}

/// Entry `i` of a node table, as a node.
pub open spec fn node_at(data: Seq<u8>, i: int, long: bool) -> LSFNodeInfo {
    if long {
        let e = node_entry_v3_at(data, 16 * i);
        spec_node_info(e.name_hash_table_index, e.parent_index, e.first_attribute_index)
    } else {
        let e = node_entry_v2_at(data, 12 * i);
        spec_node_info(e.name_hash_table_index, e.parent_index, e.first_attribute_index)
    }
}

/// The nodes of a node table: one for each entry, in order. A table whose length is no
/// multiple of the entry size ends in the middle of an entry.
pub open spec fn spec_nodes(data: Seq<u8>, long: bool) -> Result<Seq<LSFNodeInfo>, Error> {
    if data.len() % (entry_size(long) as nat) != 0 {
        Err(Error::ShortRead)
    } else {
        Ok(Seq::new(data.len() / (entry_size(long) as nat), |i: int| node_at(data, i, long)))
    }
}

/// Reads the 16-byte node entry at `pos`.
pub fn read_node_entry_v3(data: &[u8], pos: usize) -> (entry: LSFNodeEntryV3)
    requires
        pos + 16 <= data@.len(),
    ensures
        entry == node_entry_v3_at(data@, pos as int),
{
    let len = data.len();
    LSFNodeEntryV3 {
        name_hash_table_index: u32_at(data, pos),
        parent_index: u32_to_i32(u32_at(data, pos + 4)),
        _next_sibling_index: u32_to_i32(u32_at(data, pos + 8)),
        first_attribute_index: u32_to_i32(u32_at(data, pos + 12)),
    }
}

/// Reads the 12-byte node entry at `pos`.
pub fn read_node_entry_v2(data: &[u8], pos: usize) -> (entry: LSFNodeEntryV2)
    requires
        pos + 12 <= data@.len(),
    ensures
        entry == node_entry_v2_at(data@, pos as int),
{
    let len = data.len();
    LSFNodeEntryV2 {
        name_hash_table_index: u32_at(data, pos),
        first_attribute_index: u32_to_i32(u32_at(data, pos + 4)),
        parent_index: u32_to_i32(u32_at(data, pos + 8)),
    }
}

/// Reads the whole of `stream` as a node table, in the long form or the short one.
pub fn read_nodes(stream: &mut ByteReader, long_nodes: bool) -> (r: Result<Vec<LSFNodeInfo>, Error>)
    ensures
        final(stream).data@ == old(stream).data@,
        match spec_nodes(old(stream).data@, long_nodes) {
            Ok(nodes) => r is Ok && r->Ok_0@ == nodes && final(stream).pos == old(stream).data@.len(),
            Err(e) => r == Err::<Vec<LSFNodeInfo>, Error>(e),
        },
{
    let size: usize = if long_nodes {
        16
    } else {
        12
    };
    let len = stream.len();
    if len % size != 0 {
        return Err(Error::ShortRead);
    }
    let count = len / size;
    let mut node_infos: Vec<LSFNodeInfo> = Vec::new();
    let mut i: usize = 0;
    while i < count
        invariant
            i <= count,
            size == entry_size(long_nodes),
            len == stream.data@.len(),
            len == count * size,
            node_infos@.len() == i,
            forall|k: int| 0 <= k < i ==> node_infos@[k] == node_at(stream.data@, k, long_nodes),
        decreases count - i,
    {
        assert(i * size + size <= count * size) by (nonlinear_arith)
            requires
                i < count,
        ;
        let info: LSFNodeInfo = if long_nodes {
            LSFNodeInfo::from(read_node_entry_v3(stream.data, i * 16))
        } else {
            LSFNodeInfo::from(read_node_entry_v2(stream.data, i * 12))
        };
        node_infos.push(info);
        i += 1;
    }
    stream.seek(len);
    assert(node_infos@ =~= spec_nodes(stream.data@, long_nodes)->Ok_0);
    Ok(node_infos)
}

} // verus!
