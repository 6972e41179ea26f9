use std::collections::HashMap;
use vstd::prelude::*;
use vstd::std_specs::convert::FromSpecImpl;
use crate::bin_utils::as_i32;
use crate::bin_utils::le_u32;
use crate::bin_utils::u32_at;
use crate::bin_utils::u32_to_i32;
use crate::bin_utils::ByteReader;
use crate::error::Error;
use crate::lsf_reader::entries::index_unless_negative;
use crate::lsf_reader::entries::name_bucket;
use crate::lsf_reader::entries::name_slot;
use crate::lsf_reader::entries::packed_length;
use crate::lsf_reader::entries::packed_type;
use crate::lsf_reader::entries::split_name;
use crate::lsf_reader::entries::split_type;
use crate::lsf_reader::entries::to_index_unless_negative;

verus! {

broadcast use vstd::std_specs::hash::group_hash_axioms;

/// An attribute as the tree assembler takes it.
#[derive(Debug, Clone, Copy, PartialEq, Eq)]
pub struct LSFAttributeInfo {
    /// The bucket of the attribute's name.
    pub name_index: i32,
    /// The slot of the attribute's name.
    pub name_offset: i32,
    /// The 6-bit type tag.
    pub type_id: u32,
    /// The length of the value in bytes.
    pub length: u32,
    /// Where the value starts in the values section.
    pub data_offset: u32,
    /// The next attribute of the same node, if there is one.
    pub next_attribute_index: Option<usize>,
}

/// An attribute entry of 16 bytes, as files with sibling data store it.
#[derive(Debug, Clone, Copy)]
pub struct LSFAttributeEntryV3 {
    pub name_hash_table_index: u32,
    pub type_and_length: u32,
    pub next_attribute_index: i32,
    pub offset: u32,
}

/// An attribute entry of 12 bytes. It names its node; where its value lies and which
/// attribute follows it come from the entries around it.
#[derive(Debug, Clone, Copy)]
pub struct LSFAttributeEntryV2 {
    pub name_hash_table_index: u32,
    pub type_and_length: u32,
    pub node_index: i32,
}

/// The attribute that a 16-byte entry describes.
pub open spec fn spec_attribute_v3(value: LSFAttributeEntryV3) -> LSFAttributeInfo {
    LSFAttributeInfo {
        name_index: name_bucket(value.name_hash_table_index),
        name_offset: name_slot(value.name_hash_table_index),
        type_id: packed_type(value.type_and_length),
        length: packed_length(value.type_and_length),
        data_offset: value.offset,
        next_attribute_index: index_unless_negative(value.next_attribute_index),
    }
}

impl From<LSFAttributeEntryV3> for LSFAttributeInfo {
    fn from(value: LSFAttributeEntryV3) -> (info: LSFAttributeInfo) {
        let (name_index, name_offset) = split_name(value.name_hash_table_index);
        let (type_id, length) = split_type(value.type_and_length);
        LSFAttributeInfo {
            name_index,
            name_offset,
            type_id,
            length,
            data_offset: value.offset,
            next_attribute_index: to_index_unless_negative(value.next_attribute_index),
        }
    }
}

impl FromSpecImpl<LSFAttributeEntryV3> for LSFAttributeInfo {
    open spec fn obeys_from_spec() -> bool {
        true
    }

    open spec fn from_spec(value: LSFAttributeEntryV3) -> LSFAttributeInfo {
        spec_attribute_v3(value)
    }
}

/// The 16-byte attribute entry stored at `pos`.
pub open spec fn attribute_entry_v3_at(data: Seq<u8>, pos: int) -> LSFAttributeEntryV3 {
    LSFAttributeEntryV3 {
        name_hash_table_index: le_u32(data, pos),
        type_and_length: le_u32(data, pos + 4),
        next_attribute_index: as_i32(le_u32(data, pos + 8)),
        offset: le_u32(data, pos + 12),
    }
}

/// The 12-byte attribute entry stored at `pos`.
pub open spec fn attribute_entry_v2_at(data: Seq<u8>, pos: int) -> LSFAttributeEntryV2 {
    LSFAttributeEntryV2 {
        name_hash_table_index: le_u32(data, pos),
        type_and_length: le_u32(data, pos + 4),
        node_index: as_i32(le_u32(data, pos + 8)),
    }
}

/// The attributes of a table of 16-byte entries: one for each entry, in order.
pub open spec fn spec_attributes_v3(data: Seq<u8>) -> Result<Seq<LSFAttributeInfo>, Error> {
    if data.len() % 16 != 0 {
        Err(Error::ShortRead)
    } else {
        Ok(
            Seq::new(
                data.len() / 16,
                |i: int| spec_attribute_v3(attribute_entry_v3_at(data, 16 * i)),
            ),
        )
    }
}

/// The entries of a table of 12-byte entries, in order.
pub open spec fn spec_entries_v2(data: Seq<u8>) -> Result<Seq<LSFAttributeEntryV2>, Error> {
    if data.len() % 12 != 0 {
        Err(Error::ShortRead)
    } else {
        Ok(Seq::new(data.len() / 12, |i: int| attribute_entry_v2_at(data, 12 * i)))
    }
}

/// Where the value of entry `i` starts: the lengths of the entries before it, added up
/// in 32 bits.
pub open spec fn v2_data_offset(entries: Seq<LSFAttributeEntryV2>, i: int) -> u32
    decreases i,
{
    if i <= 0 {
        0
    } else {
        ((v2_data_offset(entries, i - 1) + packed_length(entries[i - 1].type_and_length))
            % 0x1_0000_0000) as u32
    }
}

/// The first entry from `from` on that belongs to node `node`.
pub open spec fn v2_first_of(entries: Seq<LSFAttributeEntryV2>, node: i32, from: int) -> Option<
    usize,
>
    decreases entries.len() - from,
{
    if from < 0 || from >= entries.len() {
        None
    } else if entries[from].node_index == node {
        Some(from as usize)
    } else {
        v2_first_of(entries, node, from + 1)
    }
}

/// The attribute that entry `i` describes: its value follows that of the entry before
/// it, and its successor is the next entry of the same node.
pub open spec fn v2_attribute(entries: Seq<LSFAttributeEntryV2>, i: int) -> LSFAttributeInfo {
    LSFAttributeInfo {
        name_index: name_bucket(entries[i].name_hash_table_index),
        name_offset: name_slot(entries[i].name_hash_table_index),
        type_id: packed_type(entries[i].type_and_length),
        length: packed_length(entries[i].type_and_length),
        data_offset: v2_data_offset(entries, i),
        next_attribute_index: v2_first_of(entries, entries[i].node_index, i + 1),
    }
}

/// The attributes that 12-byte entries describe: one for each entry, in order.
pub open spec fn spec_link_v2(entries: Seq<LSFAttributeEntryV2>) -> Seq<LSFAttributeInfo> {
    Seq::new(entries.len(), |i: int| v2_attribute(entries, i))
}

/// The attributes of a table of 12-byte entries.
pub open spec fn spec_attributes_v2(data: Seq<u8>) -> Result<Seq<LSFAttributeInfo>, Error> {
    match spec_entries_v2(data) {
        Ok(entries) => Ok(spec_link_v2(entries)),
        Err(e) => Err(e),
    }
}

/// Reads the whole of `stream` as a table of 16-byte attribute entries.
pub fn read_attributes_v3(stream: &mut ByteReader) -> (r: Result<Vec<LSFAttributeInfo>, Error>)
    ensures
        final(stream).data@ == old(stream).data@,
        match spec_attributes_v3(old(stream).data@) {
            Ok(attributes) => r is Ok && r->Ok_0@ == attributes && final(stream).pos == old(stream).data@.len(),
            Err(e) => r == Err::<Vec<LSFAttributeInfo>, Error>(e),
        },
{
    let len = stream.len();
    if len % 16 != 0 {
        return Err(Error::ShortRead);
    }
    let count = len / 16;
    let mut attributes: Vec<LSFAttributeInfo> = Vec::new();
    let mut i: usize = 0;
    while i < count
        invariant
            i <= count,
            len == stream.data@.len(),
            len == count * 16,
            attributes@.len() == i,
            forall|k: int|
                0 <= k < i ==> attributes@[k] == spec_attribute_v3(
                    attribute_entry_v3_at(stream.data@, 16 * k),
                ),
        decreases count - i,
    {
        let pos = i * 16;
        let item = LSFAttributeEntryV3 {
            name_hash_table_index: u32_at(stream.data, pos),
            type_and_length: u32_at(stream.data, pos + 4),
            next_attribute_index: u32_to_i32(u32_at(stream.data, pos + 8)),
            offset: u32_at(stream.data, pos + 12),
        };
        attributes.push(LSFAttributeInfo::from(item));
        i += 1;
    }
    stream.seek(len);
    assert(attributes@ =~= spec_attributes_v3(stream.data@)->Ok_0);
    Ok(attributes)
}

/// Reads the whole of `stream` as a table of 12-byte attribute entries.
pub fn read_entries_v2(stream: &mut ByteReader) -> (r: Result<Vec<LSFAttributeEntryV2>, Error>)
    ensures
        final(stream).data@ == old(stream).data@,
        match spec_entries_v2(old(stream).data@) {
            Ok(entries) => r is Ok && r->Ok_0@ == entries && final(stream).pos == old(stream).data@.len(),
            Err(e) => r == Err::<Vec<LSFAttributeEntryV2>, Error>(e),
        },
{
    let len = stream.len();
    if len % 12 != 0 {
        return Err(Error::ShortRead);
    }
    let count = len / 12;
    let mut entries: Vec<LSFAttributeEntryV2> = Vec::new();
    let mut i: usize = 0;
    while i < count
        invariant
            i <= count,
            len == stream.data@.len(),
            len == count * 12,
            entries@.len() == i,
            forall|k: int|
                0 <= k < i ==> entries@[k] == attribute_entry_v2_at(stream.data@, 12 * k),
        decreases count - i,
    {
        let pos = i * 12;
        entries.push(
            LSFAttributeEntryV2 {
                name_hash_table_index: u32_at(stream.data, pos),
                type_and_length: u32_at(stream.data, pos + 4),
                node_index: u32_to_i32(u32_at(stream.data, pos + 8)),
            },
        );
        i += 1;
    }
    stream.seek(len);
    assert(entries@ =~= spec_entries_v2(stream.data@)->Ok_0);
    Ok(entries)
}

/// What a map from nodes to entries holds for `node`.
pub open spec fn lookup(map: Map<i32, usize>, node: i32) -> Option<usize> {
    if map.contains_key(node) {
        Some(map[node])
    } else {
        None
    }
}

/// Gives each 12-byte entry the place of its value and the attribute that follows it.
pub fn link_attributes_v2(entries: &Vec<LSFAttributeEntryV2>) -> (attributes: Vec<LSFAttributeInfo>)
    ensures
        attributes@ == spec_link_v2(entries@),
{
    let count = entries.len();
    let mut attributes: Vec<LSFAttributeInfo> = Vec::new();
    let mut data_offset: u32 = 0;
    let mut i: usize = 0;
    while i < count
        invariant
            i <= count,
            count == entries@.len(),
            attributes@.len() == i,
            data_offset == v2_data_offset(entries@, i as int),
            forall|k: int|
                0 <= k < i ==> (#[trigger] attributes@[k]) == (LSFAttributeInfo {
                    next_attribute_index: None,
                    ..v2_attribute(entries@, k)
                }),
        decreases count - i,
    {
        let entry = entries[i];
        let (name_index, name_offset) = split_name(entry.name_hash_table_index);
        let (type_id, length) = split_type(entry.type_and_length);
        attributes.push(
            LSFAttributeInfo {
                name_index,
                name_offset,
                type_id,
                length,
                data_offset,
                next_attribute_index: None,
            },
        );
        data_offset = ((data_offset as u64 + length as u64) % 0x1_0000_0000) as u32;
        i += 1;
    }
    let mut next_of_node: HashMap<i32, usize> = HashMap::new();
    while i > 0
        invariant
            i <= count,
            count == entries@.len(),
            attributes@.len() == count,
            forall|k: int|
                0 <= k < i ==> (#[trigger] attributes@[k]) == (LSFAttributeInfo {
                    next_attribute_index: None,
                    ..v2_attribute(entries@, k)
                }),
            forall|k: int| i <= k < count ==> (#[trigger] attributes@[k]) == v2_attribute(entries@, k),
            forall|node: i32|
                lookup(next_of_node@, node) == #[trigger] v2_first_of(entries@, node, i as int),
        decreases i,
    {
        i -= 1;
        let node = entries[i].node_index;
        let next: Option<usize> = match next_of_node.get(&node) {
            Some(j) => Some(*j),
            None => None,
        };
        assert(next == v2_first_of(entries@, node, i + 1));
        let linked = LSFAttributeInfo { next_attribute_index: next, ..attributes[i] };
        attributes.set(i, linked);
        next_of_node.insert(node, i);
        assert forall|other: i32|
            lookup(next_of_node@, other) == #[trigger] v2_first_of(
                entries@,
                other,
                i as int,
            ) by {
            assert(v2_first_of(entries@, other, i as int) == if other == node {
                Some(i)
            } else {
                v2_first_of(entries@, other, i + 1)
            });
        }
    }
    assert(attributes@ =~= spec_link_v2(entries@));
    attributes
}

/// Reads the whole of `stream` as a table of 12-byte attribute entries and links them.
pub fn read_attributes_v2(stream: &mut ByteReader) -> (r: Result<Vec<LSFAttributeInfo>, Error>)
    ensures
        final(stream).data@ == old(stream).data@,
        match spec_attributes_v2(old(stream).data@) {
            Ok(attributes) => r is Ok && r->Ok_0@ == attributes && final(stream).pos == old(stream).data@.len(),
            Err(e) => r == Err::<Vec<LSFAttributeInfo>, Error>(e),
        },
{
    let entries = read_entries_v2(stream)?;
    Ok(link_attributes_v2(&entries))
}

/// The lengths of the first `i` entries, added up.
pub open spec fn total_length(entries: Seq<LSFAttributeEntryV2>, i: int) -> nat
    decreases i,
{
    if i <= 0 {
        0
    } else {
        total_length(entries, i - 1) + packed_length(entries[i - 1].type_and_length) as nat
    }
}

/// The lengths of fewer entries add up to less.
pub proof fn lemma_total_length_grows(entries: Seq<LSFAttributeEntryV2>, i: int, j: int)
    requires
        i <= j,
    ensures
        total_length(entries, i) <= total_length(entries, j),
    decreases j - i,
{
    if i < j {
        lemma_total_length_grows(entries, i, j - 1);
    }
}

/// Data-offset coverage: where the lengths of all entries add up to the size of the
/// values section, the value of each attribute starts where the values before it end,
/// and lies inside the section.
pub proof fn lemma_v2_offsets_cover(entries: Seq<LSFAttributeEntryV2>, values_size: u32, i: int)
    requires
        total_length(entries, entries.len() as int) == values_size,
        0 <= i < entries.len(),
    ensures
        v2_attribute(entries, i).data_offset == total_length(entries, i),
        v2_attribute(entries, i).data_offset + v2_attribute(entries, i).length <= values_size,
    decreases i,
{
    lemma_total_length_grows(entries, i + 1, entries.len() as int);
    lemma_total_length_grows(entries, i, i + 1);
    if i > 0 {
        lemma_v2_offsets_cover(entries, values_size, i - 1);
    }
}

/// The entry that `v2_first_of` finds lies in the table, at or after the place where the
/// search began, and belongs to the node.
pub proof fn lemma_v2_first_of(entries: Seq<LSFAttributeEntryV2>, node: i32, from: int)
    requires
        0 <= from,
        entries.len() <= usize::MAX,
    ensures
        v2_first_of(entries, node, from) matches Some(j) ==> from <= j < entries.len()
            && entries[j as int].node_index == node,
    decreases entries.len() - from,
{
    if from < entries.len() && entries[from].node_index != node {
        lemma_v2_first_of(entries, node, from + 1);
    }
}

/// Whether the chain that starts at attribute `index` names only attributes that exist
/// and ends after it has visited `fuel` attributes or fewer.
pub open spec fn chain_ends(attributes: Seq<LSFAttributeInfo>, index: usize, fuel: nat) -> bool
    decreases fuel,
{
    &&& index < attributes.len()
    &&& fuel > 0
    &&& match attributes[index as int].next_attribute_index {
        None => true,
        Some(next) => chain_ends(attributes, next, (fuel - 1) as nat),
    }
}

/// Attribute chains end: among the attributes made of 12-byte entries, the successor of
/// an attribute comes after it, so the chain from attribute `i` ends after it has
/// visited no more attributes than there are from `i` on.
pub proof fn lemma_v2_chain_ends(entries: Seq<LSFAttributeEntryV2>, i: usize)
    requires
        i < entries.len() <= usize::MAX,
    ensures
        chain_ends(spec_link_v2(entries), i, (entries.len() - i) as nat),
    decreases entries.len() - i,
{
    lemma_v2_first_of(entries, entries[i as int].node_index, i + 1);
    match v2_first_of(entries, entries[i as int].node_index, i + 1) {
        None => {},
        Some(next) => {
            lemma_v2_chain_ends(entries, next);
            lemma_chain_fuel(spec_link_v2(entries), next, (entries.len() - next) as nat, (
            entries.len() - i - 1) as nat);
        },
    }
}

/// A chain that ends within some number of visits ends within any greater number.
pub proof fn lemma_chain_fuel(attributes: Seq<LSFAttributeInfo>, index: usize, fuel: nat, more: nat)
    requires
        chain_ends(attributes, index, fuel),
        fuel <= more,
    ensures
        chain_ends(attributes, index, more),
    decreases fuel,
{
    match attributes[index as int].next_attribute_index {
        None => {},
        Some(next) => {
            lemma_chain_fuel(attributes, next, (fuel - 1) as nat, (more - 1) as nat);
        },
    }
}

} // verus!
