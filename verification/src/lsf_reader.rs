//! The resource format: header, sections, node and attribute tables, values, and the
//! tree that is made of them.

pub mod attributes;
pub mod data_type;
pub mod entries;
pub mod names;
pub mod resource;
pub mod value;
pub mod version;

pub use attributes::LSFAttributeEntryV2;
pub use attributes::LSFAttributeEntryV3;
pub use attributes::LSFAttributeInfo;
pub use data_type::DataType;
pub use entries::LSFNodeEntryV2;
pub use entries::LSFNodeEntryV3;
pub use entries::LSFNodeInfo;
pub use resource::LSMetadata;
pub use resource::Node;
pub use resource::NodeData;
pub use resource::NodeKind;
pub use resource::Resource;
pub use value::NodeAttribute;
pub use value::NodeAttributeValue;
pub use value::TranslatedFSString;
pub use value::TranslatedFSStringArgument;
pub use value::TranslatedString;
pub use version::LSFMetadataV6;
pub use version::LSFVersion;
pub use version::PackedVersion;

use vstd::prelude::*;
use crate::abstract_file_info::PackagedFileInfo;
use crate::abstract_file_info::PackagedFileInfoView;
use crate::bin_utils::ByteReader;
use crate::bin_utils::available;
use crate::bin_utils::bytes_at;
use crate::bin_utils::le_u32;
use crate::bin_utils::le_u64;
use crate::bin_utils::parsed;
use crate::bin_utils::spec_decompress;
use crate::error::Error;
use crate::error::Failure;
use crate::error::Section;
use crate::error::locate;
use crate::lsf_reader::attributes::spec_attributes_v2;
use crate::lsf_reader::attributes::spec_attributes_v3;
use crate::lsf_reader::entries::spec_nodes;
use crate::lsf_reader::names::parsed_deep;
use crate::lsf_reader::names::spec_names;
use crate::lsf_reader::resource::ResourceView;
use crate::lsf_reader::resource::Tables;
use crate::lsf_reader::resource::spec_add_node;
use crate::lsf_reader::resource::spec_chain;
use crate::lsf_reader::resource::spec_lookup_name;
use crate::lsf_reader::resource::spec_node_data;
use crate::lsf_reader::resource::spec_regions;
use crate::lsf_reader::resource::spec_tree;
use crate::lsf_reader::resource::tree_invariants;
use crate::lsf_reader::value::spec_read_attribute;
use crate::lsf_reader::version::LSFHeader;
use crate::lsf_reader::version::spec_header;
use crate::lsf_reader::version::spec_version_at_least;
use crate::lsf_reader::version::version_at_least;
use crate::name_map::NameMap;
use crate::package::Package;
use crate::package::spec_find;
use crate::package_reader::PackageReader;
use crate::package_reader::spec_entry;
use crate::package_reader::spec_entry_located;

verus! {

/// A decoder of resources. It keeps what it read from the last resource.
#[derive(Debug)]
pub struct LSFReader {
    pub version: Option<LSFVersion>,
    pub game_version: PackedVersion,
    pub metadata: LSFMetadataV6,
    /// The name pool: `names[bucket][slot]`.
    pub names: Vec<Vec<String>>,
    pub node_infos: Vec<LSFNodeInfo>,
    pub attributes: Vec<LSFAttributeInfo>,
    /// The values section.
    pub values: Vec<u8>,
}

/// The bytes of a section that is stored at `pos`, and where it ends. A section without
/// size on disk is stored as it is, if it is not empty. Any other is stored compressed
/// where the low nibble of `flags` is not 0, and goes through the codec either way; the
/// LZ4 frame format is used where `allow_chunked` holds and the file is of
/// `VerChunkedCompress` or later.
pub open spec fn spec_section(
    data: Seq<u8>,
    pos: int,
    size_on_disk: usize,
    uncompressed_size: usize,
    allow_chunked: bool,
    version: Option<LSFVersion>,
    flags: u8,
) -> Result<(Seq<u8>, int), Error> {
    if size_on_disk == 0 {
        if available(data, pos, uncompressed_size as int) {
            Ok((bytes_at(data, pos, uncompressed_size as int), pos + uncompressed_size))
        } else {
            Err(Error::ShortRead)
        }
    } else {
        let stored = if flags & 0x0F != 0 {
            size_on_disk
        } else {
            uncompressed_size
        };
        if available(data, pos, stored as int) {
            match spec_decompress(
                bytes_at(data, pos, stored as int),
                uncompressed_size,
                flags,
                allow_chunked && spec_version_at_least(version, LSFVersion::VerChunkedCompress),
            ) {
                Ok(bytes) => Ok((bytes, pos + stored)),
                Err(e) => Err(e),
            }
        } else {
            Err(Error::ShortRead)
        }
    }
}

/// Whether node tables and attribute tables are of the long form: from
/// `VerExtendedNodes` on, where the file has sibling data.
pub open spec fn spec_long_entries(version: Option<LSFVersion>, has_sibling_data: u32) -> bool {
    spec_version_at_least(version, LSFVersion::VerExtendedNodes) && has_sibling_data == 1
}

impl LSFReader {
    /// A decoder that has read nothing: it has no version, the engine version 0.0.0.0,
    /// metadata that is 0 in every field, and no names, nodes, attributes or values.
    pub fn new() -> (reader: Self)
        ensures
            reader.version is None,
            reader.game_version == (PackedVersion { major: 0, minor: 0, revision: 0, build: 0 }),
            reader.metadata == LSFMetadataV6::spec_zero(),
            reader.names@ == Seq::<Vec<String>>::empty(),
            reader.node_infos@ == Seq::<LSFNodeInfo>::empty(),
            reader.attributes@ == Seq::<LSFAttributeInfo>::empty(),
            reader.values@ == Seq::<u8>::empty(),
    {
        LSFReader {
            version: None,
            game_version: PackedVersion::default(),
            metadata: LSFMetadataV6::default(),
            names: Vec::new(),
            node_infos: Vec::new(),
            attributes: Vec::new(),
            values: Vec::new(),
        }
    }

    /// What the decoder holds, as the tree assembler takes it, with `values` for the
    /// values section.
    pub open spec fn tables_with(&self, values: Seq<u8>) -> Tables {
        Tables {
            names: self.names.deep_view(),
            attributes: self.attributes@,
            values,
            version: self.version,
            engine: self.game_version,
        }
    }

    /// Reads the header of a resource and keeps what it says.
    pub fn read_headers(&mut self, stream: &mut ByteReader) -> (r: Result<(), Error>)
        ensures
            final(stream).data@ == old(stream).data@,
            final(self).names == old(self).names,
            final(self).node_infos == old(self).node_infos,
            final(self).attributes == old(self).attributes,
            final(self).values == old(self).values,
            match spec_header(old(stream).data@, old(stream).pos as int) {
                Ok((header, end)) => r is Ok && final(stream).pos == end && final(self).version
                    == Some(header.version) && final(self).game_version == header.game_version
                    && final(self).metadata == header.metadata,
                Err(e) => r == Err::<(), Error>(e),
            },
    {
        let header = version::read_header(stream)?;
        self.version = Some(header.version);
        self.game_version = header.game_version;
        self.metadata = header.metadata;
        Ok(())
    }

    /// Reads one section from the file and returns its bytes.
    pub fn decompress(
        &self,
        stream: &mut ByteReader,
        size_on_disk: usize,
        uncompressed_size: usize,
        allow_chunked: bool,
    ) -> (r: Result<Vec<u8>, Error>)
        ensures
            final(stream).data@ == old(stream).data@,
            parsed(
                r,
                final(stream).pos as int,
                spec_section(
                    old(stream).data@,
                    old(stream).pos as int,
                    size_on_disk,
                    uncompressed_size,
                    allow_chunked,
                    self.version,
                    self.metadata.compression_flags,
                ),
            ),
    {
        if size_on_disk == 0 {
            return stream.read_bytes(uncompressed_size);
        }
        let chunked = allow_chunked && version_at_least(
            self.version,
            LSFVersion::VerChunkedCompress,
        );
        let is_compressed = (self.metadata.compression_flags & 0x0F) != 0;
        let compressed_size = if is_compressed {
            size_on_disk
        } else {
            uncompressed_size
        };
        let compressed = stream.read_bytes(compressed_size)?;
        crate::bin_utils::decompress(
            compressed.as_slice(),
            uncompressed_size,
            self.metadata.compression_flags,
            chunked,
        )
    }

    /// Reads the name pool.
    pub fn read_names(&self, stream: &mut ByteReader) -> (r: Result<Vec<Vec<String>>, Error>)
        ensures
            final(stream).data@ == old(stream).data@,
            parsed_deep(
                r,
                final(stream).pos as int,
                spec_names(old(stream).data@, old(stream).pos as int),
            ),
    {
        names::read_names(stream)
    }

    /// Reads the whole of `stream` as a node table, in the long form or the short one.
    pub fn read_nodes(&self, stream: &mut ByteReader, long_nodes: bool) -> (r: Result<
        Vec<LSFNodeInfo>,
        Error,
    >)
        ensures
            final(stream).data@ == old(stream).data@,
            match spec_nodes(old(stream).data@, long_nodes) {
                Ok(nodes) => r is Ok && r->Ok_0@ == nodes && final(stream).pos == old(stream).data@.len(),
                Err(e) => r == Err::<Vec<LSFNodeInfo>, Error>(e),
            },
    {
        entries::read_nodes(stream, long_nodes)
    }

    /// Reads the whole of `stream` as a table of 16-byte attribute entries.
    pub fn read_attributes_v3(&self, stream: &mut ByteReader) -> (r: Result<
        Vec<LSFAttributeInfo>,
        Error,
    >)
        ensures
            final(stream).data@ == old(stream).data@,
            match spec_attributes_v3(old(stream).data@) {
                Ok(attributes) => r is Ok && r->Ok_0@ == attributes && final(stream).pos == old(stream).data@.len(),
                Err(e) => r == Err::<Vec<LSFAttributeInfo>, Error>(e),
            },
    {
        attributes::read_attributes_v3(stream)
    }

    /// Reads the whole of `stream` as a table of 12-byte attribute entries and links
    /// them.
    pub fn read_attributes_v2(&self, stream: &mut ByteReader) -> (r: Result<
        Vec<LSFAttributeInfo>,
        Error,
    >)
        ensures
            final(stream).data@ == old(stream).data@,
            match spec_attributes_v2(old(stream).data@) {
                Ok(attributes) => r is Ok && r->Ok_0@ == attributes && final(stream).pos == old(stream).data@.len(),
                Err(e) => r == Err::<Vec<LSFAttributeInfo>, Error>(e),
            },
    {
        attributes::read_attributes_v2(stream)
    }

    /// Reads the value of an attribute of type `type_id` and length `length` from the
    /// values section.
    pub fn read_attribute(&self, type_id: DataType, stream: &mut ByteReader, length: u32) -> (r:
        Result<NodeAttribute, Error>)
        ensures
            final(stream).data@ == old(stream).data@,
            parsed(
                r,
                final(stream).pos as int,
                spec_read_attribute(
                    old(stream).data@,
                    old(stream).pos as int,
                    type_id,
                    length,
                    self.version,
                    self.game_version,
                ),
            ),
    {
        value::read_typed_attribute(stream, type_id, length, self.version, self.game_version)
    }

    /// The name in bucket `bucket` and slot `slot` of the name pool.
    pub fn lookup_name(&self, bucket: i32, slot: i32) -> (r: Option<String>)
        ensures
            match spec_lookup_name(self.names.deep_view(), bucket, slot) {
                Some(name) => r is Some && r->Some_0@ == name,
                None => r is None,
            },
    {
        if bucket < 0 || slot < 0 {
            return None;
        }
        if bucket as usize >= self.names.len() {
            return None;
        }
        let names = &self.names[bucket as usize];
        if slot as usize >= names.len() {
            return None;
        }
        Some(names[slot as usize].clone())
    }

    /// Reads the name and the attributes of a node. The values are read from `stream`,
    /// which holds the values section.
    pub fn read_node(&self, defn: &LSFNodeInfo, stream: &mut ByteReader) -> (r: Result<
        NodeData,
        Error,
    >)
        ensures
            final(stream).data@ == old(stream).data@,
            match spec_node_data(self.tables_with(old(stream).data@), *defn) {
                Ok((name, attributes)) => r is Ok && r->Ok_0.wf() && r->Ok_0.name@ == name
                    && r->Ok_0.attribute_map() == attributes && (r->Ok_0.attributes is Some
                    <==> defn.first_attribute_index is Some),
                Err(e) => r == Err::<NodeData, Error>(e),
            },
    {
        let name = match self.lookup_name(defn.name_index, defn.name_offset) {
            Some(name) => name,
            None => {
                return Err(Error::BadNameRef);
            },
        };
        let first_attribute_index = match defn.first_attribute_index {
            Some(idx) => idx,
            None => {
                return Ok(NodeData { name, attributes: None });
            },
        };
        let count = self.attributes.len();
        let ghost tables = self.tables_with(old(stream).data@);
        let ghost whole = spec_chain(tables, first_attribute_index, count as nat, Map::empty());
        let mut attributes: NameMap<NodeAttribute> = NameMap::new();
        let mut index = first_attribute_index;
        let mut visited: usize = 0;
        loop
            invariant
                visited <= count,
                count == self.attributes@.len(),
                tables == self.tables_with(old(stream).data@),
                stream.data@ == old(stream).data@,
                attributes.wf(),
                whole == spec_chain(tables, index, (count - visited) as nat, attributes@),
                whole == spec_chain(tables, first_attribute_index, count as nat, Map::empty()),
                spec_lookup_name(tables.names, defn.name_index, defn.name_offset) == Some(name@),
                defn.first_attribute_index == Some(first_attribute_index),
            decreases count - visited,
        {
            if index >= count || visited >= count {
                return Err(Error::BadAttributeRef);
            }
            let attribute = self.attributes[index];
            stream.seek(attribute.data_offset as usize);
            let type_id_enum: DataType = DataType::from(attribute.type_id);
            let value = self.read_attribute(type_id_enum, stream, attribute.length)?;
            let attr_name = match self.lookup_name(attribute.name_index, attribute.name_offset) {
                Some(name) => name,
                None => {
                    return Err(Error::BadNameRef);
                },
            };
            attributes.insert(attr_name, value);
            match attribute.next_attribute_index {
                Some(next) => {
                    index = next;
                    visited += 1;
                },
                None => {
                    return Ok(NodeData { name, attributes: Some(attributes) });
                },
            }
        }
    }

    /// Makes the tree of the nodes that the decoder holds. The values are read from
    /// `stream`, which holds the values section.
    pub fn read_regions(&self, stream: &mut ByteReader) -> (r: Result<Resource, Failure>)
        ensures
            final(stream).data@ == old(stream).data@,
            match spec_tree(self.tables_with(old(stream).data@), self.node_infos@) {
                Ok(resource) => r is Ok && r->Ok_0.wf() && r->Ok_0@ == resource,
                Err(e) => r == Err::<Resource, Failure>(e),
            },
            r matches Ok(resource) ==> tree_invariants(resource@) && resource@.nodes.len()
                == self.node_infos@.len(),
    {
        let mut resource = Resource::new();
        let count = self.node_infos.len();
        let mut i: usize = 0;
        while i < count
            invariant
                i <= count,
                count == self.node_infos@.len(),
                stream.data@ == old(stream).data@,
                resource.wf(),
                resource.node_instances@.len() == i,
                spec_regions(self.tables_with(old(stream).data@), self.node_infos@, i as nat) == Ok::<
                    ResourceView,
                    Error,
                >(resource@),
            decreases count - i,
        {
            let node_info = &self.node_infos[i];
            proof {
                if spec_regions(self.tables_with(old(stream).data@), self.node_infos@, (i + 1) as nat) is Err {
                    resource::lemma_regions_error(
                        self.tables_with(old(stream).data@),
                        self.node_infos@,
                        (i + 1) as nat,
                        count as nat,
                    );
                    resource::lemma_failing_node(
                        self.tables_with(old(stream).data@),
                        self.node_infos@,
                        i as nat,
                        count as nat,
                    );
                }
            }
            let node_data = locate(self.read_node(node_info, stream), Section::Tree, i as u64)?;
            let ghost before = resource@;
            let ghost before_nodes = resource.node_instances@;
            let node_name = node_data.name;
            let attributes = match node_data.attributes {
                Some(map) => map,
                None => NameMap::new(),
            };
            let ghost attribute_map = attributes@;
            let node_idx = resource.node_instances.len();
            match node_info.parent_index {
                Some(parent_idx) => {
                    if parent_idx >= node_idx {
                        return Err(
                            Failure {
                                kind: Error::BadParentRef,
                                section: Section::Tree,
                                offset: i as u64,
                            },
                        );
                    }
                    let node = Node {
                        kind: NodeKind::Node,
                        attributes,
                        name: node_name.clone(),
                        parent: Some(parent_idx),
                        children: NameMap::new(),
                    };
                    resource.node_instances.push(node);
                    resource.node_instances[parent_idx].append_child(&node_name, node_idx);
                    proof {
                        let expected = spec_add_node(
                            before,
                            node_name@,
                            attribute_map,
                            Some(parent_idx),
                        )->Ok_0;
                        assert(resource@.nodes =~= expected.nodes);
                    }
                },
                None => {
                    let region = Node {
                        kind: NodeKind::Region { name: node_name.clone() },
                        attributes,
                        name: node_name.clone(),
                        parent: None,
                        children: NameMap::new(),
                    };
                    resource.node_instances.push(region);
                    resource.regions.insert(node_name, node_idx);
                    proof {
                        let expected = spec_add_node(before, node_name@, attribute_map, None)->Ok_0;
                        assert(resource@.nodes =~= expected.nodes);
                    }
                },
            }
            i += 1;
        }
        proof {
            resource::lemma_tree_invariants(
                self.tables_with(old(stream).data@),
                self.node_infos@,
                count as nat,
            );
            resource::lemma_children(
                self.tables_with(old(stream).data@),
                self.node_infos@,
                count as nat,
            );
        }
        Ok(resource)
    }
}

/// The four sections of a resource, decoded.
pub struct Sections {
    pub header: LSFHeader,
    pub names: Seq<Seq<Seq<char>>>,
    pub nodes: Seq<LSFNodeInfo>,
    pub attributes: Seq<LSFAttributeInfo>,
    pub values: Seq<u8>,
}

impl Sections {
    /// The sections as the tree assembler takes them.
    pub open spec fn tables(self) -> Tables {
        Tables {
            names: self.names,
            attributes: self.attributes,
            values: self.values,
            version: Some(self.header.version),
            engine: self.header.game_version,
        }
    }
}

/// One section of the file `file` with header `header`, stored at `pos`, and where it
/// ends.
pub open spec fn spec_section_of(
    file: Seq<u8>,
    pos: int,
    header: LSFHeader,
    size_on_disk: u32,
    uncompressed_size: u32,
    allow_chunked: bool,
) -> Result<(Seq<u8>, int), Error> {
    spec_section(
        file,
        pos,
        size_on_disk as usize,
        uncompressed_size as usize,
        allow_chunked,
        Some(header.version),
        header.metadata.compression_flags,
    )
}

/// The name pool of a file whose strings section starts at `pos`, and where the
/// section ends.
pub open spec fn spec_load_names(file: Seq<u8>, pos: int, header: LSFHeader) -> Result<
    (Seq<Seq<Seq<char>>>, int),
    Error,
> {
    match spec_section_of(
        file,
        pos,
        header,
        header.metadata.strings_size_on_disk,
        header.metadata.strings_uncompressed_size,
        false,
    ) {
        Err(e) => Err(e),
        Ok((bytes, end)) => match spec_names(bytes, 0) {
            Err(e) => Err(e),
            Ok((names, _)) => Ok((names, end)),
        },
    }
}

/// The nodes of a file whose nodes section starts at `pos`, and where the section ends.
pub open spec fn spec_load_nodes(file: Seq<u8>, pos: int, header: LSFHeader) -> Result<
    (Seq<LSFNodeInfo>, int),
    Error,
> {
    match spec_section_of(
        file,
        pos,
        header,
        header.metadata.nodes_size_on_disk,
        header.metadata.nodes_uncompressed_size,
        true,
    ) {
        Err(e) => Err(e),
        Ok((bytes, end)) => match spec_nodes(
            bytes,
            spec_long_entries(Some(header.version), header.metadata.has_sibling_data),
        ) {
            Err(e) => Err(e),
            Ok(nodes) => Ok((nodes, end)),
        },
    }
}

/// The attributes of a file whose attributes section starts at `pos`, and where the
/// section ends.
pub open spec fn spec_load_attributes(file: Seq<u8>, pos: int, header: LSFHeader) -> Result<
    (Seq<LSFAttributeInfo>, int),
    Error,
> {
    match spec_section_of(
        file,
        pos,
        header,
        header.metadata.attributes_size_on_disk,
        header.metadata.attributes_uncompressed_size,
        true,
    ) {
        Err(e) => Err(e),
        Ok((bytes, end)) => match (if spec_long_entries(
            Some(header.version),
            header.metadata.has_sibling_data,
        ) {
            spec_attributes_v3(bytes)
        } else {
            spec_attributes_v2(bytes)
        }) {
            Err(e) => Err(e),
            Ok(attributes) => Ok((attributes, end)),
        },
    }
}

/// The sections of a file: the header, then strings, nodes, attributes and values in
/// this order.
pub open spec fn spec_sections(file: Seq<u8>) -> Result<Sections, Failure> {
    match spec_header(file, 0) {
        Err(kind) => Err(Failure { kind, section: Section::Header, offset: 0 }),
        Ok((header, strings_at)) => match spec_load_names(file, strings_at, header) {
            Err(kind) => Err(Failure { kind, section: Section::Strings, offset: strings_at as u64 }),
            Ok((names, nodes_at)) => match spec_load_nodes(file, nodes_at, header) {
                Err(kind) => Err(Failure { kind, section: Section::Nodes, offset: nodes_at as u64 }),
                Ok((nodes, attributes_at)) => match spec_load_attributes(file, attributes_at, header) {
                    Err(kind) => Err(
                        Failure { kind, section: Section::Attributes, offset: attributes_at as u64 },
                    ),
                    Ok((attributes, values_at)) => match spec_section_of(
                        file,
                        values_at,
                        header,
                        header.metadata.values_size_on_disk,
                        header.metadata.values_uncompressed_size,
                        true,
                    ) {
                        Err(kind) => Err(
                            Failure { kind, section: Section::Values, offset: values_at as u64 },
                        ),
                        Ok((values, _)) => Ok(
                            Sections { header, names, nodes, attributes, values },
                        ),
                    },
                },
            },
        },
    }
}

/// The resource that a file holds: the tree of its nodes, with the engine version of
/// its header.
pub open spec fn spec_resource(file: Seq<u8>) -> Result<ResourceView, Failure> {
    match spec_sections(file) {
        Err(e) => Err(e),
        Ok(sections) => match spec_tree(sections.tables(), sections.nodes) {
            Err(e) => Err(e),
            Ok(resource) => Ok(
                ResourceView {
                    metadata: resource.metadata.stamped(sections.header.game_version),
                    regions: resource.regions,
                    nodes: resource.nodes,
                },
            ),
        },
    }
}

/// The resource that the entry `pfi` of an archive holds.
pub open spec fn spec_read(archive: Seq<u8>, pfi: PackagedFileInfoView) -> Result<
    ResourceView,
    Failure,
> {
    match spec_entry_located(archive, pfi) {
        Err(e) => Err(e),
        Ok(file) => spec_resource(file),
    }
}

/// The resource `globals.lsf` of an archive with the files `files`.
pub open spec fn spec_load_globals(archive: Seq<u8>, files: Seq<PackagedFileInfoView>) -> Result<
    ResourceView,
    Failure,
> {
    match spec_find(files, "globals.lsf"@, 0) {
        None => Err(Failure { kind: Error::EntryNotFound, section: Section::FileList, offset: 0 }),
        Some(i) => spec_read(archive, files[i]),
    }
}

/// The engine version as a header stores it, before a major number of 0 is replaced.
pub open spec fn spec_stored_engine_version(file: Seq<u8>) -> PackedVersion {
    if le_u32(file, 4) >= 5 {
        PackedVersion::unpack64(le_u64(file, 8))
    } else {
        PackedVersion::unpack32(le_u32(file, 8))
    }
}

/// The engine version of a resource is that of its header, and 4.0.9.0 where the header
/// stores a major number of 0. No resource has a major number of 0.
pub proof fn lemma_engine_version(file: Seq<u8>)
    requires
        spec_resource(file) is Ok,
    ensures
        spec_resource(file)->Ok_0.metadata == LSMetadata::initial().stamped(
            spec_stored_engine_version(file).spec_or_default(),
        ),
        spec_stored_engine_version(file).major == 0 ==> {
            &&& spec_resource(file)->Ok_0.metadata.major_version == 4
            &&& spec_resource(file)->Ok_0.metadata.minor_version == 0
            &&& spec_resource(file)->Ok_0.metadata.revision == 9
            &&& spec_resource(file)->Ok_0.metadata.build_number == 0
        },
        spec_resource(file)->Ok_0.metadata.major_version != 0,
{
    let sections = spec_sections(file)->Ok_0;
    lemma_regions_metadata(sections.tables(), sections.nodes, sections.nodes.len());
}

/// The nodes of a tree leave its metadata as it was at first.
pub proof fn lemma_regions_metadata(tables: Tables, infos: Seq<LSFNodeInfo>, n: nat)
    requires
        spec_regions(tables, infos, n) is Ok,
    ensures
        spec_regions(tables, infos, n)->Ok_0.metadata == LSMetadata::initial(),
    decreases n,
{
    if n > 0 {
        lemma_regions_metadata(tables, infos, (n - 1) as nat);
    }
}

/// A file that is found lies in the list, at or after the place where the search began.
pub proof fn lemma_find_in_range(files: Seq<PackagedFileInfoView>, path: Seq<char>, from: int)
    requires
        0 <= from,
    ensures
        spec_find(files, path, from) matches Some(i) ==> from <= i < files.len(),
    decreases files.len() - from,
{
    if from < files.len() {
        lemma_find_in_range(files, path, from + 1);
    }
}

impl LSFReader {
    /// Whether the decoder holds the sections `sections`.
    pub open spec fn holds(&self, sections: Sections) -> bool {
        &&& self.version == Some(sections.header.version)
        &&& self.game_version == sections.header.game_version
        &&& self.metadata == sections.header.metadata
        &&& self.names.deep_view() == sections.names
        &&& self.node_infos@ == sections.nodes
        &&& self.attributes@ == sections.attributes
        &&& self.values@ == sections.values
    }

    /// Whether the decoder has read the header `header`.
    pub open spec fn has_header(&self, header: LSFHeader) -> bool {
        &&& self.version == Some(header.version)
        &&& self.game_version == header.game_version
        &&& self.metadata == header.metadata
    }

    /// Reads the strings section at the cursor and keeps its names.
    fn load_names(&mut self, stream: &mut ByteReader, Ghost(header): Ghost<LSFHeader>) -> (r:
        Result<(), Error>)
        requires
            old(self).has_header(header),
        ensures
            final(stream).data@ == old(stream).data@,
            final(self).has_header(header),
            final(self).node_infos == old(self).node_infos,
            final(self).attributes == old(self).attributes,
            final(self).values == old(self).values,
            match spec_load_names(old(stream).data@, old(stream).pos as int, header) {
                Ok((names, end)) => r is Ok && final(self).names.deep_view() == names
                    && final(stream).pos == end,
                Err(e) => r == Err::<(), Error>(e),
            },
    {
        let names_bytes = self.decompress(
            stream,
            self.metadata.strings_size_on_disk as usize,
            self.metadata.strings_uncompressed_size as usize,
            false,
        )?;
        let mut names_stream = ByteReader::new(names_bytes.as_slice());
        self.names = self.read_names(&mut names_stream)?;
        Ok(())
    }

    /// Reads the nodes section at the cursor and keeps its nodes.
    fn load_nodes(&mut self, stream: &mut ByteReader, Ghost(header): Ghost<LSFHeader>) -> (r:
        Result<(), Error>)
        requires
            old(self).has_header(header),
        ensures
            final(stream).data@ == old(stream).data@,
            final(self).has_header(header),
            final(self).names == old(self).names,
            final(self).attributes == old(self).attributes,
            final(self).values == old(self).values,
            match spec_load_nodes(old(stream).data@, old(stream).pos as int, header) {
                Ok((nodes, end)) => r is Ok && final(self).node_infos@ == nodes && final(stream).pos == end,
                Err(e) => r == Err::<(), Error>(e),
            },
    {
        let nodes_bytes = self.decompress(
            stream,
            self.metadata.nodes_size_on_disk as usize,
            self.metadata.nodes_uncompressed_size as usize,
            true,
        )?;
        let mut nodes_stream = ByteReader::new(nodes_bytes.as_slice());
        let long_nodes = version_at_least(self.version, LSFVersion::VerExtendedNodes)
            && self.metadata.has_sibling_data == 1;
        self.node_infos = self.read_nodes(&mut nodes_stream, long_nodes)?;
        Ok(())
    }

    /// Reads the attributes section at the cursor and keeps its attributes.
    fn load_attributes(&mut self, stream: &mut ByteReader, Ghost(header): Ghost<LSFHeader>) -> (r:
        Result<(), Error>)
        requires
            old(self).has_header(header),
        ensures
            final(stream).data@ == old(stream).data@,
            final(self).has_header(header),
            final(self).names == old(self).names,
            final(self).node_infos == old(self).node_infos,
            final(self).values == old(self).values,
            match spec_load_attributes(old(stream).data@, old(stream).pos as int, header) {
                Ok((attributes, end)) => r is Ok && final(self).attributes@ == attributes
                    && final(stream).pos == end,
                Err(e) => r == Err::<(), Error>(e),
            },
    {
        let attributes_bytes = self.decompress(
            stream,
            self.metadata.attributes_size_on_disk as usize,
            self.metadata.attributes_uncompressed_size as usize,
            true,
        )?;
        let mut attributes_stream = ByteReader::new(attributes_bytes.as_slice());
        let has_sibling_data = version_at_least(self.version, LSFVersion::VerExtendedNodes)
            && self.metadata.has_sibling_data == 1;
        self.attributes = if has_sibling_data {
            self.read_attributes_v3(&mut attributes_stream)?
        } else {
            self.read_attributes_v2(&mut attributes_stream)?
        };
        Ok(())
    }

    /// Reads the four sections of the resource `file_bytes` and keeps them.
    pub fn read_sections(&mut self, file_bytes: &[u8]) -> (r: Result<(), Failure>)
        ensures
            match spec_sections(file_bytes@) {
                Ok(sections) => r is Ok && final(self).holds(sections),
                Err(e) => r == Err::<(), Failure>(e),
            },
    {
        let mut lsf_reader = ByteReader::new(file_bytes);
        locate(self.read_headers(&mut lsf_reader), Section::Header, 0)?;
        let ghost header = spec_header(file_bytes@, 0)->Ok_0.0;
        let at = lsf_reader.pos as u64;
        locate(self.load_names(&mut lsf_reader, Ghost(header)), Section::Strings, at)?;
        let at = lsf_reader.pos as u64;
        locate(self.load_nodes(&mut lsf_reader, Ghost(header)), Section::Nodes, at)?;
        let at = lsf_reader.pos as u64;
        locate(self.load_attributes(&mut lsf_reader, Ghost(header)), Section::Attributes, at)?;
        let at = lsf_reader.pos as u64;
        self.values = locate(
            self.decompress(
                &mut lsf_reader,
                self.metadata.values_size_on_disk as usize,
                self.metadata.values_uncompressed_size as usize,
                true,
            ),
            Section::Values,
            at,
        )?;
        Ok(())
    }

    /// Decodes the resource `file_bytes`.
    pub fn read_resource(&mut self, file_bytes: &[u8]) -> (r: Result<Resource, Failure>)
        ensures
            match spec_resource(file_bytes@) {
                Ok(resource) => r is Ok && r->Ok_0.wf() && r->Ok_0@ == resource
                    && final(self).holds(spec_sections(file_bytes@)->Ok_0),
                Err(e) => r == Err::<Resource, Failure>(e),
            },
            r matches Ok(resource) ==> tree_invariants(resource@),
    {
        self.read_sections(file_bytes)?;
        let mut values_stream = ByteReader::new(self.values.as_slice());
        let mut resource = self.read_regions(&mut values_stream)?;
        resource.metadata.major_version = self.game_version.major;
        resource.metadata.minor_version = self.game_version.minor;
        resource.metadata.revision = self.game_version.revision;
        resource.metadata.build_number = self.game_version.build;
        Ok(resource)
    }

    /// Decodes the resource that the entry `pfi` of an archive holds.
    pub fn read(&mut self, package_reader: &mut PackageReader, pfi: &PackagedFileInfo) -> (r: Result<
        Resource,
        Failure,
    >)
        ensures
            final(package_reader).buffer == old(package_reader).buffer,
            final(package_reader).file_name == old(package_reader).file_name,
            match spec_read(old(package_reader).buffer@, pfi@) {
                Ok(resource) => r is Ok && r->Ok_0.wf() && r->Ok_0@ == resource,
                Err(e) => r == Err::<Resource, Failure>(e),
            },
            r matches Ok(resource) ==> tree_invariants(resource@) && final(self).holds(
                spec_sections(spec_entry(old(package_reader).buffer@, pfi@)->Ok_0)->Ok_0,
            ),
    {
        let file_bytes = package_reader.decompress_file(pfi)?;
        self.read_resource(file_bytes.as_slice())
    }
}

impl Default for LSFReader {
    fn default() -> (reader: LSFReader)
        ensures
            reader.version is None,
            reader.game_version == (PackedVersion { major: 0, minor: 0, revision: 0, build: 0 }),
            reader.names@.len() == 0,
            reader.node_infos@.len() == 0,
            reader.attributes@.len() == 0,
            reader.values@.len() == 0,
    {
        LSFReader::new()
    }
}

impl PackageReader {
    /// Decodes the resource `globals.lsf` of the archive, whose package is `package`.
    pub fn load_globals(&mut self, package: &Package) -> (r: Result<Resource, Failure>)
        ensures
            final(self).buffer == old(self).buffer,
            final(self).file_name == old(self).file_name,
            match spec_load_globals(old(self).buffer@, package@.files) {
                Ok(resource) => r is Ok && r->Ok_0.wf() && r->Ok_0@ == resource,
                Err(e) => r == Err::<Resource, Failure>(e),
            },
            r matches Ok(resource) ==> tree_invariants(resource@),
    {
        let ghost found = spec_find(package@.files, "globals.lsf"@, 0);
        let globals_info = match package.find_entry("globals.lsf") {
            Some(info) => info,
            None => {
                return Err(
                    Failure { kind: Error::EntryNotFound, section: Section::FileList, offset: 0 },
                );
            },
        };
        assert(globals_info@ == package@.files[found->Some_0]) by {
            lemma_find_in_range(package@.files, "globals.lsf"@, 0);
        }
        let mut reader = LSFReader::new();
        reader.read(self, globals_info)
    }
}

} // verus!
