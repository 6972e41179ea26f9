use vstd::prelude::*;
use crate::error::in_section;
use crate::error::Error;
use crate::error::Failure;
use crate::error::Section;
use crate::lsf_reader::attributes::chain_ends;
use crate::lsf_reader::attributes::LSFAttributeInfo;
use crate::lsf_reader::data_type::DataType;
use crate::lsf_reader::entries::LSFNodeInfo;
use crate::lsf_reader::value::spec_read_attribute;
use crate::lsf_reader::value::NodeAttribute;
use crate::lsf_reader::value::NodeAttributeView;
use crate::lsf_reader::version::LSFVersion;
use crate::lsf_reader::version::PackedVersion;
use crate::name_map::spec_append;
use crate::name_map::NameMap;

verus! {

/// What a node is: a root of the tree, which is a region, or a node below another.
#[derive(Debug, PartialEq)]
pub enum NodeKind {
    Node,
    Region { name: String },
}

/// A `NodeKind` with the name as a sequence of characters.
pub enum NodeKindView {
    Node,
    Region { name: Seq<char> },
}

impl View for NodeKind {
    type V = NodeKindView;

    open spec fn view(&self) -> NodeKindView {
        match self {
            NodeKind::Node => NodeKindView::Node,
            NodeKind::Region { name } => NodeKindView::Region { name: name@ },
        }
    }
}

impl Default for NodeKind {
    fn default() -> (kind: NodeKind)
        ensures
            kind@ == NodeKindView::Node,
    {
        NodeKind::Node
    }
}

/// A node of the tree. The nodes above and below it are named by their places in the
/// resource's list of nodes.
#[derive(Debug, PartialEq)]
pub struct Node {
    pub kind: NodeKind,
    pub name: String,
    pub parent: Option<usize>,
    /// The attributes by name.
    pub attributes: NameMap<NodeAttribute>,
    /// The nodes below this one by name, each list in the order in which they came.
    pub children: NameMap<Vec<usize>>,
}

/// What a `Node` holds: its texts as sequences of characters, its attributes and its
/// children as maps.
pub struct NodeView {
    pub kind: NodeKindView,
    pub name: Seq<char>,
    pub parent: Option<usize>,
    pub attributes: Map<Seq<char>, NodeAttributeView>,
    pub children: Map<Seq<char>, Seq<usize>>,
}

impl View for Node {
    type V = NodeView;

    open spec fn view(&self) -> NodeView {
        NodeView {
            kind: self.kind@,
            name: self.name@,
            parent: self.parent,
            attributes: self.attributes@,
            children: self.children@,
        }
    }
}

impl Node {
    /// Whether the node is well formed: its two maps are.
    pub open spec fn wf(&self) -> bool {
        self.attributes.wf() && self.children.wf()
    }

    /// Adds node `child_idx`, named `child_name`, below this one.
    pub fn append_child(&mut self, child_name: &String, child_idx: usize)
        requires
            old(self).wf(),
        ensures
            final(self).wf(),
            final(self)@ == spec_append_child(old(self)@, child_name@, child_idx),
    {
        self.children.append(child_name, child_idx);
    }
}

/// The node with `index` added to its children named `name`.
pub open spec fn spec_append_child(node: NodeView, name: Seq<char>, index: usize) -> NodeView {
    NodeView { children: spec_append(node.children, name, index), ..node }
}

/// The version of the engine that wrote a resource.
#[derive(Debug, Clone, Copy, PartialEq, Eq, Structural)]
pub struct LSMetadata {
    pub timestamp: u64,
    pub major_version: u32,
    pub minor_version: u32,
    pub revision: u32,
    pub build_number: u32,
}

impl LSMetadata {
    /// The major version of the engine that this library knows.
    pub const CURRENT_MAJOR_VERSION: u32 = 33;

    /// The metadata of a resource that names no engine: major version 3.
    pub open spec fn initial() -> LSMetadata {
        LSMetadata { timestamp: 0, major_version: 3, minor_version: 0, revision: 0, build_number: 0 }
    }

    /// The metadata with the four numbers of `engine` in it.
    pub open spec fn stamped(self, engine: PackedVersion) -> LSMetadata {
        LSMetadata {
            timestamp: self.timestamp,
            major_version: engine.major,
            minor_version: engine.minor,
            revision: engine.revision,
            build_number: engine.build,
        }
    }
}

impl Default for LSMetadata {
    fn default() -> (m: LSMetadata)
        ensures
            m == (LSMetadata {
                timestamp: 0,
                major_version: 0,
                minor_version: 0,
                revision: 0,
                build_number: 0,
            }),
    {
        LSMetadata { timestamp: 0, major_version: 0, minor_version: 0, revision: 0, build_number: 0 }
    }
}

/// A decoded resource: its nodes in the order of the file, and its regions by name.
#[derive(Debug, PartialEq)]
pub struct Resource {
    pub metadata: LSMetadata,
    /// The place of each region in `node_instances`, by the region's name.
    pub regions: NameMap<usize>,
    pub node_instances: Vec<Node>,
}

/// What a `Resource` holds: its regions as a map, its nodes by their views.
pub struct ResourceView {
    pub metadata: LSMetadata,
    pub regions: Map<Seq<char>, usize>,
    pub nodes: Seq<NodeView>,
}

/// The nodes of a list, each by its view.
pub open spec fn nodes_view(nodes: Seq<Node>) -> Seq<NodeView> {
    Seq::new(nodes.len(), |i: int| nodes[i]@)
}

impl View for Resource {
    type V = ResourceView;

    open spec fn view(&self) -> ResourceView {
        ResourceView {
            metadata: self.metadata,
            regions: self.regions@,
            nodes: nodes_view(self.node_instances@),
        }
    }
}

impl ResourceView {
    /// The resource without nodes.
    pub open spec fn empty() -> ResourceView {
        ResourceView { metadata: LSMetadata::initial(), regions: Map::empty(), nodes: Seq::empty() }
    }
}

impl Resource {
    /// Whether the resource is well formed: the maps of the resource and of its nodes are.
    pub open spec fn wf(&self) -> bool {
        &&& self.regions.wf()
        &&& forall|i: int|
            0 <= i < self.node_instances@.len() ==> (#[trigger] self.node_instances@[i]).wf()
    }

    /// The resource without nodes.
    pub fn new() -> (r: Resource)
        ensures
            r.wf(),
            r@ == ResourceView::empty(),
            r.node_instances@.len() == 0,
    {
        let r = Resource {
            metadata: LSMetadata {
                timestamp: 0,
                major_version: 3,
                minor_version: 0,
                revision: 0,
                build_number: 0,
            },
            regions: NameMap::new(),
            node_instances: Vec::new(),
        };
        assert(r@.nodes =~= Seq::<NodeView>::empty());
        r
    }
}

impl Default for Resource {
    fn default() -> (r: Resource)
        ensures
            r.wf(),
            r@ == ResourceView::empty(),
    {
        Resource::new()
    }
}

/// The name and the attributes of a node.
#[derive(Debug)]
pub struct NodeData {
    pub name: String,
    /// Nothing where the node has no first attribute.
    pub attributes: Option<NameMap<NodeAttribute>>,
}

impl NodeData {
    /// Whether the attributes, if there are any, are well formed.
    pub open spec fn wf(&self) -> bool {
        self.attributes matches Some(map) ==> map.wf()
    }

    /// The attributes as a map, empty where there are none.
    pub open spec fn attribute_map(&self) -> Map<Seq<char>, NodeAttributeView> {
        match self.attributes {
            Some(map) => map@,
            None => Map::empty(),
        }
    }
}

/// What the sections of a resource hold, as the tree assembler takes it.
pub struct Tables {
    /// The name pool: `names[bucket][slot]`.
    pub names: Seq<Seq<Seq<char>>>,
    pub attributes: Seq<LSFAttributeInfo>,
    /// The values section.
    pub values: Seq<u8>,
    pub version: Option<LSFVersion>,
    pub engine: PackedVersion,
}

/// The name in bucket `bucket` and slot `slot` of the name pool, if there is one.
pub open spec fn spec_lookup_name(names: Seq<Seq<Seq<char>>>, bucket: i32, slot: i32) -> Option<
    Seq<char>,
> {
    if 0 <= bucket < names.len() && 0 <= slot < names[bucket as int].len() {
        Some(names[bucket as int][slot as int])
    } else {
        None
    }
}

/// The attributes of the chain that starts at attribute `index`, added to `found`. Each
/// attribute's value is read from the values section at its offset; an attribute
/// overwrites an earlier one of the same name. A chain ends where an attribute names no
/// next one. It may visit `fuel` attributes: one that goes on after that has come back
/// to an attribute it has visited, and never ends.
pub open spec fn spec_chain(
    tables: Tables,
    index: usize,
    fuel: nat,
    found: Map<Seq<char>, NodeAttributeView>,
) -> Result<Map<Seq<char>, NodeAttributeView>, Error>
    decreases fuel,
{
    if index >= tables.attributes.len() || fuel == 0 {
        Err(Error::BadAttributeRef)
    } else {
        let attribute = tables.attributes[index as int];
        match spec_read_attribute(
            tables.values,
            attribute.data_offset as int,
            DataType::spec_from_tag(attribute.type_id),
            attribute.length,
            tables.version,
            tables.engine,
        ) {
            Err(e) => Err(e),
            Ok((value, _)) => match spec_lookup_name(
                tables.names,
                attribute.name_index,
                attribute.name_offset,
            ) {
                None => Err(Error::BadNameRef),
                Some(name) => match attribute.next_attribute_index {
                    None => Ok(found.insert(name, value)),
                    Some(next) => spec_chain(
                        tables,
                        next,
                        (fuel - 1) as nat,
                        found.insert(name, value),
                    ),
                },
            },
        }
    }
}

/// The name and the attributes of the node that `info` describes.
pub open spec fn spec_node_data(tables: Tables, info: LSFNodeInfo) -> Result<
    (Seq<char>, Map<Seq<char>, NodeAttributeView>),
    Error,
> {
    match spec_lookup_name(tables.names, info.name_index, info.name_offset) {
        None => Err(Error::BadNameRef),
        Some(name) => match info.first_attribute_index {
            None => Ok((name, Map::empty())),
            Some(first) => match spec_chain(tables, first, tables.attributes.len(), Map::empty()) {
                Err(e) => Err(e),
                Ok(attributes) => Ok((name, attributes)),
            },
        },
    }
}

/// The resource with one more node. A node without parent is a region and is entered in
/// the regions under its name; any other is entered in the children of its parent, which
/// must be a node that is already there.
pub open spec fn spec_add_node(
    resource: ResourceView,
    name: Seq<char>,
    attributes: Map<Seq<char>, NodeAttributeView>,
    parent: Option<usize>,
) -> Result<ResourceView, Error> {
    let index = resource.nodes.len() as usize;
    match parent {
        None => Ok(
            ResourceView {
                metadata: resource.metadata,
                regions: resource.regions.insert(name, index),
                nodes: resource.nodes.push(
                    NodeView {
                        kind: NodeKindView::Region { name },
                        name,
                        parent: None,
                        attributes,
                        children: Map::empty(),
                    },
                ),
            },
        ),
        Some(p) => if p >= resource.nodes.len() {
            Err(Error::BadParentRef)
        } else {
            Ok(
                ResourceView {
                    metadata: resource.metadata,
                    regions: resource.regions,
                    nodes: resource.nodes.update(
                        p as int,
                        spec_append_child(resource.nodes[p as int], name, index),
                    ).push(
                        NodeView {
                            kind: NodeKindView::Node,
                            name,
                            parent: Some(p),
                            attributes,
                            children: Map::empty(),
                        },
                    ),
                },
            )
        },
    }
}

/// The resource made of the first `n` of `infos`, taken in order.
pub open spec fn spec_regions(tables: Tables, infos: Seq<LSFNodeInfo>, n: nat) -> Result<
    ResourceView,
    Error,
>
    decreases n,
{
    if n == 0 {
        Ok(ResourceView::empty())
    } else {
        match spec_regions(tables, infos, (n - 1) as nat) {
            Err(e) => Err(e),
            Ok(resource) => match spec_node_data(tables, infos[n - 1]) {
                Err(e) => Err(e),
                Ok((name, attributes)) => spec_add_node(
                    resource,
                    name,
                    attributes,
                    infos[n - 1].parent_index,
                ),
            },
        }
    }
}

/// An error at one node is the result, whatever nodes follow.
pub proof fn lemma_regions_error(tables: Tables, infos: Seq<LSFNodeInfo>, failed: nat, n: nat)
    requires
        spec_regions(tables, infos, failed) is Err,
        failed <= n,
    ensures
        spec_regions(tables, infos, n) == spec_regions(tables, infos, failed),
    decreases n,
{
    if failed < n {
        lemma_regions_error(tables, infos, failed, (n - 1) as nat);
    }
}

/// Whether each node that has a parent comes after it.
pub open spec fn parents_precede(resource: ResourceView) -> bool {
    forall|i: int|
        0 <= i < resource.nodes.len() ==> ((#[trigger] resource.nodes[i]).parent matches Some(p)
            ==> p < i)
}

/// Whether each name among the regions names a node that is a region of that name.
pub open spec fn regions_consistent(resource: ResourceView) -> bool {
    forall|name: Seq<char>| #[trigger]
        resource.regions.contains_key(name) ==> {
            &&& resource.regions[name] < resource.nodes.len()
            &&& resource.nodes[resource.regions[name] as int].kind == (NodeKindView::Region {
                name,
            })
            &&& resource.nodes[resource.regions[name] as int].name == name
        }
}

/// Whether a node is a region exactly if it has no parent.
pub open spec fn roots_are_regions(resource: ResourceView) -> bool {
    forall|i: int|
        0 <= i < resource.nodes.len() ==> ((#[trigger] resource.nodes[i]).parent is None
            <==> resource.nodes[i].kind is Region)
}

/// What holds of every tree: parents come first, regions are consistent, the nodes
/// without parent are the regions, and the lists of children agree with the parents.
pub open spec fn tree_invariants(resource: ResourceView) -> bool {
    &&& parents_precede(resource)
    &&& regions_consistent(resource)
    &&& roots_are_regions(resource)
    &&& children_are_below(resource)
    &&& children_are_listed(resource)
}

/// Topological order: in the tree made of any nodes, each node that has a parent comes
/// after it. Regions are consistent: each name among the regions names a region of that
/// name. The tree has one node for each of the nodes it was made of, and the nodes
/// without parent are its regions.
pub proof fn lemma_tree_invariants(tables: Tables, infos: Seq<LSFNodeInfo>, n: nat)
    requires
        n <= infos.len() <= usize::MAX,
        spec_regions(tables, infos, n) is Ok,
    ensures
        spec_regions(tables, infos, n)->Ok_0.nodes.len() == n,
        parents_precede(spec_regions(tables, infos, n)->Ok_0),
        regions_consistent(spec_regions(tables, infos, n)->Ok_0),
        roots_are_regions(spec_regions(tables, infos, n)->Ok_0),
    decreases n,
{
    if n > 0 {
        lemma_tree_invariants(tables, infos, (n - 1) as nat);
        let before = spec_regions(tables, infos, (n - 1) as nat)->Ok_0;
        let after = spec_regions(tables, infos, n)->Ok_0;
        let (name, attributes) = spec_node_data(tables, infos[n - 1])->Ok_0;
        assert(after == spec_add_node(before, name, attributes, infos[n - 1].parent_index)->Ok_0);
        assert forall|i: int| 0 <= i < after.nodes.len() implies ((
        #[trigger] after.nodes[i]).parent matches Some(p) ==> p < i) by {
            if i < n - 1 {
                assert(after.nodes[i].parent == before.nodes[i].parent);
            }
        }
        assert forall|i: int| 0 <= i < after.nodes.len() implies ((
        #[trigger] after.nodes[i]).parent is None <==> after.nodes[i].kind is Region) by {
            if i < n - 1 {
                assert(after.nodes[i].parent == before.nodes[i].parent);
                assert(after.nodes[i].kind == before.nodes[i].kind);
            }
        }
        assert forall|key: Seq<char>| #[trigger] after.regions.contains_key(key) implies {
            &&& after.regions[key] < after.nodes.len()
            &&& after.nodes[after.regions[key] as int].kind == (NodeKindView::Region { name: key })
            &&& after.nodes[after.regions[key] as int].name == key
        } by {
            if infos[n - 1].parent_index is None && key == name {
            } else {
                assert(before.regions.contains_key(key));
                let at = before.regions[key] as int;
                assert(after.nodes[at].kind == before.nodes[at].kind);
                assert(after.nodes[at].name == before.nodes[at].name);
            }
        }
    }
}

/// Attribute chains end: a chain whose attributes were decoded names only attributes
/// that exist, and ends after it has visited `fuel` attributes or fewer.
pub proof fn lemma_chain_ends(
    tables: Tables,
    index: usize,
    fuel: nat,
    found: Map<Seq<char>, NodeAttributeView>,
)
    requires
        spec_chain(tables, index, fuel, found) is Ok,
    ensures
        chain_ends(tables.attributes, index, fuel),
    decreases fuel,
{
    let attribute = tables.attributes[index as int];
    let value = spec_read_attribute(
        tables.values,
        attribute.data_offset as int,
        DataType::spec_from_tag(attribute.type_id),
        attribute.length,
        tables.version,
        tables.engine,
    )->Ok_0.0;
    let name = spec_lookup_name(tables.names, attribute.name_index, attribute.name_offset)->Some_0;
    match attribute.next_attribute_index {
        None => {},
        Some(next) => {
            lemma_chain_ends(tables, next, (fuel - 1) as nat, found.insert(name, value));
        },
    }
}

/// Attribute chains end: the chain of a node that was decoded ends after it has visited
/// as many attributes as there are, or fewer.
pub proof fn lemma_node_chain_ends(tables: Tables, info: LSFNodeInfo)
    requires
        spec_node_data(tables, info) is Ok,
    ensures
        info.first_attribute_index matches Some(first) ==> chain_ends(
            tables.attributes,
            first,
            tables.attributes.len(),
        ),
{
    match info.first_attribute_index {
        None => {},
        Some(first) => {
            lemma_chain_ends(tables, first, tables.attributes.len(), Map::empty());
        },
    }
}

/// The place of the first node at which the tree of the first `n` nodes fails, where it
/// does.
pub open spec fn spec_failing_node(tables: Tables, infos: Seq<LSFNodeInfo>, n: nat) -> nat
    decreases n,
{
    if n == 0 {
        0
    } else if spec_regions(tables, infos, (n - 1) as nat) is Err {
        spec_failing_node(tables, infos, (n - 1) as nat)
    } else {
        (n - 1) as nat
    }
}

/// The first node at which a tree fails is the same, whatever nodes follow.
pub proof fn lemma_failing_node(tables: Tables, infos: Seq<LSFNodeInfo>, failed: nat, n: nat)
    requires
        spec_regions(tables, infos, failed) is Ok,
        spec_regions(tables, infos, failed + 1) is Err,
        failed < n,
    ensures
        spec_failing_node(tables, infos, n) == failed,
    decreases n,
{
    if failed + 1 < n {
        lemma_regions_error(tables, infos, failed + 1, (n - 1) as nat);
        lemma_failing_node(tables, infos, failed, (n - 1) as nat);
    }
}

/// The tree made of the nodes `infos`, or the error and the place of the node at which
/// it came up.
pub open spec fn spec_tree(tables: Tables, infos: Seq<LSFNodeInfo>) -> Result<
    ResourceView,
    Failure,
> {
    in_section(
        spec_regions(tables, infos, infos.len()),
        Section::Tree,
        spec_failing_node(tables, infos, infos.len()) as u64,
    )
}

/// Whether each node that is listed among the children of a node comes after that node,
/// has it as parent, and bears the name under which it is listed.
pub open spec fn children_are_below(resource: ResourceView) -> bool {
    forall|p: int, name: Seq<char>, k: int|
        0 <= p < resource.nodes.len() && resource.nodes[p].children.contains_key(name) && 0 <= k
            < resource.nodes[p].children[name].len() ==> {
            let c = #[trigger] resource.nodes[p].children[name][k];
            &&& p < c < resource.nodes.len()
            &&& resource.nodes[c as int].parent == Some(p as usize)
            &&& resource.nodes[c as int].name == name
        }
}

/// Whether each node that has a parent is listed among the children of the parent, under
/// its own name.
pub open spec fn children_are_listed(resource: ResourceView) -> bool {
    forall|c: int|
        0 <= c < resource.nodes.len() ==> ((#[trigger] resource.nodes[c]).parent matches Some(p)
            ==> {
            &&& resource.nodes[p as int].children.contains_key(resource.nodes[c].name)
            &&& resource.nodes[p as int].children[resource.nodes[c].name].contains(c as usize)
        })
}

/// The lists of children are the tree: a node is listed among the children of its
/// parent under its own name, and nowhere else.
pub proof fn lemma_children(tables: Tables, infos: Seq<LSFNodeInfo>, n: nat)
    requires
        n <= infos.len() <= usize::MAX,
        spec_regions(tables, infos, n) is Ok,
    ensures
        children_are_below(spec_regions(tables, infos, n)->Ok_0),
        children_are_listed(spec_regions(tables, infos, n)->Ok_0),
    decreases n,
{
    if n > 0 {
        lemma_children(tables, infos, (n - 1) as nat);
        lemma_tree_invariants(tables, infos, (n - 1) as nat);
        lemma_tree_invariants(tables, infos, n);
        let before = spec_regions(tables, infos, (n - 1) as nat)->Ok_0;
        let after = spec_regions(tables, infos, n)->Ok_0;
        let (name0, attributes) = spec_node_data(tables, infos[n - 1])->Ok_0;
        let parent = infos[n - 1].parent_index;
        assert(after == spec_add_node(before, name0, attributes, parent)->Ok_0);
        let last = (n - 1) as usize;
        assert forall|p: int, name: Seq<char>, k: int|
            0 <= p < after.nodes.len() && after.nodes[p].children.contains_key(name) && 0 <= k
                < after.nodes[p].children[name].len() implies {
            let c = #[trigger] after.nodes[p].children[name][k];
            &&& p < c < after.nodes.len()
            &&& after.nodes[c as int].parent == Some(p as usize)
            &&& after.nodes[c as int].name == name
        } by {
            let c = after.nodes[p].children[name][k];
            if p == n - 1 {
                assert(after.nodes[p].children =~= Map::<Seq<char>, Seq<usize>>::empty());
            } else if parent == Some(p as usize) && name == name0 {
                if before.nodes[p].children.contains_key(name) && k
                    < before.nodes[p].children[name].len() {
                    assert(c == before.nodes[p].children[name][k]);
                    assert(after.nodes[c as int].parent == before.nodes[c as int].parent);
                    assert(after.nodes[c as int].name == before.nodes[c as int].name);
                } else {
                    assert(c == last);
                }
            } else {
                assert(before.nodes[p].children.contains_key(name));
                assert(c == before.nodes[p].children[name][k]);
                assert(after.nodes[c as int].parent == before.nodes[c as int].parent);
                assert(after.nodes[c as int].name == before.nodes[c as int].name);
            }
        }
        assert forall|c: int| 0 <= c < after.nodes.len() implies ((
        #[trigger] after.nodes[c]).parent matches Some(p) ==> {
            &&& after.nodes[p as int].children.contains_key(after.nodes[c].name)
            &&& after.nodes[p as int].children[after.nodes[c].name].contains(c as usize)
        }) by {
            if after.nodes[c].parent is Some {
                let p = after.nodes[c].parent->Some_0;
                let name = after.nodes[c].name;
                if c == n - 1 {
                    let list = after.nodes[p as int].children[name];
                    assert(list[list.len() - 1] == last);
                } else {
                    assert(before.nodes[c].parent == Some(p));
                    assert(before.nodes[c].name == name);
                    let old_list = before.nodes[p as int].children[name];
                    let i = choose|i: int| 0 <= i < old_list.len() && old_list[i] == c as usize;
                    let list = after.nodes[p as int].children[name];
                    assert(list[i] == c as usize);
                }
            }
        }
    }
}

} // verus!
