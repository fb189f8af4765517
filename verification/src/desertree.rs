use vstd::prelude::*;
use crate::errors::{SadTreeError, SadTreeErrorModel};
use crate::sadtypes::{is_sadvalue_type, spec_is_sadvalue_type};
use crate::schema::{lemma_first_decreases, lemma_get_decreases, str_eq, Yaml};
use vstd::string::StringExecFns;

verus! {

// ----------------------------------------------------------------------------
// The compiled schema tree: a closed sum over the seven node kinds.
// ----------------------------------------------------------------------------

/// A leaf: decodes exactly one scalar of the declared kind.
#[derive(Debug)]
pub struct SadLeaf {
    pub sad_value_type: String,
}

/// A named field: one child, whose output values are labelled with the
/// declared field name.
#[derive(Debug)]
pub struct SadNamedField {
    pub sad_field_name: String,
    pub sad_value_type: String,
    pub children: Vec<Node>,
}

/// A length-prefixed group: an integer count of the declared size type is
/// read first, then the single child is decoded that many times.
#[derive(Debug)]
pub struct SadLengthPrefix {
    pub sad_value_type: String,
    pub sad_length_type: String,
    pub children: Vec<Node>,
}

/// A keyed collection: each child contributes one named entry, in declared
/// order.
#[derive(Debug)]
pub struct SadHashMap {
    pub sad_value_type: String,
    pub children: Vec<Node>,
}

/// A fixed-layout aggregate: each child decoded once, in declared order.
#[derive(Debug)]
pub struct SadStructure {
    pub sad_value_type: String,
    pub children: Vec<Node>,
}

/// A vector: its declared element descriptors under `contains`. Decoding
/// decodes each declared descriptor exactly once, in order; a repeat count
/// must come from an enclosing `length_prefix` node.
#[derive(Debug)]
pub struct SadVector {
    pub sad_value_type: String,
    pub children: Vec<Node>,
}

/// A tuple: an ordered, fixed-arity list of heterogeneous children, each
/// decoded exactly once.
#[derive(Debug)]
pub struct SadTuple {
    pub sad_value_type: String,
    pub children: Vec<Node>,
}

/// One compiled unit of the schema tree.
#[derive(Debug)]
pub enum Node {
    Leaf(SadLeaf),
    NamedField(SadNamedField),
    LengthPrefix(SadLengthPrefix),
    KeyedCollection(SadHashMap),
    FixedStruct(SadStructure),
    Vector(SadVector),
    Tuple(SadTuple),
}

// ----------------------------------------------------------------------------
// The mathematical model of a compiled tree.
// ----------------------------------------------------------------------------

/// Model of one schema node: tags and names as character sequences,
/// children as a sequence of models.
#[verifier::ext_equal]
pub enum NodeModel {
    Leaf { tag: Seq<char> },
    NamedField { name: Seq<char>, children: Seq<NodeModel> },
    LengthPrefix { tag: Seq<char>, size_tag: Seq<char>, children: Seq<NodeModel> },
    KeyedCollection { tag: Seq<char>, children: Seq<NodeModel> },
    FixedStruct { tag: Seq<char>, children: Seq<NodeModel> },
    Vector { tag: Seq<char>, children: Seq<NodeModel> },
    Tuple { tag: Seq<char>, children: Seq<NodeModel> },
}

/// Model of a whole compiled tree: the declared document name and the
/// top-level fields in declaration order.
#[verifier::ext_equal]
pub struct TreeModel {
    pub name: Seq<char>,
    pub children: Seq<NodeModel>,
}

/// Views of the children of `cs` from index `i` on.
pub open spec fn nodes_view_from(cs: Seq<Node>, i: int) -> Seq<NodeModel>
    decreases cs, cs.len() - i, 0int,
{
    if 0 <= i < cs.len() {
        seq![node_view(cs[i])] + nodes_view_from(cs, i + 1)
    } else {
        Seq::empty()
    }
}

/// The model of one compiled node.
pub open spec fn node_view(n: Node) -> NodeModel
    decreases n, 0int, 0int,
{
    match n {
        Node::Leaf(x) => NodeModel::Leaf { tag: x.sad_value_type@ },
        Node::NamedField(x) => NodeModel::NamedField {
            name: x.sad_field_name@,
            children: nodes_view_from(x.children@, 0),
        },
        Node::LengthPrefix(x) => NodeModel::LengthPrefix {
            tag: x.sad_value_type@,
            size_tag: x.sad_length_type@,
            children: nodes_view_from(x.children@, 0),
        },
        Node::KeyedCollection(x) => NodeModel::KeyedCollection {
            tag: x.sad_value_type@,
            children: nodes_view_from(x.children@, 0),
        },
        Node::FixedStruct(x) => NodeModel::FixedStruct {
            tag: x.sad_value_type@,
            children: nodes_view_from(x.children@, 0),
        },
        Node::Vector(x) => NodeModel::Vector {
            tag: x.sad_value_type@,
            children: nodes_view_from(x.children@, 0),
        },
        Node::Tuple(x) => NodeModel::Tuple {
            tag: x.sad_value_type@,
            children: nodes_view_from(x.children@, 0),
        },
    }
}

impl View for Node {
    type V = NodeModel;

    open spec fn view(&self) -> NodeModel {
        node_view(*self)
    }
}

/// `nodes_view_from` views the tail elementwise.
pub proof fn lemma_nodes_view_from(cs: Seq<Node>, i: int)
    requires
        0 <= i <= cs.len(),
    ensures
        nodes_view_from(cs, i).len() == cs.len() - i,
        forall|k: int| i <= k < cs.len() ==> nodes_view_from(cs, i)[k - i] == node_view(cs[k]),
    decreases cs.len() - i,
{
    if i < cs.len() {
        lemma_nodes_view_from(cs, i + 1);
    }
}

/// Appending one node appends its view.
pub proof fn lemma_nodes_view_push(cs: Seq<Node>, n: Node)
    ensures
        nodes_view_from(cs.push(n), 0) =~= nodes_view_from(cs, 0).push(node_view(n)),
{
    lemma_nodes_view_from(cs, 0);
    lemma_nodes_view_from(cs.push(n), 0);
    assert forall|k: int| 0 <= k < cs.len() + 1 implies nodes_view_from(cs.push(n), 0)[k]
        == nodes_view_from(cs, 0).push(node_view(n))[k] by {
        if k < cs.len() {
            assert(cs.push(n)[k] == cs[k]);
        } else {
            assert(cs.push(n)[k] == n);
        }
    }
}

/// `nodes_view_from` at the start of the sequence, read elementwise.
pub proof fn lemma_nodes_view(cs: Seq<Node>)
    ensures
        nodes_view_from(cs, 0).len() == cs.len(),
        forall|k: int| 0 <= k < cs.len() ==> nodes_view_from(cs, 0)[k] == node_view(cs[k]),
{
    lemma_nodes_view_from(cs, 0);
    assert forall|k: int| 0 <= k < cs.len() implies nodes_view_from(cs, 0)[k] == node_view(
        cs[k],
    ) by {
        assert(nodes_view_from(cs, 0)[k - 0] == node_view(cs[k]));
    }
}

// ----------------------------------------------------------------------------
// Structural well-formedness of a compiled tree.
// ----------------------------------------------------------------------------

/// Children of `cs` from `i` on are well formed.
pub open spec fn nodes_wf_from(cs: Seq<NodeModel>, i: int) -> bool
    decreases cs, cs.len() - i,
{
    if 0 <= i < cs.len() {
        node_wf(cs[i]) && nodes_wf_from(cs, i + 1)
    } else {
        true
    }
}

/// Structural well-formedness: named fields and length-prefixed groups own
/// exactly one child, recursively.
pub open spec fn node_wf(m: NodeModel) -> bool
    decreases m, 0int,
{
    match m {
        NodeModel::Leaf { .. } => true,
        NodeModel::NamedField { children, .. } => children.len() == 1 && nodes_wf_from(
            children,
            0,
        ),
        NodeModel::LengthPrefix { children, .. } => children.len() == 1 && nodes_wf_from(
            children,
            0,
        ),
        NodeModel::KeyedCollection { children, .. } => nodes_wf_from(children, 0),
        NodeModel::FixedStruct { children, .. } => nodes_wf_from(children, 0),
        NodeModel::Vector { children, .. } => nodes_wf_from(children, 0),
        NodeModel::Tuple { children, .. } => nodes_wf_from(children, 0),
    }
}

/// Elementwise reading of `nodes_wf_from`.
pub proof fn lemma_nodes_wf_from(cs: Seq<NodeModel>, i: int)
    requires
        0 <= i <= cs.len(),
    ensures
        nodes_wf_from(cs, i) <==> (forall|k: int| i <= k < cs.len() ==> node_wf(cs[k])),
    decreases cs.len() - i,
{
    if i < cs.len() {
        lemma_nodes_wf_from(cs, i + 1);
    }
}

// ----------------------------------------------------------------------------
// The schema compiler, specified.
// ----------------------------------------------------------------------------

/// Compiles the sub-documents `items[i..]`, each directly, stopping at the
/// first failure.
pub open spec fn spec_parse_list(items: Seq<Yaml>, i: int) -> Result<
    Seq<NodeModel>,
    SadTreeErrorModel,
>
    decreases items, 0int, 1int + items.len() - i,
{
    if 0 <= i < items.len() {
        match spec_parse(items[i]) {
            Ok(m) => match spec_parse_list(items, i + 1) {
                Ok(rest) => Ok(seq![m] + rest),
                Err(e) => Err(e),
            },
            Err(e) => Err(e),
        }
    } else {
        Ok(Seq::empty())
    }
}

/// The leaf constructor: requires a recognized `type` tag.
pub open spec fn spec_parse_leaf(d: Yaml) -> Result<NodeModel, SadTreeErrorModel> {
    match d.spec_get("type"@) {
        Some(Yaml::Scalar(s)) => if spec_is_sadvalue_type(s@) {
            Ok(NodeModel::Leaf { tag: s@ })
        } else {
            Err(SadTreeErrorModel::UnknownType(s@))
        },
        _ => Err(SadTreeErrorModel::UnknownType(Seq::empty())),
    }
}

/// The named-field constructor: requires a `descriptor` mapping carrying a
/// scalar `name`; the descriptor itself is compiled as the single child.
pub open spec fn spec_parse_named_field(d: Yaml) -> Result<NodeModel, SadTreeErrorModel>
    decreases d, 0int, 0int,
    via spec_parse_named_field_decreases
{
    match d.spec_get("descriptor"@) {
        Some(desc) => match desc.spec_get("name"@) {
            Some(Yaml::Scalar(nm)) => match spec_parse(desc) {
                Ok(c) => Ok(
                    NodeModel::NamedField { name: nm@, children: seq![c] },
                ),
                Err(e) => Err(e),
            },
            _ => Err(SadTreeErrorModel::ExpectedHashMap),
        },
        None => Err(SadTreeErrorModel::ExpectedHashMap),
    }
}

/// The length-prefix constructor: requires a recognized scalar `size_type`
/// and a scalar `type`; `contains` is either a non-empty sequence (the
/// single child is compiled from its first element) or a mapping (the
/// single child is compiled from it directly).
pub open spec fn spec_parse_length_prefix(d: Yaml) -> Result<NodeModel, SadTreeErrorModel>
    decreases d, 0int, 0int,
    via spec_parse_length_prefix_decreases
{
    match d.spec_get("size_type"@) {
        Some(Yaml::Scalar(st)) => if !spec_is_sadvalue_type(st@) {
            Err(SadTreeErrorModel::UnknownType(st@))
        } else {
            match d.spec_get("type"@) {
                Some(Yaml::Scalar(t)) => match d.spec_get("contains"@) {
                    Some(cdoc) => match cdoc {
                        Yaml::Array(lst) => if lst@.len() == 0 {
                            Err(SadTreeErrorModel::ExpectedHashMapOrArray)
                        } else {
                            match spec_parse(lst@[0]) {
                                Ok(c) => Ok(
                                    NodeModel::LengthPrefix {
                                        tag: t@,
                                        size_tag: st@,
                                        children: seq![c],
                                    },
                                ),
                                Err(e) => Err(e),
                            }
                        },
                        Yaml::Hash(_) => match spec_parse(cdoc) {
                            Ok(c) => Ok(
                                NodeModel::LengthPrefix {
                                    tag: t@,
                                    size_tag: st@,
                                    children: seq![c],
                                },
                            ),
                            Err(e) => Err(e),
                        },
                        _ => Err(SadTreeErrorModel::ExpectedHashMapOrArray),
                    },
                    None => Err(SadTreeErrorModel::ExpectedHashMapOrArray),
                },
                _ => Err(SadTreeErrorModel::UnknownType(Seq::empty())),
            }
        },
        _ => Err(SadTreeErrorModel::UnknownType(Seq::empty())),
    }
}

/// A constructor over a `fields` child list (`HashMap`, `CStruct`,
/// `Tuple`) or a `contains` child list (`Vec`): requires a recognized
/// scalar `type` and the list under `list_key` to be a sequence; compiles
/// every element, in order.
pub open spec fn spec_parse_listy(
    d: Yaml,
    list_key: Seq<char>,
    missing: SadTreeErrorModel,
) -> Result<(Seq<char>, Seq<NodeModel>), SadTreeErrorModel>
    decreases d, 1int, 0int,
    via spec_parse_listy_decreases
{
    match d.spec_get("type"@) {
        Some(Yaml::Scalar(t)) => if !spec_is_sadvalue_type(t@) {
            Err(SadTreeErrorModel::UnknownType(t@))
        } else {
            match d.spec_get(list_key) {
                Some(Yaml::Array(lst)) => match spec_parse_list(lst@, 0) {
                    Ok(ms) => Ok((t@, ms)),
                    Err(e) => Err(e),
                },
                _ => Err(missing),
            }
        },
        _ => Err(SadTreeErrorModel::UnknownType(Seq::empty())),
    }
}

#[via_fn]
proof fn spec_parse_named_field_decreases(d: Yaml) {
    lemma_get_decreases(d, "descriptor"@);
}

#[via_fn]
proof fn spec_parse_length_prefix_decreases(d: Yaml) {
    lemma_get_decreases(d, "contains"@);
}

#[via_fn]
proof fn spec_parse_listy_decreases(d: Yaml, list_key: Seq<char>, missing: SadTreeErrorModel) {
    lemma_get_decreases(d, list_key);
}

/// Dispatch on the first entry's value: one of the six structural keywords
/// selects its constructor; anything else falls back to the leaf
/// constructor. A document that is not a non-empty mapping is rejected.
pub open spec fn spec_parse(d: Yaml) -> Result<NodeModel, SadTreeErrorModel>
    decreases d, 2int, 0int,
{
    match d.spec_first() {
        None => Err(SadTreeErrorModel::ExpectedHashMap),
        Some(kv) => match kv.1 {
            Yaml::Scalar(s) => if s@ == "length_prefix"@ {
                spec_parse_length_prefix(d)
            } else if s@ == "HashMap"@ {
                match spec_parse_listy(d, "fields"@, SadTreeErrorModel::ExpectedHashMapFields) {
                    Ok(tc) => Ok(NodeModel::KeyedCollection { tag: tc.0, children: tc.1 }),
                    Err(e) => Err(e),
                }
            } else if s@ == "Vec"@ {
                match spec_parse_listy(d, "contains"@, SadTreeErrorModel::ExpectedVecContains) {
                    Ok(tc) => Ok(NodeModel::Vector { tag: tc.0, children: tc.1 }),
                    Err(e) => Err(e),
                }
            } else if s@ == "Tuple"@ {
                match spec_parse_listy(d, "fields"@, SadTreeErrorModel::ExpectedTupleFields) {
                    Ok(tc) => Ok(NodeModel::Tuple { tag: tc.0, children: tc.1 }),
                    Err(e) => Err(e),
                }
            } else if s@ == "CStruct"@ {
                match spec_parse_listy(d, "fields"@, SadTreeErrorModel::ExpectedCStructFields) {
                    Ok(tc) => Ok(NodeModel::FixedStruct { tag: tc.0, children: tc.1 }),
                    Err(e) => Err(e),
                }
            } else if s@ == "NamedField"@ {
                spec_parse_named_field(d)
            } else {
                spec_parse_leaf(d)
            },
            _ => spec_parse_leaf(d),
        },
    }
}

/// Compiles the top-level field documents `items[i..]`. Each element is
/// either a single-entry mapping wrapping a field descriptor (when its
/// first entry's value is itself a mapping, that value is compiled) or
/// directly a node document (compiled as it stands).
pub open spec fn spec_parse_items(items: Seq<Yaml>, i: int) -> Result<
    Seq<NodeModel>,
    SadTreeErrorModel,
>
    decreases items, 4int, 1int + items.len() - i,
    via spec_parse_items_decreases
{
    if 0 <= i < items.len() {
        let elem = items[i];
        let inner = match elem.spec_first() {
            Some(kv) => match kv.1 {
                Yaml::Hash(_) => kv.1,
                _ => elem,
            },
            None => elem,
        };
        match spec_parse(inner) {
            Ok(m) => match spec_parse_items(items, i + 1) {
                Ok(rest) => Ok(seq![m] + rest),
                Err(e) => Err(e),
            },
            Err(e) => Err(e),
        }
    } else {
        Ok(Seq::empty())
    }
}

#[via_fn]
proof fn spec_parse_items_decreases(items: Seq<Yaml>, i: int) {
    if 0 <= i < items.len() {
        lemma_first_decreases(items[i]);
    }
}

/// Compiles a whole schema document: the root must be a non-empty mapping
/// whose first entry binds the tree's name to the sequence of top-level
/// field documents.
pub open spec fn spec_parse_tree(d: Yaml) -> Result<TreeModel, SadTreeErrorModel>
    decreases d, 5int, 0int,
    via spec_parse_tree_decreases
{
    match d.spec_first() {
        None => Err(SadTreeErrorModel::ExpectedHashMap),
        Some(kv) => match kv.1 {
            Yaml::Array(items) => match spec_parse_items(items@, 0) {
                Ok(ms) => Ok(TreeModel { name: kv.0@, children: ms }),
                Err(e) => Err(e),
            },
            _ => Err(SadTreeErrorModel::ExpectedArray),
        },
    }
}

#[via_fn]
proof fn spec_parse_tree_decreases(d: Yaml) {
    lemma_first_decreases(d);
}

/// A compiled tree model whose fields are all well formed.
pub open spec fn tree_wf(t: TreeModel) -> bool {
    nodes_wf_from(t.children, 0)
}

// ----------------------------------------------------------------------------
// The schema compiler, executed.
// ----------------------------------------------------------------------------

/// Compiles every element of `items`, in order, stopping at the first
/// failure.
#[verifier::loop_isolation(false)]
fn parse_list(items: &Vec<Yaml>) -> (r: Result<Vec<Node>, SadTreeError>)
    ensures
        match r {
            Ok(ns) => spec_parse_list(items@, 0) matches Ok(ms) && ms == nodes_view_from(ns@, 0)
                && nodes_wf_from(ms, 0),
            Err(e) => spec_parse_list(items@, 0) matches Err(me) && me == e@,
        },
    decreases *items, 0int, 1int,
{
    let n = items.len();
    let mut ns: Vec<Node> = Vec::new();
    let mut i: usize = 0;
    proof {
        assert(nodes_view_from(ns@, 0) =~= Seq::<NodeModel>::empty());
        match spec_parse_list(items@, 0) {
            Ok(rest) => {
                assert(Seq::<NodeModel>::empty() + rest =~= rest);
            },
            Err(_) => {},
        }
    }
    while i < n
        invariant
            n == items@.len(),
            i <= n,
            ns@.len() == i,
            spec_parse_list(items@, 0) == (match spec_parse_list(items@, i as int) {
                Ok(rest) => Ok::<Seq<NodeModel>, SadTreeErrorModel>(
                    nodes_view_from(ns@, 0) + rest,
                ),
                Err(e) => Err::<Seq<NodeModel>, SadTreeErrorModel>(e),
            }),
            forall|k: int| 0 <= k < i ==> node_wf(node_view(ns@[k])),
        decreases n - i,
    {
        match parse(&items[i]) {
            Ok(node) => {
                proof {
                    lemma_nodes_view_push(ns@, node);
                    match spec_parse_list(items@, i + 1) {
                        Ok(rest2) => {
                            assert(nodes_view_from(ns@, 0) + (seq![node_view(node)] + rest2)
                                =~= nodes_view_from(ns@, 0).push(node_view(node)) + rest2);
                        },
                        Err(_) => {},
                    }
                }
                ns.push(node);
            },
            Err(e) => {
                return Err(e);
            },
        }
        i = i + 1;
    }
    proof {
        lemma_nodes_view(ns@);
        let nv = nodes_view_from(ns@, 0);
        assert(nv + Seq::<NodeModel>::empty() =~= nv);
        assert forall|k: int| 0 <= k < nv.len() implies node_wf(nv[k]) by {
            assert(nv[k] == node_view(ns@[k]));
        }
        lemma_nodes_wf_from(nv, 0);
    }
    Ok(ns)
}

impl SadLeaf {
    /// Compiles a leaf node: the document's `type` entry must name a
    /// recognized value kind.
    pub fn from_yaml(in_yaml: &Yaml) -> (r: Result<Node, SadTreeError>)
        ensures
            match r {
                Ok(n) => spec_parse_leaf(*in_yaml) matches Ok(m) && m == n@ && node_wf(n@),
                Err(e) => spec_parse_leaf(*in_yaml) matches Err(me) && me == e@,
            },
    {
        match in_yaml.get("type") {
            Some(y) => match y {
                Yaml::Scalar(s) => {
                    if is_sadvalue_type(s.as_str()) {
                        Ok(Node::Leaf(SadLeaf { sad_value_type: s.clone() }))
                    } else {
                        Err(SadTreeError::UnknownType(s.clone()))
                    }
                },
                _ => Err(SadTreeError::UnknownType(String::new())),
            },
            None => Err(SadTreeError::UnknownType(String::new())),
        }
    }

    /// The declared type tag.
    pub fn decl_type(&self) -> (r: &String)
        ensures
            r@ == self.sad_value_type@,
    {
        &self.sad_value_type
    }
}

impl SadNamedField {
    /// Compiles a named field: the `descriptor` entry must be a mapping
    /// carrying a scalar `name`; the descriptor is compiled as the single
    /// child.
    pub fn from_yaml(in_yaml: &Yaml) -> (r: Result<Node, SadTreeError>)
        ensures
            match r {
                Ok(n) => spec_parse_named_field(*in_yaml) matches Ok(m) && m == n@ && node_wf(
                    n@,
                ),
                Err(e) => spec_parse_named_field(*in_yaml) matches Err(me) && me == e@,
            },
        decreases *in_yaml, 1int, 0int,
    {
        let desc = match in_yaml.get("descriptor") {
            Some(y) => y,
            None => {
                return Err(SadTreeError::ExpectedHashMap);
            },
        };
        let nm = match desc.get("name") {
            Some(y) => match y {
                Yaml::Scalar(s) => s.clone(),
                _ => {
                    return Err(SadTreeError::ExpectedHashMap);
                },
            },
            None => {
                return Err(SadTreeError::ExpectedHashMap);
            },
        };
        proof {
            lemma_get_decreases(*in_yaml, "descriptor"@);
        }
        match parse(desc) {
            Ok(child) => {
                let mut children: Vec<Node> = Vec::new();
                children.push(child);
                proof {
                    lemma_nodes_view_from(children@, 0);
                    assert(nodes_view_from(children@, 0) =~= seq![node_view(children@[0])]);
                    lemma_nodes_wf_from(nodes_view_from(children@, 0), 0);
                }
                Ok(
                    Node::NamedField(
                        SadNamedField {
                            sad_field_name: nm,
                            sad_value_type: String::from_str("descriptor"),
                            children,
                        },
                    ),
                )
            },
            Err(e) => Err(e),
        }
    }

    /// The declared field name.
    pub fn name(&self) -> (r: &String)
        ensures
            r@ == self.sad_field_name@,
    {
        &self.sad_field_name
    }

    /// The declared type tag.
    pub fn decl_type(&self) -> (r: &String)
        ensures
            r@ == self.sad_value_type@,
    {
        &self.sad_value_type
    }

    /// The single child.
    pub fn children(&self) -> (r: &Vec<Node>)
        ensures
            r == &self.children,
    {
        &self.children
    }
}

impl SadLengthPrefix {
    /// Compiles a length-prefixed group: `size_type` must name a recognized
    /// kind, and `contains` must be a non-empty sequence (first element
    /// compiled) or a mapping (compiled directly).
    pub fn from_yaml(in_yaml: &Yaml) -> (r: Result<Node, SadTreeError>)
        ensures
            match r {
                Ok(n) => spec_parse_length_prefix(*in_yaml) matches Ok(m) && m == n@ && node_wf(
                    n@,
                ),
                Err(e) => spec_parse_length_prefix(*in_yaml) matches Err(me) && me == e@,
            },
        decreases *in_yaml, 1int, 0int,
    {
        let st = match in_yaml.get("size_type") {
            Some(y) => match y {
                Yaml::Scalar(s) => s.clone(),
                _ => {
                    return Err(SadTreeError::UnknownType(String::new()));
                },
            },
            None => {
                return Err(SadTreeError::UnknownType(String::new()));
            },
        };
        if !is_sadvalue_type(st.as_str()) {
            return Err(SadTreeError::UnknownType(st));
        }
        let t = match in_yaml.get("type") {
            Some(y) => match y {
                Yaml::Scalar(s) => s.clone(),
                _ => {
                    return Err(SadTreeError::UnknownType(String::new()));
                },
            },
            None => {
                return Err(SadTreeError::UnknownType(String::new()));
            },
        };
        let cdoc = match in_yaml.get("contains") {
            Some(y) => y,
            None => {
                return Err(SadTreeError::ExpectedHashMapOrArray);
            },
        };
        proof {
            lemma_get_decreases(*in_yaml, "contains"@);
        }
        let child = match cdoc {
            Yaml::Array(lst) => {
                if lst.len() == 0 {
                    return Err(SadTreeError::ExpectedHashMapOrArray);
                }
                match parse(&lst[0]) {
                    Ok(c) => c,
                    Err(e) => {
                        return Err(e);
                    },
                }
            },
            Yaml::Hash(_) => {
                match parse(cdoc) {
                    Ok(c) => c,
                    Err(e) => {
                        return Err(e);
                    },
                }
            },
            _ => {
                return Err(SadTreeError::ExpectedHashMapOrArray);
            },
        };
        let mut children: Vec<Node> = Vec::new();
        children.push(child);
        proof {
            lemma_nodes_view_from(children@, 0);
            assert(nodes_view_from(children@, 0) =~= seq![node_view(children@[0])]);
            lemma_nodes_wf_from(nodes_view_from(children@, 0), 0);
        }
        Ok(
            Node::LengthPrefix(
                SadLengthPrefix { sad_value_type: t, sad_length_type: st, children },
            ),
        )
    }

    /// The declared type tag.
    pub fn decl_type(&self) -> (r: &String)
        ensures
            r@ == self.sad_value_type@,
    {
        &self.sad_value_type
    }

    /// The single child.
    pub fn children(&self) -> (r: &Vec<Node>)
        ensures
            r == &self.children,
    {
        &self.children
    }
}

/// The shared body of the four constructors that compile a child list: a
/// recognized scalar `type`, then every element of the sequence under
/// `list_key`, in order.
fn parse_listy(in_yaml: &Yaml, list_key: &str, missing: SadTreeError) -> (r: Result<
    (String, Vec<Node>),
    SadTreeError,
>)
    ensures
        match r {
            Ok(tc) => spec_parse_listy(*in_yaml, list_key@, missing@) matches Ok(m) && m.0
                == tc.0@ && m.1 == nodes_view_from(tc.1@, 0) && nodes_wf_from(m.1, 0),
            Err(e) => spec_parse_listy(*in_yaml, list_key@, missing@) matches Err(me) && me
                == e@,
        },
    decreases *in_yaml, 1int, 0int,
{
    let t = match in_yaml.get("type") {
        Some(y) => match y {
            Yaml::Scalar(s) => s.clone(),
            _ => {
                return Err(SadTreeError::UnknownType(String::new()));
            },
        },
        None => {
            return Err(SadTreeError::UnknownType(String::new()));
        },
    };
    if !is_sadvalue_type(t.as_str()) {
        return Err(SadTreeError::UnknownType(t));
    }
    let ldoc = match in_yaml.get(list_key) {
        Some(y) => y,
        None => {
            return Err(missing);
        },
    };
    proof {
        lemma_get_decreases(*in_yaml, list_key@);
    }
    match ldoc {
        Yaml::Array(lst) => match parse_list(lst) {
            Ok(children) => Ok((t, children)),
            Err(e) => Err(e),
        },
        _ => Err(missing),
    }
}

impl SadHashMap {
    /// Compiles a keyed collection: `fields` must be a sequence; every
    /// element is compiled, in order.
    pub fn from_yaml(in_yaml: &Yaml) -> (r: Result<Node, SadTreeError>)
        ensures
            match r {
                Ok(n) => spec_parse_listy(
                    *in_yaml,
                    "fields"@,
                    SadTreeErrorModel::ExpectedHashMapFields,
                ) matches Ok(m) && n@ == (NodeModel::KeyedCollection { tag: m.0, children: m.1 })
                    && node_wf(n@),
                Err(e) => spec_parse_listy(
                    *in_yaml,
                    "fields"@,
                    SadTreeErrorModel::ExpectedHashMapFields,
                ) matches Err(me) && me == e@,
            },
        decreases *in_yaml, 2int, 0int,
    {
        match parse_listy(in_yaml, "fields", SadTreeError::ExpectedHashMapFields) {
            Ok(tc) => Ok(
                Node::KeyedCollection(SadHashMap { sad_value_type: tc.0, children: tc.1 }),
            ),
            Err(e) => Err(e),
        }
    }

    /// The declared type tag.
    pub fn decl_type(&self) -> (r: &String)
        ensures
            r@ == self.sad_value_type@,
    {
        &self.sad_value_type
    }

    /// The children, in declared order.
    pub fn children(&self) -> (r: &Vec<Node>)
        ensures
            r == &self.children,
    {
        &self.children
    }
}

impl SadStructure {
    /// Compiles a fixed-layout aggregate: `fields` must be a sequence;
    /// every element is compiled, in order.
    pub fn from_yaml(in_yaml: &Yaml) -> (r: Result<Node, SadTreeError>)
        ensures
            match r {
                Ok(n) => spec_parse_listy(
                    *in_yaml,
                    "fields"@,
                    SadTreeErrorModel::ExpectedCStructFields,
                ) matches Ok(m) && n@ == (NodeModel::FixedStruct { tag: m.0, children: m.1 })
                    && node_wf(n@),
                Err(e) => spec_parse_listy(
                    *in_yaml,
                    "fields"@,
                    SadTreeErrorModel::ExpectedCStructFields,
                ) matches Err(me) && me == e@,
            },
        decreases *in_yaml, 2int, 0int,
    {
        match parse_listy(in_yaml, "fields", SadTreeError::ExpectedCStructFields) {
            Ok(tc) => Ok(Node::FixedStruct(SadStructure { sad_value_type: tc.0, children: tc.1 })),
            Err(e) => Err(e),
        }
    }

    /// The declared type tag.
    pub fn decl_type(&self) -> (r: &String)
        ensures
            r@ == self.sad_value_type@,
    {
        &self.sad_value_type
    }

    /// The children, in declared order.
    pub fn children(&self) -> (r: &Vec<Node>)
        ensures
            r == &self.children,
    {
        &self.children
    }
}

impl SadVector {
    /// Compiles a vector: `contains` must be a sequence; every element
    /// descriptor is compiled, in order.
    pub fn from_yaml(in_yaml: &Yaml) -> (r: Result<Node, SadTreeError>)
        ensures
            match r {
                Ok(n) => spec_parse_listy(
                    *in_yaml,
                    "contains"@,
                    SadTreeErrorModel::ExpectedVecContains,
                ) matches Ok(m) && n@ == (NodeModel::Vector { tag: m.0, children: m.1 })
                    && node_wf(n@),
                Err(e) => spec_parse_listy(
                    *in_yaml,
                    "contains"@,
                    SadTreeErrorModel::ExpectedVecContains,
                ) matches Err(me) && me == e@,
            },
        decreases *in_yaml, 2int, 0int,
    {
        match parse_listy(in_yaml, "contains", SadTreeError::ExpectedVecContains) {
            Ok(tc) => Ok(Node::Vector(SadVector { sad_value_type: tc.0, children: tc.1 })),
            Err(e) => Err(e),
        }
    }

    /// The declared type tag.
    pub fn decl_type(&self) -> (r: &String)
        ensures
            r@ == self.sad_value_type@,
    {
        &self.sad_value_type
    }

    /// The children, in declared order.
    pub fn children(&self) -> (r: &Vec<Node>)
        ensures
            r == &self.children,
    {
        &self.children
    }
}

impl SadTuple {
    /// Compiles a tuple: `fields` must be a sequence; every element is
    /// compiled, in order.
    pub fn from_yaml(in_yaml: &Yaml) -> (r: Result<Node, SadTreeError>)
        ensures
            match r {
                Ok(n) => spec_parse_listy(
                    *in_yaml,
                    "fields"@,
                    SadTreeErrorModel::ExpectedTupleFields,
                ) matches Ok(m) && n@ == (NodeModel::Tuple { tag: m.0, children: m.1 })
                    && node_wf(n@),
                Err(e) => spec_parse_listy(
                    *in_yaml,
                    "fields"@,
                    SadTreeErrorModel::ExpectedTupleFields,
                ) matches Err(me) && me == e@,
            },
        decreases *in_yaml, 2int, 0int,
    {
        match parse_listy(in_yaml, "fields", SadTreeError::ExpectedTupleFields) {
            Ok(tc) => Ok(Node::Tuple(SadTuple { sad_value_type: tc.0, children: tc.1 })),
            Err(e) => Err(e),
        }
    }

    /// The declared type tag.
    pub fn decl_type(&self) -> (r: &String)
        ensures
            r@ == self.sad_value_type@,
    {
        &self.sad_value_type
    }

    /// The children, in declared order.
    pub fn children(&self) -> (r: &Vec<Node>)
        ensures
            r == &self.children,
    {
        &self.children
    }
}

/// Compiles one schema document node, dispatching on its first entry's
/// value: a structural keyword selects its constructor, anything else
/// falls back to the leaf constructor.
pub fn parse(in_yaml: &Yaml) -> (r: Result<Node, SadTreeError>)
    ensures
        match r {
            Ok(n) => spec_parse(*in_yaml) matches Ok(m) && m == n@ && node_wf(n@),
            Err(e) => spec_parse(*in_yaml) matches Err(me) && me == e@,
        },
    decreases *in_yaml, 3int, 0int,
{
    let first = match in_yaml.first_entry() {
        Some(kv) => kv,
        None => {
            return Err(SadTreeError::ExpectedHashMap);
        },
    };
    match first.1 {
        Yaml::Scalar(s) => {
            if str_eq(s.as_str(), "length_prefix") {
                SadLengthPrefix::from_yaml(in_yaml)
            } else if str_eq(s.as_str(), "HashMap") {
                SadHashMap::from_yaml(in_yaml)
            } else if str_eq(s.as_str(), "Vec") {
                SadVector::from_yaml(in_yaml)
            } else if str_eq(s.as_str(), "Tuple") {
                SadTuple::from_yaml(in_yaml)
            } else if str_eq(s.as_str(), "CStruct") {
                SadStructure::from_yaml(in_yaml)
            } else if str_eq(s.as_str(), "NamedField") {
                SadNamedField::from_yaml(in_yaml)
            } else {
                SadLeaf::from_yaml(in_yaml)
            }
        },
        _ => SadLeaf::from_yaml(in_yaml),
    }
}

// ----------------------------------------------------------------------------
// The compiled tree and its facade.
// ----------------------------------------------------------------------------

/// A whole compiled schema tree: the declared document name and the
/// top-level fields, in declaration order. Immutable once built; one tree
/// drives any number of independent decode passes.
#[derive(Debug)]
pub struct SadTree {
    pub yaml_decl_type: String,
    pub name: String,
    pub children: Vec<Node>,
}

impl View for SadTree {
    type V = TreeModel;

    open spec fn view(&self) -> TreeModel {
        TreeModel { name: self.name@, children: nodes_view_from(self.children@, 0) }
    }
}

impl SadTree {
    /// Compiles a whole schema document. The root must be a non-empty
    /// mapping whose first entry binds the tree's name to the sequence of
    /// top-level field documents; each field document is either a
    /// single-entry mapping wrapping a node document or a node document
    /// itself.
    #[verifier::loop_isolation(false)]
    pub fn new(in_yaml: &Yaml) -> (r: Result<Self, SadTreeError>)
        ensures
            match r {
                Ok(t) => spec_parse_tree(*in_yaml) matches Ok(tm) && tm == t@ && tree_wf(t@)
                    && t.yaml_decl_type@ == "tree"@,
                Err(e) => spec_parse_tree(*in_yaml) matches Err(me) && me == e@,
            },
    {
        let first = match in_yaml.first_entry() {
            Some(kv) => kv,
            None => {
                return Err(SadTreeError::ExpectedHashMap);
            },
        };
        let items = match first.1 {
            Yaml::Array(lst) => lst,
            _ => {
                return Err(SadTreeError::ExpectedArray);
            },
        };
        let n = items.len();
        let mut children: Vec<Node> = Vec::new();
        let mut i: usize = 0;
        proof {
            assert(nodes_view_from(children@, 0) =~= Seq::<NodeModel>::empty());
            match spec_parse_items(items@, 0) {
                Ok(rest) => {
                    assert(Seq::<NodeModel>::empty() + rest =~= rest);
                },
                Err(_) => {},
            }
        }
        while i < n
            invariant
                n == items@.len(),
                i <= n,
                children@.len() == i,
                spec_parse_items(items@, 0) == (match spec_parse_items(items@, i as int) {
                    Ok(rest) => Ok::<Seq<NodeModel>, SadTreeErrorModel>(
                        nodes_view_from(children@, 0) + rest,
                    ),
                    Err(e) => Err::<Seq<NodeModel>, SadTreeErrorModel>(e),
                }),
                forall|k: int| 0 <= k < i ==> node_wf(node_view(children@[k])),
            decreases n - i,
        {
            let item = &items[i];
            let inner: &Yaml = match item.first_entry() {
                Some(kv) => match kv.1 {
                    Yaml::Hash(_) => kv.1,
                    _ => item,
                },
                None => item,
            };
            match parse(inner) {
                Ok(node) => {
                    proof {
                        lemma_nodes_view_push(children@, node);
                        match spec_parse_items(items@, i + 1) {
                            Ok(rest2) => {
                                assert(nodes_view_from(children@, 0) + (seq![node_view(node)]
                                    + rest2) =~= nodes_view_from(children@, 0).push(
                                    node_view(node),
                                ) + rest2);
                            },
                            Err(_) => {},
                        }
                    }
                    children.push(node);
                },
                Err(e) => {
                    return Err(e);
                },
            }
            i = i + 1;
        }
        proof {
            lemma_nodes_view(children@);
            let nv = nodes_view_from(children@, 0);
            assert(nv + Seq::<NodeModel>::empty() =~= nv);
            assert forall|k: int| 0 <= k < nv.len() implies node_wf(nv[k]) by {
                assert(nv[k] == node_view(children@[k]));
            }
            lemma_nodes_wf_from(nv, 0);
        }
        Ok(
            Self {
                yaml_decl_type: String::from_str("tree"),
                name: first.0.clone(),
                children,
            },
        )
    }

    /// The declared document name.
    pub fn name(&self) -> (r: &String)
        ensures
            r@ == self@.name,
    {
        &self.name
    }

    /// The tree's own tag.
    pub fn decl_type(&self) -> (r: &String)
        ensures
            r@ == self.yaml_decl_type@,
    {
        &self.yaml_decl_type
    }

    /// The top-level fields, in declaration order.
    pub fn children(&self) -> (r: &Vec<Node>)
        ensures
            r == &self.children,
    {
        &self.children
    }
}

/// The tree facade: one compiled tree together with the schema document it
/// was built from. Built once; never mutated.
#[derive(Debug)]
pub struct Deseriaizer<'a> {
    pub yaml_declaration: &'a Yaml,
    pub sad_tree: SadTree,
}

impl<'a> Deseriaizer<'a> {
    /// Compiles the given schema document and wraps the tree with it.
    pub fn new(in_yaml: &'a Yaml) -> (r: Result<Self, SadTreeError>)
        ensures
            match r {
                Ok(dz) => spec_parse_tree(*in_yaml) matches Ok(tm) && tm == dz.sad_tree@
                    && tree_wf(dz.sad_tree@) && dz.yaml_declaration == in_yaml,
                Err(e) => spec_parse_tree(*in_yaml) matches Err(me) && me == e@,
            },
    {
        match SadTree::new(in_yaml) {
            Ok(t) => Ok(Self { yaml_declaration: in_yaml, sad_tree: t }),
            Err(e) => Err(e),
        }
    }

    /// The compiled tree.
    pub fn tree(&self) -> (r: &SadTree)
        ensures
            r == &self.sad_tree,
    {
        &self.sad_tree
    }
}

} // verus!
