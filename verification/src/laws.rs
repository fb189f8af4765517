use vstd::prelude::*;
use crate::decode::{
    spec_decode, spec_decode_leaf, spec_decode_repeat, spec_decode_seq, spec_decode_tree,
    spec_read_count, DecodeOutcome,
};
use crate::desertree::{
    spec_parse, spec_parse_leaf, spec_parse_length_prefix, spec_parse_list, spec_parse_listy,
    NodeModel, TreeModel,
};
use crate::errors::{SadDecodeError, SadTreeErrorModel};
use crate::sadtypes::{le_uint, pow256, spec_fixed_width, spec_int_kind, spec_is_sadvalue_type};
use crate::schema::Yaml;

verus! {

// ----------------------------------------------------------------------------
// Laws of the schema compiler.
// ----------------------------------------------------------------------------

/// Compiling a leaf schema node whose `type` entry is the scalar `s`:
/// a recognized tag succeeds with exactly that tag as the leaf's declared
/// type; an unrecognized tag fails with `UnknownType` carrying it.
pub proof fn lemma_leaf_compile(d: Yaml, s: String)
    requires
        d.spec_get("type"@) == Some(Yaml::Scalar(s)),
    ensures
        spec_is_sadvalue_type(s@) ==> spec_parse_leaf(d) == Ok::<NodeModel, SadTreeErrorModel>(
            NodeModel::Leaf { tag: s@ },
        ),
        !spec_is_sadvalue_type(s@) ==> spec_parse_leaf(d) == Err::<NodeModel, SadTreeErrorModel>(
            SadTreeErrorModel::UnknownType(s@),
        ),
{
}

/// A `length_prefix` node whose `contains` is a non-empty sequence
/// compiles exactly one child, from the first element, whatever the
/// sequence's length; a failing first element aborts with its error.
pub proof fn lemma_length_prefix_seq(d: Yaml, st: String, t: String, lst: Vec<Yaml>)
    requires
        d.spec_get("size_type"@) == Some(Yaml::Scalar(st)),
        spec_is_sadvalue_type(st@),
        d.spec_get("type"@) == Some(Yaml::Scalar(t)),
        d.spec_get("contains"@) == Some(Yaml::Array(lst)),
        lst@.len() >= 1,
    ensures
        spec_parse(lst@[0]) matches Ok(c) ==> spec_parse_length_prefix(d) == Ok::<
            NodeModel,
            SadTreeErrorModel,
        >(NodeModel::LengthPrefix { tag: t@, size_tag: st@, children: seq![c] }),
        spec_parse(lst@[0]) matches Err(e) ==> spec_parse_length_prefix(d) == Err::<
            NodeModel,
            SadTreeErrorModel,
        >(e),
{
}

/// A `length_prefix` node whose `contains` is a mapping compiles exactly
/// one child, from the mapping itself.
pub proof fn lemma_length_prefix_map(d: Yaml, st: String, t: String, ps: Vec<(String, Yaml)>)
    requires
        d.spec_get("size_type"@) == Some(Yaml::Scalar(st)),
        spec_is_sadvalue_type(st@),
        d.spec_get("type"@) == Some(Yaml::Scalar(t)),
        d.spec_get("contains"@) == Some(Yaml::Hash(ps)),
    ensures
        spec_parse(Yaml::Hash(ps)) matches Ok(c) ==> spec_parse_length_prefix(d) == Ok::<
            NodeModel,
            SadTreeErrorModel,
        >(NodeModel::LengthPrefix { tag: t@, size_tag: st@, children: seq![c] }),
        spec_parse(Yaml::Hash(ps)) matches Err(e) ==> spec_parse_length_prefix(d) == Err::<
            NodeModel,
            SadTreeErrorModel,
        >(e),
{
}

/// A `length_prefix` node whose `contains` is any other shape (absent, a
/// scalar, or an empty sequence) fails with `ExpectedHashMapOrArray`.
pub proof fn lemma_length_prefix_other(d: Yaml, st: String, t: String)
    requires
        d.spec_get("size_type"@) == Some(Yaml::Scalar(st)),
        spec_is_sadvalue_type(st@),
        d.spec_get("type"@) == Some(Yaml::Scalar(t)),
        (match d.spec_get("contains"@) {
            Some(Yaml::Array(lst)) => lst@.len() == 0,
            Some(Yaml::Hash(_)) => false,
            Some(Yaml::Scalar(_)) => true,
            None => true,
        }),
    ensures
        spec_parse_length_prefix(d) == Err::<NodeModel, SadTreeErrorModel>(
            SadTreeErrorModel::ExpectedHashMapOrArray,
        ),
{
}

/// Elementwise reading of a compiled child list: on success there are
/// exactly as many children as elements, each compiled from its element,
/// in order.
pub proof fn lemma_parse_list_elems(items: Seq<Yaml>)
    ensures
        spec_parse_list(items, 0) matches Ok(ms) ==> ms.len() == items.len() && (forall|k: int|
            0 <= k < items.len() ==> spec_parse(items[k]) == Ok::<NodeModel, SadTreeErrorModel>(
                ms[k],
            )),
{
    lemma_parse_list_elems_from(items, 0);
    match spec_parse_list(items, 0) {
        Ok(ms) => {
            assert forall|k: int| 0 <= k < items.len() implies spec_parse(items[k]) == Ok::<
                NodeModel,
                SadTreeErrorModel,
            >(ms[k]) by {
                assert(spec_parse(items[k]) == Ok::<NodeModel, SadTreeErrorModel>(ms[k - 0]));
            }
        },
        Err(_) => {},
    }
}

proof fn lemma_parse_list_elems_from(items: Seq<Yaml>, i: int)
    requires
        0 <= i <= items.len(),
    ensures
        spec_parse_list(items, i) matches Ok(ms) ==> ms.len() == items.len() - i && (forall|
            k: int,
        |
            i <= k < items.len() ==> spec_parse(items[k]) == Ok::<NodeModel, SadTreeErrorModel>(
                ms[k - i],
            )),
    decreases items.len() - i,
{
    if i < items.len() {
        lemma_parse_list_elems_from(items, i + 1);
    }
}

/// The keyword constructors that take a child list (`HashMap`, `CStruct`,
/// `Tuple` over `fields`; `Vec` over `contains`) compile one child per
/// element of the list, in order.
pub proof fn lemma_listy_children(
    d: Yaml,
    t: String,
    key: Seq<char>,
    missing: SadTreeErrorModel,
    lst: Vec<Yaml>,
)
    requires
        d.spec_get("type"@) == Some(Yaml::Scalar(t)),
        spec_is_sadvalue_type(t@),
        d.spec_get(key) == Some(Yaml::Array(lst)),
    ensures
        spec_parse_listy(d, key, missing) matches Ok(m) ==> m.0 == t@ && m.1.len() == lst@.len()
            && (forall|k: int|
            0 <= k < lst@.len() ==> spec_parse(lst@[k]) == Ok::<NodeModel, SadTreeErrorModel>(
                m.1[k],
            )),
{
    lemma_parse_list_elems(lst@);
}

/// The same constructors fail with their respective error when the child
/// list entry is missing or not a sequence.
pub proof fn lemma_listy_missing(d: Yaml, t: String, key: Seq<char>, missing: SadTreeErrorModel)
    requires
        d.spec_get("type"@) == Some(Yaml::Scalar(t)),
        spec_is_sadvalue_type(t@),
        (match d.spec_get(key) {
            Some(Yaml::Array(_)) => false,
            Some(_) => true,
            None => true,
        }),
    ensures
        spec_parse_listy(d, key, missing) == Err::<(Seq<char>, Seq<NodeModel>), SadTreeErrorModel>(
            missing,
        ),
{
}

// ----------------------------------------------------------------------------
// Laws of the decoding engine.
// ----------------------------------------------------------------------------

/// Fixed-layout trees: leaves of a fixed byte width whose reads cannot be
/// refused on content (`bool` can, `string` has no fixed width: both are
/// left out), named fields and fixed aggregates over them.
pub open spec fn fixed_node(m: NodeModel) -> bool
    decreases m, 0int,
{
    match m {
        NodeModel::Leaf { tag } => spec_fixed_width(tag) is Some && tag != "bool"@,
        NodeModel::NamedField { children, .. } => children.len() == 1 && fixed_nodes_from(
            children,
            0,
        ),
        NodeModel::FixedStruct { children, .. } => fixed_nodes_from(children, 0),
        _ => false,
    }
}

/// The nodes `cs[i..]` are all fixed-layout.
pub open spec fn fixed_nodes_from(cs: Seq<NodeModel>, i: int) -> bool
    decreases cs, cs.len() - i,
{
    if 0 <= i < cs.len() {
        fixed_node(cs[i]) && fixed_nodes_from(cs, i + 1)
    } else {
        true
    }
}

/// The number of bytes a fixed-layout node consumes.
pub open spec fn node_width(m: NodeModel) -> nat
    decreases m, 0int,
{
    match m {
        NodeModel::Leaf { tag } => match spec_fixed_width(tag) {
            Some(w) => w,
            None => 0,
        },
        NodeModel::NamedField { children, .. } => if children.len() == 1 {
            node_width(children[0])
        } else {
            0
        },
        NodeModel::FixedStruct { children, .. } => widths_from(children, 0),
        _ => 0,
    }
}

/// The bytes the nodes `cs[i..]` consume, summed.
pub open spec fn widths_from(cs: Seq<NodeModel>, i: int) -> nat
    decreases cs, cs.len() - i,
{
    if 0 <= i < cs.len() {
        node_width(cs[i]) + widths_from(cs, i + 1)
    } else {
        0
    }
}

/// The number of leaves under a fixed-layout node.
pub open spec fn leaf_count(m: NodeModel) -> nat
    decreases m, 0int,
{
    match m {
        NodeModel::Leaf { .. } => 1,
        NodeModel::NamedField { children, .. } => if children.len() == 1 {
            leaf_count(children[0])
        } else {
            0
        },
        NodeModel::FixedStruct { children, .. } => counts_from(children, 0),
        _ => 0,
    }
}

/// The leaves under the nodes `cs[i..]`, summed.
pub open spec fn counts_from(cs: Seq<NodeModel>, i: int) -> nat
    decreases cs, cs.len() - i,
{
    if 0 <= i < cs.len() {
        leaf_count(cs[i]) + counts_from(cs, i + 1)
    } else {
        0
    }
}

/// Round trip over a fixed-layout tree: with at least the node's width of
/// bytes on hand, decoding succeeds, consumes exactly that width, and
/// yields one output entry per leaf, in declared order.
pub proof fn lemma_fixed_decode(m: NodeModel, data: Seq<u8>, pos: int, label: Option<Seq<char>>)
    requires
        fixed_node(m),
        0 <= pos,
        pos + node_width(m) <= data.len(),
    ensures
        spec_decode(m, data, pos, label) matches DecodeOutcome::Good { entries, end } && end == pos
            + node_width(m) && entries.len() == leaf_count(m),
    decreases m, 0int,
{
    crate::sadtypes::lemma_kind_names();
    match m {
        NodeModel::Leaf { tag } => {
            assert(spec_decode(m, data, pos, label) == spec_decode_leaf(tag, data, pos, label));
            if tag == "u8"@ {
                assert(spec_decode_leaf(tag, data, pos, label) == crate::decode::spec_decode_uint(data, pos, 1, label));
            } else if tag == "u16"@ {
                assert(spec_decode_leaf(tag, data, pos, label) == crate::decode::spec_decode_uint(data, pos, 2, label));
            } else if tag == "u32"@ {
                assert(spec_decode_leaf(tag, data, pos, label) == crate::decode::spec_decode_uint(data, pos, 4, label));
            } else if tag == "u64"@ {
                assert(spec_decode_leaf(tag, data, pos, label) == crate::decode::spec_decode_uint(data, pos, 8, label));
            } else if tag == "u128"@ {
                assert(spec_decode_leaf(tag, data, pos, label) == crate::decode::spec_decode_uint(data, pos, 16, label));
            } else if tag == "i8"@ {
                assert(spec_decode_leaf(tag, data, pos, label) == crate::decode::spec_decode_sint(data, pos, 1, label));
            } else if tag == "i16"@ {
                assert(spec_decode_leaf(tag, data, pos, label) == crate::decode::spec_decode_sint(data, pos, 2, label));
            } else if tag == "i32"@ {
                assert(spec_decode_leaf(tag, data, pos, label) == crate::decode::spec_decode_sint(data, pos, 4, label));
            } else if tag == "i64"@ {
                assert(spec_decode_leaf(tag, data, pos, label) == crate::decode::spec_decode_sint(data, pos, 8, label));
            } else if tag == "i128"@ {
                assert(spec_decode_leaf(tag, data, pos, label) == crate::decode::spec_decode_sint(data, pos, 16, label));
            } else if tag == "f32"@ {
                assert(spec_decode_leaf(tag, data, pos, label) matches DecodeOutcome::Good { entries, end }
                    && end == pos + 4 && entries.len() == 1);
            } else if tag == "f64"@ {
                assert(spec_decode_leaf(tag, data, pos, label) matches DecodeOutcome::Good { entries, end }
                    && end == pos + 8 && entries.len() == 1);
            } else {
                assert(tag == "pubkey"@);
                assert(spec_decode_leaf(tag, data, pos, label) matches DecodeOutcome::Good { entries, end }
                    && end == pos + 32 && entries.len() == 1);
            }
        },
        NodeModel::NamedField { name, children } => {
            lemma_fixed_decode(children[0], data, pos, Some(name));
        },
        NodeModel::FixedStruct { children, .. } => {
            lemma_fixed_decode_seq(children, 0, data, pos, label);
        },
        _ => {},
    }
}

proof fn lemma_fixed_decode_seq(
    cs: Seq<NodeModel>,
    i: int,
    data: Seq<u8>,
    pos: int,
    label: Option<Seq<char>>,
)
    requires
        0 <= i <= cs.len(),
        fixed_nodes_from(cs, i),
        0 <= pos,
        pos + widths_from(cs, i) <= data.len(),
    ensures
        spec_decode_seq(cs, i, data, pos, label) matches DecodeOutcome::Good { entries, end }
            && end == pos + widths_from(cs, i) && entries.len() == counts_from(cs, i),
    decreases cs, cs.len() - i,
{
    if i < cs.len() {
        lemma_fixed_decode(cs[i], data, pos, label);
        lemma_fixed_decode_seq(cs, i + 1, data, pos + node_width(cs[i]), label);
    }
}

/// A whole fixed-layout tree against a buffer of exactly its width:
/// decoding consumes the entire buffer and yields one entry per leaf.
pub proof fn lemma_fixed_tree_round_trip(t: TreeModel, data: Seq<u8>)
    requires
        fixed_nodes_from(t.children, 0),
        widths_from(t.children, 0) == data.len(),
    ensures
        spec_decode_tree(t, data, 0) matches DecodeOutcome::Good { entries, end } && end
            == data.len() && entries.len() == counts_from(t.children, 0),
{
    lemma_fixed_decode_seq(t.children, 0, data, 0, None);
}

/// Trees whose leaves and size types all have a decodable layout.
pub open spec fn dec_wf(m: NodeModel) -> bool
    decreases m, 0int,
{
    match m {
        NodeModel::Leaf { tag } => spec_fixed_width(tag) is Some || tag == "string"@,
        NodeModel::NamedField { children, .. } => children.len() == 1 && dec_wf(children[0]),
        NodeModel::LengthPrefix { size_tag, children, .. } => children.len() == 1 && spec_int_kind(
            size_tag,
        ) is Some && dec_wf(children[0]),
        NodeModel::KeyedCollection { children, .. } => dec_wf_from(children, 0),
        NodeModel::FixedStruct { children, .. } => dec_wf_from(children, 0),
        NodeModel::Vector { children, .. } => dec_wf_from(children, 0),
        NodeModel::Tuple { children, .. } => dec_wf_from(children, 0),
    }
}

/// The nodes `cs[i..]` are all decodable.
pub open spec fn dec_wf_from(cs: Seq<NodeModel>, i: int) -> bool
    decreases cs, cs.len() - i,
{
    if 0 <= i < cs.len() {
        dec_wf(cs[i]) && dec_wf_from(cs, i + 1)
    } else {
        true
    }
}

/// A node that must read at least one byte: a leaf, a length prefix, or
/// a group with such a node below it.
pub open spec fn has_reader(m: NodeModel) -> bool
    decreases m, 0int,
{
    match m {
        NodeModel::Leaf { .. } => true,
        NodeModel::NamedField { children, .. } => children.len() == 1 && has_reader(children[0]),
        NodeModel::LengthPrefix { .. } => true,
        NodeModel::KeyedCollection { children, .. } => some_reader_from(children, 0),
        NodeModel::FixedStruct { children, .. } => some_reader_from(children, 0),
        NodeModel::Vector { children, .. } => some_reader_from(children, 0),
        NodeModel::Tuple { children, .. } => some_reader_from(children, 0),
    }
}

/// Some node among `cs[i..]` must read at least one byte.
pub open spec fn some_reader_from(cs: Seq<NodeModel>, i: int) -> bool
    decreases cs, cs.len() - i,
{
    if 0 <= i < cs.len() {
        has_reader(cs[i]) || some_reader_from(cs, i + 1)
    } else {
        false
    }
}

/// Short input: a decodable node that must read at least one byte,
/// decoded against an empty buffer, fails with `UnexpectedEndOfInput` and
/// produces no output entries.
pub proof fn lemma_empty_buffer(m: NodeModel, data: Seq<u8>, pos: int, label: Option<Seq<char>>)
    requires
        dec_wf(m),
        has_reader(m),
        data.len() == 0,
        0 <= pos,
    ensures
        spec_decode(m, data, pos, label) == (DecodeOutcome::Bad {
            entries: Seq::<crate::sadtypes::SadEntryModel>::empty(),
            err: SadDecodeError::UnexpectedEndOfInput,
        }),
    decreases m, 0int,
{
    match m {
        NodeModel::Leaf { tag } => {},
        NodeModel::NamedField { name, children } => {
            lemma_empty_buffer(children[0], data, pos, Some(name));
        },
        NodeModel::LengthPrefix { tag, size_tag, children } => {},
        NodeModel::KeyedCollection { children, .. } => {
            lemma_empty_buffer_seq(children, 0, data, pos, label);
        },
        NodeModel::FixedStruct { children, .. } => {
            lemma_empty_buffer_seq(children, 0, data, pos, label);
        },
        NodeModel::Vector { children, .. } => {
            lemma_empty_buffer_seq(children, 0, data, pos, label);
        },
        NodeModel::Tuple { children, .. } => {
            lemma_empty_buffer_seq(children, 0, data, pos, label);
        },
    }
}

proof fn lemma_empty_buffer_seq(
    cs: Seq<NodeModel>,
    i: int,
    data: Seq<u8>,
    pos: int,
    label: Option<Seq<char>>,
)
    requires
        0 <= i <= cs.len(),
        dec_wf_from(cs, i),
        some_reader_from(cs, i),
        data.len() == 0,
        0 <= pos,
    ensures
        spec_decode_seq(cs, i, data, pos, label) == (DecodeOutcome::Bad {
            entries: Seq::<crate::sadtypes::SadEntryModel>::empty(),
            err: SadDecodeError::UnexpectedEndOfInput,
        }),
    decreases cs, cs.len() - i,
{
    if i < cs.len() {
        if has_reader(cs[i]) {
            lemma_empty_buffer(cs[i], data, pos, label);
        } else {
            lemma_no_reader_empty(cs[i], data, pos, label);
            lemma_empty_buffer_seq(cs, i + 1, data, pos, label);
            assert(Seq::<crate::sadtypes::SadEntryModel>::empty()
                + Seq::<crate::sadtypes::SadEntryModel>::empty() =~= Seq::<
                crate::sadtypes::SadEntryModel,
            >::empty());
        }
    }
}

/// A decodable node with nothing to read consumes nothing and emits
/// nothing on an empty buffer.
proof fn lemma_no_reader_empty(m: NodeModel, data: Seq<u8>, pos: int, label: Option<Seq<char>>)
    requires
        dec_wf(m),
        !has_reader(m),
        data.len() == 0,
        0 <= pos,
    ensures
        spec_decode(m, data, pos, label) == (DecodeOutcome::Good {
            entries: Seq::<crate::sadtypes::SadEntryModel>::empty(),
            end: pos,
        }),
    decreases m, 0int,
{
    match m {
        NodeModel::NamedField { name, children } => {
            lemma_no_reader_empty(children[0], data, pos, Some(name));
        },
        NodeModel::KeyedCollection { children, .. } => {
            lemma_no_reader_empty_seq(children, 0, data, pos, label);
        },
        NodeModel::FixedStruct { children, .. } => {
            lemma_no_reader_empty_seq(children, 0, data, pos, label);
        },
        NodeModel::Vector { children, .. } => {
            lemma_no_reader_empty_seq(children, 0, data, pos, label);
        },
        NodeModel::Tuple { children, .. } => {
            lemma_no_reader_empty_seq(children, 0, data, pos, label);
        },
        _ => {},
    }
}

proof fn lemma_no_reader_empty_seq(
    cs: Seq<NodeModel>,
    i: int,
    data: Seq<u8>,
    pos: int,
    label: Option<Seq<char>>,
)
    requires
        0 <= i <= cs.len(),
        dec_wf_from(cs, i),
        !some_reader_from(cs, i),
        data.len() == 0,
        0 <= pos,
    ensures
        spec_decode_seq(cs, i, data, pos, label) == (DecodeOutcome::Good {
            entries: Seq::<crate::sadtypes::SadEntryModel>::empty(),
            end: pos,
        }),
    decreases cs, cs.len() - i,
{
    if i < cs.len() {
        lemma_no_reader_empty(cs[i], data, pos, label);
        lemma_no_reader_empty_seq(cs, i + 1, data, pos, label);
        assert(Seq::<crate::sadtypes::SadEntryModel>::empty() + Seq::<
            crate::sadtypes::SadEntryModel,
        >::empty() =~= Seq::<crate::sadtypes::SadEntryModel>::empty());
    }
}

/// A `length_prefix` whose count decodes to zero appends no entries and
/// consumes exactly the size type's byte width.
pub proof fn lemma_length_prefix_zero(
    tag: Seq<char>,
    size_tag: Seq<char>,
    children: Seq<NodeModel>,
    data: Seq<u8>,
    pos: int,
    label: Option<Seq<char>>,
    w: nat,
    signed: bool,
)
    requires
        children.len() == 1,
        spec_int_kind(size_tag) == Some((w, signed)),
        0 <= pos,
        pos + w <= data.len(),
        le_uint(data.subrange(pos, pos + w)) == 0,
    ensures
        spec_decode(
            NodeModel::LengthPrefix { tag, size_tag, children },
            data,
            pos,
            label,
        ) == (DecodeOutcome::Good {
            entries: Seq::<crate::sadtypes::SadEntryModel>::empty(),
            end: pos + w,
        }),
{
    crate::sadtypes::lemma_pow256_increases(0, w);
    assert(pow256(0) == 1);
    assert(spec_read_count(size_tag, data, pos) == Ok::<(nat, int), SadDecodeError>(
        (0nat, pos + w),
    ));
    assert(spec_decode_repeat(children[0], 0nat, data, pos + w, label) == (DecodeOutcome::Good {
        entries: Seq::<crate::sadtypes::SadEntryModel>::empty(),
        end: pos + w,
    }));
}

/// Decoding is a function of the tree model, the bytes and the position
/// alone: two passes over the same immutable tree and the same buffer give
/// identical outcomes.
pub proof fn lemma_decode_deterministic(
    t: TreeModel,
    data: Seq<u8>,
    pos: int,
    o1: DecodeOutcome,
    o2: DecodeOutcome,
)
    requires
        o1 == spec_decode_tree(t, data, pos),
        o2 == spec_decode_tree(t, data, pos),
    ensures
        o1 == o2,
{
}

} // verus!
