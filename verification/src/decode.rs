use vstd::prelude::*;
use crate::desertree::{
    lemma_nodes_view, lemma_nodes_wf_from, node_view, node_wf, nodes_view_from, nodes_wf_from,
    Deseriaizer, Node, NodeModel, SadTree, TreeModel, tree_wf,
};
use crate::errors::SadDecodeError;
use crate::sadtypes::{
    le_uint, le_sint, lemma_le_uint_bound, pow256, push_char, read_le_uint, spec_int_kind,
    SadEntry, SadEntryModel, SadValue, SadValueModel,
};
use crate::schema::str_eq;
use vstd::slice::{slice_subrange, slice_to_vec};

verus! {

// ----------------------------------------------------------------------------
// The decoding engine, specified: a functional interpreter over tree
// models, byte sequences and cursor positions.
// ----------------------------------------------------------------------------

/// The outcome of decoding one node: the entries it appended and either
/// the cursor after it (`Good`) or the failure, with the entries appended
/// before the failure (`Bad`).
#[verifier::ext_equal]
pub enum DecodeOutcome {
    Good { entries: Seq<SadEntryModel>, end: int },
    Bad { entries: Seq<SadEntryModel>, err: SadDecodeError },
}

/// The label carried down to a decoded value: the nearest enclosing field
/// name, if any.
pub open spec fn opt_view(l: Option<String>) -> Option<Seq<char>> {
    match l {
        Some(s) => Some(s@),
        None => None,
    }
}

/// Decoding one leaf. Fixed-width kinds read their width in bytes,
/// little-endian; `bool` accepts only 0 or 1; `string` reads a 4-byte
/// little-endian length and then that many ASCII bytes; a tag that names
/// no scalar layout fails with `UnsupportedType`.
pub open spec fn spec_decode_leaf(
    tag: Seq<char>,
    data: Seq<u8>,
    pos: int,
    label: Option<Seq<char>>,
) -> DecodeOutcome {
    if tag == "string"@ {
        if pos + 4 > data.len() {
            DecodeOutcome::Bad {
                entries: Seq::empty(),
                err: SadDecodeError::UnexpectedEndOfInput,
            }
        } else {
            let slen = le_uint(data.subrange(pos, pos + 4)) as int;
            if pos + 4 + slen > data.len() {
                DecodeOutcome::Bad {
                    entries: Seq::empty(),
                    err: SadDecodeError::UnexpectedEndOfInput,
                }
            } else {
                let bytes = data.subrange(pos + 4, pos + 4 + slen);
                if exists|j: int| 0 <= j < bytes.len() && bytes[j] >= 128 {
                    DecodeOutcome::Bad {
                        entries: Seq::empty(),
                        err: SadDecodeError::InvalidDiscriminant,
                    }
                } else {
                    DecodeOutcome::Good {
                        entries: seq![
                            SadEntryModel {
                                name: label,
                                value: SadValueModel::Str(
                                    bytes.map_values(|b: u8| b as char),
                                ),
                            },
                        ],
                        end: pos + 4 + slen,
                    }
                }
            }
        }
    } else if tag == "bool"@ {
        if pos + 1 > data.len() {
            DecodeOutcome::Bad {
                entries: Seq::empty(),
                err: SadDecodeError::UnexpectedEndOfInput,
            }
        } else if data[pos] == 0 {
            DecodeOutcome::Good {
                entries: seq![SadEntryModel { name: label, value: SadValueModel::Bool(false) }],
                end: pos + 1,
            }
        } else if data[pos] == 1 {
            DecodeOutcome::Good {
                entries: seq![SadEntryModel { name: label, value: SadValueModel::Bool(true) }],
                end: pos + 1,
            }
        } else {
            DecodeOutcome::Bad {
                entries: Seq::empty(),
                err: SadDecodeError::InvalidDiscriminant,
            }
        }
    } else if tag == "u8"@ {
        spec_decode_uint(data, pos, 1, label)
    } else if tag == "u16"@ {
        spec_decode_uint(data, pos, 2, label)
    } else if tag == "u32"@ {
        spec_decode_uint(data, pos, 4, label)
    } else if tag == "u64"@ {
        spec_decode_uint(data, pos, 8, label)
    } else if tag == "u128"@ {
        spec_decode_uint(data, pos, 16, label)
    } else if tag == "i8"@ {
        spec_decode_sint(data, pos, 1, label)
    } else if tag == "i16"@ {
        spec_decode_sint(data, pos, 2, label)
    } else if tag == "i32"@ {
        spec_decode_sint(data, pos, 4, label)
    } else if tag == "i64"@ {
        spec_decode_sint(data, pos, 8, label)
    } else if tag == "i128"@ {
        spec_decode_sint(data, pos, 16, label)
    } else if tag == "f32"@ {
        if pos + 4 > data.len() {
            DecodeOutcome::Bad {
                entries: Seq::empty(),
                err: SadDecodeError::UnexpectedEndOfInput,
            }
        } else {
            DecodeOutcome::Good {
                entries: seq![
                    SadEntryModel {
                        name: label,
                        value: SadValueModel::F32Bits(
                            le_uint(data.subrange(pos, pos + 4)) as u32,
                        ),
                    },
                ],
                end: pos + 4,
            }
        }
    } else if tag == "f64"@ {
        if pos + 8 > data.len() {
            DecodeOutcome::Bad {
                entries: Seq::empty(),
                err: SadDecodeError::UnexpectedEndOfInput,
            }
        } else {
            DecodeOutcome::Good {
                entries: seq![
                    SadEntryModel {
                        name: label,
                        value: SadValueModel::F64Bits(
                            le_uint(data.subrange(pos, pos + 8)) as u64,
                        ),
                    },
                ],
                end: pos + 8,
            }
        }
    } else if tag == "pubkey"@ {
        if pos + 32 > data.len() {
            DecodeOutcome::Bad {
                entries: Seq::empty(),
                err: SadDecodeError::UnexpectedEndOfInput,
            }
        } else {
            DecodeOutcome::Good {
                entries: seq![
                    SadEntryModel {
                        name: label,
                        value: SadValueModel::PubKey(data.subrange(pos, pos + 32)),
                    },
                ],
                end: pos + 32,
            }
        }
    } else {
        DecodeOutcome::Bad { entries: Seq::empty(), err: SadDecodeError::UnsupportedType }
    }
}

/// The value of a `w`-byte unsigned read, as an entry.
pub open spec fn spec_decode_uint(
    data: Seq<u8>,
    pos: int,
    w: int,
    label: Option<Seq<char>>,
) -> DecodeOutcome {
    if pos + w > data.len() {
        DecodeOutcome::Bad { entries: Seq::empty(), err: SadDecodeError::UnexpectedEndOfInput }
    } else {
        let v = le_uint(data.subrange(pos, pos + w));
        let value = if w == 1 {
            SadValueModel::U8(v as u8)
        } else if w == 2 {
            SadValueModel::U16(v as u16)
        } else if w == 4 {
            SadValueModel::U32(v as u32)
        } else if w == 8 {
            SadValueModel::U64(v as u64)
        } else {
            SadValueModel::U128(v as u128)
        };
        DecodeOutcome::Good {
            entries: seq![SadEntryModel { name: label, value: value }],
            end: pos + w,
        }
    }
}

/// The value of a `w`-byte two's-complement read, as an entry.
pub open spec fn spec_decode_sint(
    data: Seq<u8>,
    pos: int,
    w: int,
    label: Option<Seq<char>>,
) -> DecodeOutcome {
    if pos + w > data.len() {
        DecodeOutcome::Bad { entries: Seq::empty(), err: SadDecodeError::UnexpectedEndOfInput }
    } else {
        let v = le_sint(data.subrange(pos, pos + w));
        let value = if w == 1 {
            SadValueModel::I8(v as i8)
        } else if w == 2 {
            SadValueModel::I16(v as i16)
        } else if w == 4 {
            SadValueModel::I32(v as i32)
        } else if w == 8 {
            SadValueModel::I64(v as i64)
        } else {
            SadValueModel::I128(v as i128)
        };
        DecodeOutcome::Good {
            entries: seq![SadEntryModel { name: label, value: value }],
            end: pos + w,
        }
    }
}

/// Reading the repeat count of a `length_prefix` node: the size tag must
/// be an integer kind; the count must be non-negative and fit `usize`.
pub open spec fn spec_read_count(size_tag: Seq<char>, data: Seq<u8>, pos: int) -> Result<
    (nat, int),
    SadDecodeError,
> {
    match spec_int_kind(size_tag) {
        None => Err(SadDecodeError::UnsupportedType),
        Some((w, signed)) => if pos + w > data.len() {
            Err(SadDecodeError::UnexpectedEndOfInput)
        } else {
            let raw = data.subrange(pos, pos + w);
            if signed {
                let v = le_sint(raw);
                if v < 0 || v > usize::MAX as int {
                    Err(SadDecodeError::InvalidDiscriminant)
                } else {
                    Ok((v as nat, pos + w))
                }
            } else {
                let v = le_uint(raw);
                if v > usize::MAX as nat {
                    Err(SadDecodeError::InvalidDiscriminant)
                } else {
                    Ok((v, pos + w))
                }
            }
        },
    }
}

/// Decoding one node at `pos`, with the nearest enclosing field name in
/// `label`.
pub open spec fn spec_decode(
    n: NodeModel,
    data: Seq<u8>,
    pos: int,
    label: Option<Seq<char>>,
) -> DecodeOutcome
    decreases n, 0nat, 0int,
{
    match n {
        NodeModel::Leaf { tag } => spec_decode_leaf(tag, data, pos, label),
        NodeModel::NamedField { name, children } => if children.len() == 1 {
            spec_decode(children[0], data, pos, Some(name))
        } else {
            DecodeOutcome::Bad { entries: Seq::empty(), err: SadDecodeError::UnsupportedType }
        },
        NodeModel::LengthPrefix { tag, size_tag, children } => if children.len() == 1 {
            match spec_read_count(size_tag, data, pos) {
                Ok(cp) => spec_decode_repeat(children[0], cp.0, data, cp.1, label),
                Err(e) => DecodeOutcome::Bad { entries: Seq::empty(), err: e },
            }
        } else {
            DecodeOutcome::Bad { entries: Seq::empty(), err: SadDecodeError::UnsupportedType }
        },
        NodeModel::KeyedCollection { children, .. } => spec_decode_seq(
            children,
            0,
            data,
            pos,
            label,
        ),
        NodeModel::FixedStruct { children, .. } => spec_decode_seq(children, 0, data, pos, label),
        NodeModel::Vector { children, .. } => spec_decode_seq(children, 0, data, pos, label),
        NodeModel::Tuple { children, .. } => spec_decode_seq(children, 0, data, pos, label),
    }
}

/// Decoding the children `cs[i..]` in order, each once, threading the
/// cursor; entries concatenate, and a failure keeps the entries decoded
/// before it.
pub open spec fn spec_decode_seq(
    cs: Seq<NodeModel>,
    i: int,
    data: Seq<u8>,
    pos: int,
    label: Option<Seq<char>>,
) -> DecodeOutcome
    decreases cs, cs.len() - i, 1int,
{
    if 0 <= i < cs.len() {
        match spec_decode(cs[i], data, pos, label) {
            DecodeOutcome::Good { entries, end } => match spec_decode_seq(
                cs,
                i + 1,
                data,
                end,
                label,
            ) {
                DecodeOutcome::Good { entries: rest, end: e2 } => DecodeOutcome::Good {
                    entries: entries + rest,
                    end: e2,
                },
                DecodeOutcome::Bad { entries: rest, err } => DecodeOutcome::Bad {
                    entries: entries + rest,
                    err,
                },
            },
            DecodeOutcome::Bad { entries, err } => DecodeOutcome::Bad { entries, err },
        }
    } else {
        DecodeOutcome::Good { entries: Seq::empty(), end: pos }
    }
}

/// Decoding one child `k` times, threading the cursor. A count of 0 reads
/// nothing and appends nothing.
pub open spec fn spec_decode_repeat(
    c: NodeModel,
    k: nat,
    data: Seq<u8>,
    pos: int,
    label: Option<Seq<char>>,
) -> DecodeOutcome
    decreases c, k, 1int,
{
    if k == 0 {
        DecodeOutcome::Good { entries: Seq::empty(), end: pos }
    } else {
        match spec_decode(c, data, pos, label) {
            DecodeOutcome::Good { entries, end } => match spec_decode_repeat(
                c,
                (k - 1) as nat,
                data,
                end,
                label,
            ) {
                DecodeOutcome::Good { entries: rest, end: e2 } => DecodeOutcome::Good {
                    entries: entries + rest,
                    end: e2,
                },
                DecodeOutcome::Bad { entries: rest, err } => DecodeOutcome::Bad {
                    entries: entries + rest,
                    err,
                },
            },
            DecodeOutcome::Bad { entries, err } => DecodeOutcome::Bad { entries, err },
        }
    }
}

/// Decoding a whole tree: every top-level field once, in declared order,
/// with no enclosing label.
pub open spec fn spec_decode_tree(t: TreeModel, data: Seq<u8>, pos: int) -> DecodeOutcome {
    spec_decode_seq(t.children, 0, data, pos, None)
}

// ----------------------------------------------------------------------------
// The decoding engine, executed.
// ----------------------------------------------------------------------------

/// Appends one decoded value, labelled with the nearest enclosing field
/// name.
fn push_entry(out: &mut Vec<SadEntry>, name: &Option<String>, value: SadValue)
    ensures
        final(out).deep_view() == old(out).deep_view() + seq![
            SadEntryModel { name: opt_view(*name), value: value@ },
        ],
{
    let nm: Option<String> = match name {
        Some(s) => Some(s.clone()),
        None => None,
    };
    let ghost ventry = SadEntryModel { name: opt_view(*name), value: value@ };
    out.push(SadEntry { name: nm, value });
    proof {
        assert(out.deep_view() =~= old(out).deep_view() + seq![ventry]);
    }
}

/// Decodes one leaf value of the given kind at `pos`.
#[verifier::loop_isolation(false)]
#[verifier::rlimit(100)]
fn decode_leaf(
    tag: &String,
    data: &[u8],
    pos: usize,
    label: &Option<String>,
    out: &mut Vec<SadEntry>,
) -> (r: Result<usize, SadDecodeError>)
    ensures
        match spec_decode_leaf(tag@, data@, pos as int, opt_view(*label)) {
            DecodeOutcome::Good { entries, end } => r matches Ok(p) && p == end
                && final(out).deep_view() == old(out).deep_view() + entries,
            DecodeOutcome::Bad { entries, err } => r matches Err(e) && e == err
                && final(out).deep_view() == old(out).deep_view() + entries,
        },
{
    proof {
        reveal_with_fuel(pow256, 18);
        assert(old(out).deep_view() + Seq::<SadEntryModel>::empty() =~= old(out).deep_view());
    }
    let dn = data.len();
    if str_eq(tag.as_str(), "string") {
        match read_le_uint(data, pos, 4) {
            None => Err(SadDecodeError::UnexpectedEndOfInput),
            Some(lv) => {
                proof {
                    lemma_le_uint_bound(data@.subrange(pos as int, pos + 4));
                }
                let slen = lv as usize;
                if slen > dn - (pos + 4) {
                    return Err(SadDecodeError::UnexpectedEndOfInput);
                }
                let ghost bytes = data@.subrange(pos + 4, pos + 4 + slen);
                let mut s = String::new();
                let mut j: usize = 0;
                while j < slen
                    invariant
                        pos + 4 + slen <= data@.len(),
                        j <= slen,
                        bytes == data@.subrange(pos + 4, pos + 4 + slen),
                        s@ == data@.subrange(pos + 4, pos + 4 + j).map_values(
                            |b: u8| b as char,
                        ),
                        forall|k: int| 0 <= k < j ==> bytes[k] < 128,
                    decreases slen - j,
                {
                    let b = data[pos + 4 + j];
                    if b >= 128 {
                        proof {
                            assert(bytes[j as int] == b);
                        }
                        return Err(SadDecodeError::InvalidDiscriminant);
                    }
                    push_char(&mut s, b as char);
                    proof {
                        assert(data@.subrange(pos + 4, pos + 4 + j + 1).map_values(
                            |bb: u8| bb as char,
                        ) =~= data@.subrange(pos + 4, pos + 4 + j).map_values(
                            |bb: u8| bb as char,
                        ).push(b as char));
                    }
                    j = j + 1;
                }
                proof {
                    assert(s@ =~= bytes.map_values(|b: u8| b as char));
                }
                push_entry(out, label, SadValue::Str(s));
                Ok(pos + 4 + slen)
            },
        }
    } else if str_eq(tag.as_str(), "bool") {
        if pos >= dn {
            return Err(SadDecodeError::UnexpectedEndOfInput);
        }
        let b = data[pos];
        if b == 0 {
            push_entry(out, label, SadValue::Bool(false));
            Ok(pos + 1)
        } else if b == 1 {
            push_entry(out, label, SadValue::Bool(true));
            Ok(pos + 1)
        } else {
            Err(SadDecodeError::InvalidDiscriminant)
        }
    } else if str_eq(tag.as_str(), "u8") {
        match read_le_uint(data, pos, 1) {
            None => Err(SadDecodeError::UnexpectedEndOfInput),
            Some(v) => {
                proof {
                    lemma_le_uint_bound(data@.subrange(pos as int, pos + 1));
                }
                push_entry(out, label, SadValue::U8(v as u8));
                Ok(pos + 1)
            },
        }
    } else if str_eq(tag.as_str(), "u16") {
        match read_le_uint(data, pos, 2) {
            None => Err(SadDecodeError::UnexpectedEndOfInput),
            Some(v) => {
                proof {
                    lemma_le_uint_bound(data@.subrange(pos as int, pos + 2));
                }
                push_entry(out, label, SadValue::U16(v as u16));
                Ok(pos + 2)
            },
        }
    } else if str_eq(tag.as_str(), "u32") {
        match read_le_uint(data, pos, 4) {
            None => Err(SadDecodeError::UnexpectedEndOfInput),
            Some(v) => {
                proof {
                    lemma_le_uint_bound(data@.subrange(pos as int, pos + 4));
                }
                push_entry(out, label, SadValue::U32(v as u32));
                Ok(pos + 4)
            },
        }
    } else if str_eq(tag.as_str(), "u64") {
        match read_le_uint(data, pos, 8) {
            None => Err(SadDecodeError::UnexpectedEndOfInput),
            Some(v) => {
                proof {
                    lemma_le_uint_bound(data@.subrange(pos as int, pos + 8));
                }
                push_entry(out, label, SadValue::U64(v as u64));
                Ok(pos + 8)
            },
        }
    } else if str_eq(tag.as_str(), "u128") {
        match read_le_uint(data, pos, 16) {
            None => Err(SadDecodeError::UnexpectedEndOfInput),
            Some(v) => {
                push_entry(out, label, SadValue::U128(v));
                Ok(pos + 16)
            },
        }
    } else if str_eq(tag.as_str(), "i8") {
        match read_le_uint(data, pos, 1) {
            None => Err(SadDecodeError::UnexpectedEndOfInput),
            Some(v) => {
                proof {
                    lemma_le_uint_bound(data@.subrange(pos as int, pos + 1));
                }
                let sv = le_to_signed(v, 1);
                push_entry(out, label, SadValue::I8(sv as i8));
                Ok(pos + 1)
            },
        }
    } else if str_eq(tag.as_str(), "i16") {
        match read_le_uint(data, pos, 2) {
            None => Err(SadDecodeError::UnexpectedEndOfInput),
            Some(v) => {
                proof {
                    lemma_le_uint_bound(data@.subrange(pos as int, pos + 2));
                }
                let sv = le_to_signed(v, 2);
                push_entry(out, label, SadValue::I16(sv as i16));
                Ok(pos + 2)
            },
        }
    } else if str_eq(tag.as_str(), "i32") {
        match read_le_uint(data, pos, 4) {
            None => Err(SadDecodeError::UnexpectedEndOfInput),
            Some(v) => {
                proof {
                    lemma_le_uint_bound(data@.subrange(pos as int, pos + 4));
                }
                let sv = le_to_signed(v, 4);
                push_entry(out, label, SadValue::I32(sv as i32));
                Ok(pos + 4)
            },
        }
    } else if str_eq(tag.as_str(), "i64") {
        match read_le_uint(data, pos, 8) {
            None => Err(SadDecodeError::UnexpectedEndOfInput),
            Some(v) => {
                proof {
                    lemma_le_uint_bound(data@.subrange(pos as int, pos + 8));
                }
                let sv = le_to_signed(v, 8);
                push_entry(out, label, SadValue::I64(sv as i64));
                Ok(pos + 8)
            },
        }
    } else if str_eq(tag.as_str(), "i128") {
        match read_le_uint(data, pos, 16) {
            None => Err(SadDecodeError::UnexpectedEndOfInput),
            Some(v) => {
                proof {
                    lemma_le_uint_bound(data@.subrange(pos as int, pos + 16));
                }
                let sv = le_to_signed(v, 16);
                push_entry(out, label, SadValue::I128(sv));
                Ok(pos + 16)
            },
        }
    } else if str_eq(tag.as_str(), "f32") {
        match read_le_uint(data, pos, 4) {
            None => Err(SadDecodeError::UnexpectedEndOfInput),
            Some(v) => {
                proof {
                    lemma_le_uint_bound(data@.subrange(pos as int, pos + 4));
                }
                push_entry(out, label, SadValue::F32Bits(v as u32));
                Ok(pos + 4)
            },
        }
    } else if str_eq(tag.as_str(), "f64") {
        match read_le_uint(data, pos, 8) {
            None => Err(SadDecodeError::UnexpectedEndOfInput),
            Some(v) => {
                proof {
                    lemma_le_uint_bound(data@.subrange(pos as int, pos + 8));
                }
                push_entry(out, label, SadValue::F64Bits(v as u64));
                Ok(pos + 8)
            },
        }
    } else if str_eq(tag.as_str(), "pubkey") {
        if pos > dn || 32 > dn - pos {
            return Err(SadDecodeError::UnexpectedEndOfInput);
        }
        let chunk = slice_subrange(data, pos, pos + 32);
        let v = slice_to_vec(chunk);
        push_entry(out, label, SadValue::PubKey(v));
        Ok(pos + 32)
    } else {
        Err(SadDecodeError::UnsupportedType)
    }
}

/// Reads the repeat count declared by a `length_prefix` node's size type.
fn read_count(size_tag: &String, data: &[u8], pos: usize) -> (r: Result<
    (usize, usize),
    SadDecodeError,
>)
    ensures
        match spec_read_count(size_tag@, data@, pos as int) {
            Ok(cp) => r matches Ok(x) && x.0 as nat == cp.0 && x.1 as int == cp.1,
            Err(e) => r matches Err(e2) && e2 == e,
        },
{
    proof {
        reveal_with_fuel(pow256, 18);
    }
    let (w, signed): (usize, bool) = if str_eq(size_tag.as_str(), "u8") {
        (1, false)
    } else if str_eq(size_tag.as_str(), "u16") {
        (2, false)
    } else if str_eq(size_tag.as_str(), "u32") {
        (4, false)
    } else if str_eq(size_tag.as_str(), "u64") {
        (8, false)
    } else if str_eq(size_tag.as_str(), "u128") {
        (16, false)
    } else if str_eq(size_tag.as_str(), "i8") {
        (1, true)
    } else if str_eq(size_tag.as_str(), "i16") {
        (2, true)
    } else if str_eq(size_tag.as_str(), "i32") {
        (4, true)
    } else if str_eq(size_tag.as_str(), "i64") {
        (8, true)
    } else if str_eq(size_tag.as_str(), "i128") {
        (16, true)
    } else {
        return Err(SadDecodeError::UnsupportedType);
    };
    let dn = data.len();
    match read_le_uint(data, pos, w) {
        None => Err(SadDecodeError::UnexpectedEndOfInput),
        Some(v) => {
            proof {
                lemma_le_uint_bound(data@.subrange(pos as int, pos + w));
                assert(pos + w <= dn);
            }
            if signed {
                let sv = le_to_signed(v, w);
                if sv < 0 {
                    Err(SadDecodeError::InvalidDiscriminant)
                } else {
                    let uv = sv as u128;
                    if uv > usize::MAX as u128 {
                        Err(SadDecodeError::InvalidDiscriminant)
                    } else {
                        Ok((uv as usize, pos + w))
                    }
                }
            } else {
                if v > usize::MAX as u128 {
                    Err(SadDecodeError::InvalidDiscriminant)
                } else {
                    Ok((v as usize, pos + w))
                }
            }
        },
    }
}

/// Decodes one node at `pos`, appending its entries to `out`; returns the
/// cursor after the node.
#[verifier::loop_isolation(false)]
pub fn decode_node(
    n: &Node,
    data: &[u8],
    pos: usize,
    label: &Option<String>,
    out: &mut Vec<SadEntry>,
) -> (r: Result<usize, SadDecodeError>)
    requires
        node_wf(node_view(*n)),
    ensures
        match spec_decode(node_view(*n), data@, pos as int, opt_view(*label)) {
            DecodeOutcome::Good { entries, end } => r matches Ok(p) && p == end
                && final(out).deep_view() == old(out).deep_view() + entries,
            DecodeOutcome::Bad { entries, err } => r matches Err(e) && e == err
                && final(out).deep_view() == old(out).deep_view() + entries,
        },
    decreases *n, 0nat, 0int,
{
    match n {
        Node::Leaf(x) => decode_leaf(&x.sad_value_type, data, pos, label, out),
        Node::NamedField(x) => {
            proof {
                lemma_nodes_view(x.children@);
                lemma_nodes_wf_from(nodes_view_from(x.children@, 0), 0);
            }
            let lbl2 = Some(x.sad_field_name.clone());
            decode_node(&x.children[0], data, pos, &lbl2, out)
        },
        Node::LengthPrefix(x) => {
            proof {
                lemma_nodes_view(x.children@);
                lemma_nodes_wf_from(nodes_view_from(x.children@, 0), 0);
                assert(old(out).deep_view() + Seq::<SadEntryModel>::empty() =~= old(
                    out,
                ).deep_view());
            }
            match read_count(&x.sad_length_type, data, pos) {
                Ok(cp) => decode_repeat(&x.children[0], cp.0, data, cp.1, label, out),
                Err(e) => Err(e),
            }
        },
        Node::KeyedCollection(x) => decode_children(&x.children, data, pos, label, out),
        Node::FixedStruct(x) => decode_children(&x.children, data, pos, label, out),
        Node::Vector(x) => decode_children(&x.children, data, pos, label, out),
        Node::Tuple(x) => decode_children(&x.children, data, pos, label, out),
    }
}

/// Decodes every child once, in order, threading the cursor.
#[verifier::loop_isolation(false)]
fn decode_children(
    cs: &Vec<Node>,
    data: &[u8],
    pos: usize,
    label: &Option<String>,
    out: &mut Vec<SadEntry>,
) -> (r: Result<usize, SadDecodeError>)
    requires
        nodes_wf_from(nodes_view_from(cs@, 0), 0),
    ensures
        match spec_decode_seq(nodes_view_from(cs@, 0), 0, data@, pos as int, opt_view(*label)) {
            DecodeOutcome::Good { entries, end } => r matches Ok(p) && p == end
                && final(out).deep_view() == old(out).deep_view() + entries,
            DecodeOutcome::Bad { entries, err } => r matches Err(e) && e == err
                && final(out).deep_view() == old(out).deep_view() + entries,
        },
    decreases *cs, 0nat, 1int,
{
    let ghost lv = opt_view(*label);
    let ghost csv = nodes_view_from(cs@, 0);
    proof {
        lemma_nodes_view(cs@);
        lemma_nodes_wf_from(csv, 0);
    }
    let n = cs.len();
    let mut i: usize = 0;
    let mut cur: usize = pos;
    let ghost mut acc: Seq<SadEntryModel> = Seq::empty();
    proof {
        assert(out.deep_view() =~= old(out).deep_view() + acc);
        match spec_decode_seq(csv, 0, data@, pos as int, lv) {
            DecodeOutcome::Good { entries, end } => {
                assert(entries =~= acc + entries);
            },
            DecodeOutcome::Bad { entries, err } => {
                assert(entries =~= acc + entries);
            },
        }
    }
    while i < n
        invariant
            i <= n,
            out.deep_view() == old(out).deep_view() + acc,
            (match spec_decode_seq(csv, 0, data@, pos as int, lv) {
                DecodeOutcome::Good { entries, end } => (match spec_decode_seq(
                    csv,
                    i as int,
                    data@,
                    cur as int,
                    lv,
                ) {
                    DecodeOutcome::Good { entries: rest, end: e2 } => entries == acc + rest
                        && end == e2,
                    DecodeOutcome::Bad { .. } => false,
                }),
                DecodeOutcome::Bad { entries, err } => (match spec_decode_seq(
                    csv,
                    i as int,
                    data@,
                    cur as int,
                    lv,
                ) {
                    DecodeOutcome::Bad { entries: rest, err: e2 } => entries == acc + rest
                        && err == e2,
                    DecodeOutcome::Good { .. } => false,
                }),
            }),
        decreases n - i,
    {
        let ghost acc0 = acc;
        match decode_node(&cs[i], data, cur, label, out) {
            Ok(p2) => {
                proof {
                    match spec_decode(csv[i as int], data@, cur as int, lv) {
                        DecodeOutcome::Good { entries: ei, end } => {
                            acc = acc + ei;
                            match spec_decode_seq(csv, i + 1, data@, p2 as int, lv) {
                                DecodeOutcome::Good { entries: rest, end: e2 } => {
                                    assert(acc0 + (ei + rest) =~= (acc0 + ei) + rest);
                                },
                                DecodeOutcome::Bad { entries: rest, err } => {
                                    assert(acc0 + (ei + rest) =~= (acc0 + ei) + rest);
                                },
                            }
                        },
                        DecodeOutcome::Bad { .. } => {
                            assert(false);
                        },
                    }
                }
                cur = p2;
            },
            Err(e) => {
                proof {
                    match spec_decode(csv[i as int], data@, cur as int, lv) {
                        DecodeOutcome::Bad { entries: ei, err } => {
                            match spec_decode_seq(csv, 0, data@, pos as int, lv) {
                                DecodeOutcome::Good { .. } => {
                                    assert(false);
                                },
                                DecodeOutcome::Bad { entries, err: e2 } => {
                                    assert(entries == acc0 + ei);
                                },
                            }
                        },
                        DecodeOutcome::Good { .. } => {
                            assert(false);
                        },
                    }
                }
                return Err(e);
            },
        }
        i = i + 1;
    }
    proof {
        assert(acc + Seq::<SadEntryModel>::empty() =~= acc);
    }
    Ok(cur)
}

/// Decodes the single repeated child exactly `k` times, threading the
/// cursor.
#[verifier::loop_isolation(false)]
fn decode_repeat(
    c: &Node,
    k: usize,
    data: &[u8],
    pos: usize,
    label: &Option<String>,
    out: &mut Vec<SadEntry>,
) -> (r: Result<usize, SadDecodeError>)
    requires
        node_wf(node_view(*c)),
    ensures
        match spec_decode_repeat(node_view(*c), k as nat, data@, pos as int, opt_view(*label)) {
            DecodeOutcome::Good { entries, end } => r matches Ok(p) && p == end
                && final(out).deep_view() == old(out).deep_view() + entries,
            DecodeOutcome::Bad { entries, err } => r matches Err(e) && e == err
                && final(out).deep_view() == old(out).deep_view() + entries,
        },
    decreases *c, k as nat, 2int,
{
    let ghost lv = opt_view(*label);
    let ghost cm = node_view(*c);
    let mut t: usize = 0;
    let mut cur: usize = pos;
    let ghost mut acc: Seq<SadEntryModel> = Seq::empty();
    proof {
        assert(out.deep_view() =~= old(out).deep_view() + acc);
        match spec_decode_repeat(cm, k as nat, data@, pos as int, lv) {
            DecodeOutcome::Good { entries, end } => {
                assert(entries =~= acc + entries);
            },
            DecodeOutcome::Bad { entries, err } => {
                assert(entries =~= acc + entries);
            },
        }
    }
    while t < k
        invariant
            t <= k,
            out.deep_view() == old(out).deep_view() + acc,
            (match spec_decode_repeat(cm, k as nat, data@, pos as int, lv) {
                DecodeOutcome::Good { entries, end } => (match spec_decode_repeat(
                    cm,
                    (k - t) as nat,
                    data@,
                    cur as int,
                    lv,
                ) {
                    DecodeOutcome::Good { entries: rest, end: e2 } => entries == acc + rest
                        && end == e2,
                    DecodeOutcome::Bad { .. } => false,
                }),
                DecodeOutcome::Bad { entries, err } => (match spec_decode_repeat(
                    cm,
                    (k - t) as nat,
                    data@,
                    cur as int,
                    lv,
                ) {
                    DecodeOutcome::Bad { entries: rest, err: e2 } => entries == acc + rest
                        && err == e2,
                    DecodeOutcome::Good { .. } => false,
                }),
            }),
        decreases k - t,
    {
        let ghost acc0 = acc;
        match decode_node(c, data, cur, label, out) {
            Ok(p2) => {
                proof {
                    match spec_decode(cm, data@, cur as int, lv) {
                        DecodeOutcome::Good { entries: ei, end } => {
                            acc = acc + ei;
                            match spec_decode_repeat(cm, (k - t - 1) as nat, data@, p2 as int, lv) {
                                DecodeOutcome::Good { entries: rest, end: e2 } => {
                                    assert(acc0 + (ei + rest) =~= (acc0 + ei) + rest);
                                },
                                DecodeOutcome::Bad { entries: rest, err } => {
                                    assert(acc0 + (ei + rest) =~= (acc0 + ei) + rest);
                                },
                            }
                        },
                        DecodeOutcome::Bad { .. } => {
                            assert(false);
                        },
                    }
                }
                cur = p2;
            },
            Err(e) => {
                return Err(e);
            },
        }
        t = t + 1;
    }
    proof {
        assert(acc + Seq::<SadEntryModel>::empty() =~= acc);
    }
    Ok(cur)
}

impl SadTree {
    /// One record: decodes every top-level field once, starting at `pos`;
    /// returns the decoded entries and the cursor after the record. This
    /// is the streaming entry point for record-at-a-time decoding.
    pub fn deser_line(&self, data: &[u8], pos: usize) -> (r: Result<
        (Vec<SadEntry>, usize),
        SadDecodeError,
    >)
        requires
            tree_wf(self@),
        ensures
            match spec_decode_tree(self@, data@, pos as int) {
                DecodeOutcome::Good { entries, end } => r matches Ok(x) && x.0.deep_view()
                    == entries && x.1 == end,
                DecodeOutcome::Bad { entries, err } => r matches Err(e) && e == err,
            },
    {
        let mut out: Vec<SadEntry> = Vec::new();
        let label: Option<String> = None;
        proof {
            assert(out.deep_view() =~= Seq::<SadEntryModel>::empty());
        }
        match decode_children(&self.children, data, pos, &label, &mut out) {
            Ok(end) => {
                proof {
                    match spec_decode_tree(self@, data@, pos as int) {
                        DecodeOutcome::Good { entries, end: e2 } => {
                            assert(out.deep_view() =~= Seq::<SadEntryModel>::empty() + entries);
                        },
                        DecodeOutcome::Bad { .. } => {},
                    }
                }
                Ok((out, end))
            },
            Err(e) => Err(e),
        }
    }

    /// One complete decode of the whole schema against one buffer: the
    /// canonical root-level entry point. Equivalent to `deser_line` at
    /// position 0, dropping the final cursor.
    pub fn deser(&self, data: &[u8]) -> (r: Result<Vec<SadEntry>, SadDecodeError>)
        requires
            tree_wf(self@),
        ensures
            match spec_decode_tree(self@, data@, 0) {
                DecodeOutcome::Good { entries, end } => r matches Ok(v) && v.deep_view()
                    == entries,
                DecodeOutcome::Bad { entries, err } => r matches Err(e) && e == err,
            },
    {
        match self.deser_line(data, 0) {
            Ok(x) => Ok(x.0),
            Err(e) => Err(e),
        }
    }
}

impl<'a> Deseriaizer<'a> {
    /// Decodes one account payload against the wrapped tree.
    pub fn deser(&self, data: &[u8]) -> (r: Result<Vec<SadEntry>, SadDecodeError>)
        requires
            tree_wf(self.sad_tree@),
        ensures
            match spec_decode_tree(self.sad_tree@, data@, 0) {
                DecodeOutcome::Good { entries, end } => r matches Ok(v) && v.deep_view()
                    == entries,
                DecodeOutcome::Bad { entries, err } => r matches Err(e) && e == err,
            },
    {
        self.sad_tree.deser(data)
    }
}

/// Two's-complement reading of a `w`-byte unsigned value.
fn le_to_signed(v: u128, w: usize) -> (r: i128)
    requires
        w == 1 || w == 2 || w == 4 || w == 8 || w == 16,
        v < pow256(w as nat),
    ensures
        r == (if 2 * v < pow256(w as nat) {
            v as int
        } else {
            v - pow256(w as nat)
        }),
{
    proof {
        reveal_with_fuel(pow256, 18);
    }
    let half: u128 = if w == 1 {
        0x80
    } else if w == 2 {
        0x8000
    } else if w == 4 {
        0x8000_0000
    } else if w == 8 {
        0x8000_0000_0000_0000
    } else {
        0x8000_0000_0000_0000_0000_0000_0000_0000
    };
    if v < half {
        v as i128
    } else if w == 16 {
        let d = v - half;
        (d as i128) + i128::MIN
    } else {
        (v as i128) - 2 * (half as i128)
    }
}

} // verus!
