use vstd::prelude::*;

verus! {

/// Errors raised while compiling a schema document into a tree.
///
/// Compilation is all-or-nothing: any of these aborts tree construction and
/// no partial tree is returned.
#[derive(Debug)]
pub enum SadTreeError {
    /// A type tag is not a recognized value kind where one was required.
    /// A missing or non-scalar `type` (or `size_type`) entry is reported as
    /// `UnknownType` with an empty tag.
    UnknownType(String),
    /// The root document's single entry must hold a sequence of field entries.
    ExpectedArray,
    /// The document node at hand must be a mapping (with at least one entry).
    ExpectedHashMap,
    /// A `length_prefix` node's `contains` entry was neither a non-empty
    /// sequence nor a mapping.
    ExpectedHashMapOrArray,
    /// A `HashMap` node's `fields` entry was missing or not a sequence.
    ExpectedHashMapFields,
    /// A `CStruct` node's `fields` entry was missing or not a sequence.
    ExpectedCStructFields,
    /// A `Tuple` node's `fields` entry was missing or not a sequence.
    ExpectedTupleFields,
    /// A `Vec` node's `contains` entry was missing or not a sequence.
    ExpectedVecContains,
}

/// Mathematical model of `SadTreeError`: the tag payload as a character sequence.
pub enum SadTreeErrorModel {
    UnknownType(Seq<char>),
    ExpectedArray,
    ExpectedHashMap,
    ExpectedHashMapOrArray,
    ExpectedHashMapFields,
    ExpectedCStructFields,
    ExpectedTupleFields,
    ExpectedVecContains,
}

impl View for SadTreeError {
    type V = SadTreeErrorModel;

    open spec fn view(&self) -> SadTreeErrorModel {
        match self {
            SadTreeError::UnknownType(t) => SadTreeErrorModel::UnknownType(t@),
            SadTreeError::ExpectedArray => SadTreeErrorModel::ExpectedArray,
            SadTreeError::ExpectedHashMap => SadTreeErrorModel::ExpectedHashMap,
            SadTreeError::ExpectedHashMapOrArray => SadTreeErrorModel::ExpectedHashMapOrArray,
            SadTreeError::ExpectedHashMapFields => SadTreeErrorModel::ExpectedHashMapFields,
            SadTreeError::ExpectedCStructFields => SadTreeErrorModel::ExpectedCStructFields,
            SadTreeError::ExpectedTupleFields => SadTreeErrorModel::ExpectedTupleFields,
            SadTreeError::ExpectedVecContains => SadTreeErrorModel::ExpectedVecContains,
        }
    }
}

/// Errors raised during one decode pass over a byte buffer.
///
/// A decode error aborts only the pass at hand; the schema tree is never
/// touched by decoding, so later passes over other buffers are unaffected.
#[derive(Debug, Clone, Copy, PartialEq, Eq, Structural)]
pub enum SadDecodeError {
    /// The buffer holds fewer bytes than the current node requires.
    UnexpectedEndOfInput,
    /// A decoded value is outside the domain the decoder can handle:
    /// a boolean byte other than 0 or 1, a negative repeat count, a count
    /// beyond `usize`, or a non-ASCII byte inside a string payload.
    InvalidDiscriminant,
    /// The declared tag names no decodable layout where one is needed: a
    /// leaf whose tag is not a scalar kind, or a `length_prefix` whose size
    /// type is not an integer kind.
    UnsupportedType,
}

} // verus!
