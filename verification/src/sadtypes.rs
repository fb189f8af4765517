use vstd::prelude::*;
use crate::schema::str_eq;

verus! {

// ----------------------------------------------------------------------------
// The value model: the closed set of kinds the decoder understands.
// ----------------------------------------------------------------------------

/// True iff `s` names one of the recognized value kinds: the fifteen scalar
/// kinds, or one of the structural keywords.
pub open spec fn spec_is_sadvalue_type(s: Seq<char>) -> bool {
    ||| s == "string"@
    ||| s == "bool"@
    ||| s == "u8"@
    ||| s == "u16"@
    ||| s == "u32"@
    ||| s == "u64"@
    ||| s == "u128"@
    ||| s == "i8"@
    ||| s == "i16"@
    ||| s == "i32"@
    ||| s == "i64"@
    ||| s == "i128"@
    ||| s == "f32"@
    ||| s == "f64"@
    ||| s == "pubkey"@
    ||| s == "length_prefix"@
    ||| s == "HashMap"@
    ||| s == "Vec"@
    ||| s == "Tuple"@
    ||| s == "CStruct"@
    ||| s == "NamedField"@
}

/// Recognizer for schema type tags: every node constructor uses it to reject
/// unknown leaf and size types at compile time.
pub fn is_sadvalue_type(in_str: &str) -> (r: bool)
    ensures
        r == spec_is_sadvalue_type(in_str@),
{
    str_eq(in_str, "string") || str_eq(in_str, "bool") || str_eq(in_str, "u8")
        || str_eq(in_str, "u16") || str_eq(in_str, "u32") || str_eq(in_str, "u64")
        || str_eq(in_str, "u128") || str_eq(in_str, "i8") || str_eq(in_str, "i16")
        || str_eq(in_str, "i32") || str_eq(in_str, "i64") || str_eq(in_str, "i128")
        || str_eq(in_str, "f32") || str_eq(in_str, "f64") || str_eq(in_str, "pubkey")
        || str_eq(in_str, "length_prefix") || str_eq(in_str, "HashMap")
        || str_eq(in_str, "Vec") || str_eq(in_str, "Tuple") || str_eq(in_str, "CStruct")
        || str_eq(in_str, "NamedField")
}

/// Distinguishing facts about the kind-name literals: their lengths and
/// leading characters, so that distinct tags can be told apart.
pub proof fn lemma_kind_names()
    ensures
        ("string"@).len() == 6 && ("string"@)[0] == 's',
        ("bool"@).len() == 4 && ("bool"@)[0] == 'b',
        ("u8"@).len() == 2 && ("u8"@)[0] == 'u',
        ("u16"@).len() == 3 && ("u16"@)[0] == 'u' && ("u16"@)[1] == '1',
        ("u32"@).len() == 3 && ("u32"@)[0] == 'u' && ("u32"@)[1] == '3',
        ("u64"@).len() == 3 && ("u64"@)[0] == 'u' && ("u64"@)[1] == '6',
        ("u128"@).len() == 4 && ("u128"@)[0] == 'u',
        ("i8"@).len() == 2 && ("i8"@)[0] == 'i',
        ("i16"@).len() == 3 && ("i16"@)[0] == 'i' && ("i16"@)[1] == '1',
        ("i32"@).len() == 3 && ("i32"@)[0] == 'i' && ("i32"@)[1] == '3',
        ("i64"@).len() == 3 && ("i64"@)[0] == 'i' && ("i64"@)[1] == '6',
        ("i128"@).len() == 4 && ("i128"@)[0] == 'i',
        ("f32"@).len() == 3 && ("f32"@)[0] == 'f' && ("f32"@)[1] == '3',
        ("f64"@).len() == 3 && ("f64"@)[0] == 'f' && ("f64"@)[1] == '6',
        ("pubkey"@).len() == 6 && ("pubkey"@)[0] == 'p',
{
    reveal_strlit("string");
    reveal_strlit("bool");
    reveal_strlit("u8");
    reveal_strlit("u16");
    reveal_strlit("u32");
    reveal_strlit("u64");
    reveal_strlit("u128");
    reveal_strlit("i8");
    reveal_strlit("i16");
    reveal_strlit("i32");
    reveal_strlit("i64");
    reveal_strlit("i128");
    reveal_strlit("f32");
    reveal_strlit("f64");
    reveal_strlit("pubkey");
}

/// Byte width of a fixed-width scalar kind. `string` has no fixed width
/// (its payload is length-prefixed), and structural keywords name no scalar
/// layout: both give `None`.
pub open spec fn spec_fixed_width(tag: Seq<char>) -> Option<nat> {
    if tag == "bool"@ || tag == "u8"@ || tag == "i8"@ {
        Some(1nat)
    } else if tag == "u16"@ || tag == "i16"@ {
        Some(2nat)
    } else if tag == "u32"@ || tag == "i32"@ || tag == "f32"@ {
        Some(4nat)
    } else if tag == "u64"@ || tag == "i64"@ || tag == "f64"@ {
        Some(8nat)
    } else if tag == "u128"@ || tag == "i128"@ {
        Some(16nat)
    } else if tag == "pubkey"@ {
        Some(32nat)
    } else {
        None
    }
}

/// Width in bytes and signedness of an integer kind, the kinds a
/// `length_prefix` node may declare as its size type.
pub open spec fn spec_int_kind(tag: Seq<char>) -> Option<(nat, bool)> {
    if tag == "u8"@ {
        Some((1nat, false))
    } else if tag == "u16"@ {
        Some((2nat, false))
    } else if tag == "u32"@ {
        Some((4nat, false))
    } else if tag == "u64"@ {
        Some((8nat, false))
    } else if tag == "u128"@ {
        Some((16nat, false))
    } else if tag == "i8"@ {
        Some((1nat, true))
    } else if tag == "i16"@ {
        Some((2nat, true))
    } else if tag == "i32"@ {
        Some((4nat, true))
    } else if tag == "i64"@ {
        Some((8nat, true))
    } else if tag == "i128"@ {
        Some((16nat, true))
    } else {
        None
    }
}

// ----------------------------------------------------------------------------
// Decoded values and output entries.
// ----------------------------------------------------------------------------

/// One decoded scalar. Floating-point kinds are carried as their raw
/// little-endian bit patterns; rendering them as numbers is presentation
/// work left to callers.
#[derive(Debug, PartialEq, Eq)]
pub enum SadValue {
    Bool(bool),
    U8(u8),
    U16(u16),
    U32(u32),
    U64(u64),
    U128(u128),
    I8(i8),
    I16(i16),
    I32(i32),
    I64(i64),
    I128(i128),
    F32Bits(u32),
    F64Bits(u64),
    Str(String),
    PubKey(Vec<u8>),
}

/// Mathematical model of a decoded scalar.
pub enum SadValueModel {
    Bool(bool),
    U8(u8),
    U16(u16),
    U32(u32),
    U64(u64),
    U128(u128),
    I8(i8),
    I16(i16),
    I32(i32),
    I64(i64),
    I128(i128),
    F32Bits(u32),
    F64Bits(u64),
    Str(Seq<char>),
    PubKey(Seq<u8>),
}

impl View for SadValue {
    type V = SadValueModel;

    open spec fn view(&self) -> SadValueModel {
        match self {
            SadValue::Bool(v) => SadValueModel::Bool(*v),
            SadValue::U8(v) => SadValueModel::U8(*v),
            SadValue::U16(v) => SadValueModel::U16(*v),
            SadValue::U32(v) => SadValueModel::U32(*v),
            SadValue::U64(v) => SadValueModel::U64(*v),
            SadValue::U128(v) => SadValueModel::U128(*v),
            SadValue::I8(v) => SadValueModel::I8(*v),
            SadValue::I16(v) => SadValueModel::I16(*v),
            SadValue::I32(v) => SadValueModel::I32(*v),
            SadValue::I64(v) => SadValueModel::I64(*v),
            SadValue::I128(v) => SadValueModel::I128(*v),
            SadValue::F32Bits(v) => SadValueModel::F32Bits(*v),
            SadValue::F64Bits(v) => SadValueModel::F64Bits(*v),
            SadValue::Str(s) => SadValueModel::Str(s@),
            SadValue::PubKey(b) => SadValueModel::PubKey(b@),
        }
    }
}

impl DeepView for SadValue {
    type V = SadValueModel;

    open spec fn deep_view(&self) -> SadValueModel {
        self.view()
    }
}

/// One output entry of a decode pass: a decoded scalar, tagged with the
/// nearest enclosing field name when one exists.
#[derive(Debug, PartialEq, Eq)]
pub struct SadEntry {
    pub name: Option<String>,
    pub value: SadValue,
}

/// Mathematical model of an output entry.
pub struct SadEntryModel {
    pub name: Option<Seq<char>>,
    pub value: SadValueModel,
}

impl View for SadEntry {
    type V = SadEntryModel;

    open spec fn view(&self) -> SadEntryModel {
        SadEntryModel {
            name: match self.name {
                Some(s) => Some(s@),
                None => None,
            },
            value: self.value@,
        }
    }
}

impl DeepView for SadEntry {
    type V = SadEntryModel;

    open spec fn deep_view(&self) -> SadEntryModel {
        self.view()
    }
}

// ----------------------------------------------------------------------------
// Little-endian byte arithmetic.
// ----------------------------------------------------------------------------

/// The unsigned integer a byte sequence denotes, little-endian.
pub open spec fn le_uint(s: Seq<u8>) -> nat
    decreases s.len(),
{
    if s.len() == 0 {
        0
    } else {
        (s[0] + 256 * le_uint(s.drop_first())) as nat
    }
}

/// 256 to the power `n`.
pub open spec fn pow256(n: nat) -> nat
    decreases n,
{
    if n == 0 {
        1
    } else {
        256 * pow256((n - 1) as nat)
    }
}

/// A little-endian value is bounded by 256 to the width.
pub proof fn lemma_le_uint_bound(s: Seq<u8>)
    ensures
        le_uint(s) < pow256(s.len()),
    decreases s.len(),
{
    if s.len() > 0 {
        lemma_le_uint_bound(s.drop_first());
    }
}

/// The signed integer a byte sequence denotes: little-endian two's
/// complement.
pub open spec fn le_sint(s: Seq<u8>) -> int {
    if 2 * le_uint(s) < pow256(s.len()) {
        le_uint(s) as int
    } else {
        le_uint(s) - pow256(s.len())
    }
}

// ----------------------------------------------------------------------------
// Verified byte readers.
// ----------------------------------------------------------------------------

/// Reads the `w`-byte little-endian unsigned integer at `pos`, or reports
/// that the buffer is too short.
pub fn read_le_uint(data: &[u8], pos: usize, w: usize) -> (r: Option<u128>)
    requires
        1 <= w <= 16,
    ensures
        match r {
            Some(v) => {
                &&& pos + w <= data@.len()
                &&& v == le_uint(data@.subrange(pos as int, pos + w))
            },
            None => pos + w > data@.len(),
        },
{
    let n = data.len();
    if pos > n || w > n - pos {
        return None;
    }
    let ghost full = data@.subrange(pos as int, pos + w);
    let mut v: u128 = 0;
    let mut j: usize = w;
    proof {
        assert(data@.subrange(pos + j, pos + w).len() == 0);
        reveal_with_fuel(pow256, 18);
    }
    while j > 0
        invariant
            1 <= w <= 16,
            j <= w,
            pos + w <= n,
            n == data@.len(),
            v == le_uint(data@.subrange(pos + j, pos + w)),
            v < pow256((w - j) as nat),
            pow256(16) == 0x1_0000_0000_0000_0000_0000_0000_0000_0000,
        decreases j,
    {
        j = j - 1;
        let b = data[pos + j];
        proof {
            let tail = data@.subrange(pos + j + 1, pos + w);
            let cur = data@.subrange(pos + j, pos + w);
            assert(cur[0] == data@[pos + j]);
            assert(cur.drop_first() =~= tail);
            // the accumulator stays within the width's bound
            assert(pow256((w - j) as nat) == 256 * pow256((w - j - 1) as nat));
            assert(v <= pow256((w - j - 1) as nat) - 1);
            assert(256 * v <= 256 * (pow256((w - j - 1) as nat) - 1)) by (nonlinear_arith)
                requires
                    v <= pow256((w - j - 1) as nat) - 1,
            ;
            assert(pow256((w - j) as nat) <= pow256(16)) by {
                lemma_pow256_increases((w - j) as nat, 16);
            }
        }
        v = v * 256 + b as u128;
    }
    proof {
        assert(data@.subrange(pos as int, pos + w) =~= data@.subrange(pos + 0, pos + w));
    }
    Some(v)
}

/// `pow256` grows with its exponent.
pub proof fn lemma_pow256_increases(a: nat, b: nat)
    requires
        a <= b,
    ensures
        pow256(a) <= pow256(b),
    decreases b,
{
    if a < b {
        lemma_pow256_increases(a, (b - 1) as nat);
        assert(pow256(b) == 256 * pow256((b - 1) as nat));
        assert(256 * pow256((b - 1) as nat) >= 1 * pow256((b - 1) as nat)) by (nonlinear_arith);
    }
}

/// Relies on `String::push`: appends exactly the given character.
#[verifier::external_body]
pub(crate) fn push_char(s: &mut String, c: char)
    ensures
        final(s)@ == old(s)@.push(c),
{
    s.push(c);
}

} // verus!
