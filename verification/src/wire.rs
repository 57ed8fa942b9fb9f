//! The wire format: the encoding of a document and its parser, at the
//! specification level.
//!
//! A document is a 4-byte little-endian total length (which counts itself
//! and the trailing zero byte), a run of elements, and a zero byte.  An
//! element is a type tag, a zero-terminated name, and a tagged payload.
//! `enc_doc` states the encoding; `parse_doc` states the parse of an
//! arbitrary byte sequence, returning `None` where the bytes are not an
//! encoding.  Executable code mirrors these functions and is proved against
//! them.

use vstd::prelude::*;
use vstd::bytes::{spec_u32_to_le_bytes, spec_u32_from_le_bytes, spec_u64_to_le_bytes,
    spec_u64_from_le_bytes};
use crate::doc::{ValModel, FieldModel, TAG_TEXT, TAG_DOC, TAG_ARRAY, TAG_BOOLEAN, TAG_NULL,
    TAG_INT32, TAG_INT64};

verus! {

/// Largest value the 4-byte length header may carry: a document longer than
/// a signed 32-bit integer cannot be encoded.
pub const MAX_DOC_LEN: u32 = 0x7fff_ffff;

/// The unsigned 32-bit number with the same two's-complement bits as `x`.
pub open spec fn u32_of_i32(x: i32) -> u32 {
    if x >= 0 {
        x as u32
    } else {
        (x as int + 0x1_0000_0000) as u32
    }
}

/// The signed 32-bit number with the same two's-complement bits as `x`.
pub open spec fn i32_of_u32(x: u32) -> i32 {
    if x < 0x8000_0000 {
        x as i32
    } else {
        (x as int - 0x1_0000_0000) as i32
    }
}

/// The unsigned 64-bit number with the same two's-complement bits as `x`.
pub open spec fn u64_of_i64(x: i64) -> u64 {
    if x >= 0 {
        x as u64
    } else {
        (x as int + 0x1_0000_0000_0000_0000) as u64
    }
}

/// The signed 64-bit number with the same two's-complement bits as `x`.
pub open spec fn i64_of_u64(x: u64) -> i64 {
    if x < 0x8000_0000_0000_0000 {
        x as i64
    } else {
        (x as int - 0x1_0000_0000_0000_0000) as i64
    }
}

/// The two's-complement views are mutually inverse.
pub proof fn lemma_i32_u32_inverse(x: i32)
    ensures
        i32_of_u32(u32_of_i32(x)) == x,
{
}

/// The two's-complement views are mutually inverse.
pub proof fn lemma_i64_u64_inverse(x: i64)
    ensures
        i64_of_u64(u64_of_i64(x)) == x,
{
}

/// Converts to the unsigned number with the same bits.
pub fn u32_from_i32(x: i32) -> (r: u32)
    ensures
        r == u32_of_i32(x),
{
    if x >= 0 {
        x as u32
    } else {
        (((x as i64) + 0x1_0000_0000i64) as u64) as u32
    }
}

/// Converts to the signed number with the same bits.
pub fn i32_from_u32(x: u32) -> (r: i32)
    ensures
        r == i32_of_u32(x),
{
    if x < 0x8000_0000 {
        x as i32
    } else {
        ((x as i64) - 0x1_0000_0000i64) as i32
    }
}

/// Converts to the unsigned number with the same bits.
pub fn u64_from_i64(x: i64) -> (r: u64)
    ensures
        r == u64_of_i64(x),
{
    if x >= 0 {
        x as u64
    } else {
        let mag: u64 = (-(x + 1)) as u64;
        0xffff_ffff_ffff_ffffu64 - mag
    }
}

/// Converts to the signed number with the same bits.
pub fn i64_from_u64(x: u64) -> (r: i64)
    ensures
        r == i64_of_u64(x),
{
    if x < 0x8000_0000_0000_0000 {
        x as i64
    } else {
        let mag: u64 = 0xffff_ffff_ffff_ffffu64 - x;
        -1i64 - (mag as i64)
    }
}

/// The 4-byte little-endian encoding of a length.
pub open spec fn le4(n: int) -> Seq<u8> {
    spec_u32_to_le_bytes(n as u32)
}

/// The type tag that an encoded value carries.
pub open spec fn spec_tag(v: ValModel) -> u8 {
    match v {
        ValModel::Text(_) => TAG_TEXT,
        ValModel::Doc(_) => TAG_DOC,
        ValModel::Array(_) => TAG_ARRAY,
        ValModel::Int32(_) => TAG_INT32,
        ValModel::Int64(_) => TAG_INT64,
        ValModel::Boolean(_) => TAG_BOOLEAN,
        ValModel::Null => TAG_NULL,
    }
}

/// The encoding of one value's payload.
pub open spec fn enc_value(v: ValModel) -> Seq<u8>
    decreases v, 0int,
{
    match v {
        ValModel::Text(s) => le4(s.len() as int + 1) + s + seq![0u8],
        ValModel::Doc(fs) => enc_doc(fs),
        ValModel::Array(fs) => enc_doc(fs),
        ValModel::Int32(x) => spec_u32_to_le_bytes(u32_of_i32(x)),
        ValModel::Int64(x) => spec_u64_to_le_bytes(u64_of_i64(x)),
        ValModel::Boolean(t) => seq![if t { 1u8 } else { 0u8 }],
        ValModel::Null => Seq::empty(),
    }
}

/// The encoding of one element: tag, zero-terminated name, payload.
pub open spec fn enc_elem(f: FieldModel) -> Seq<u8>
    decreases f, 0int,
{
    seq![spec_tag(f.value)] + f.name + seq![0u8] + enc_value(f.value)
}

/// The concatenated encodings of a run of elements.
pub open spec fn enc_fields(fs: Seq<FieldModel>) -> Seq<u8>
    decreases fs, 0int,
{
    if fs.len() == 0 {
        Seq::empty()
    } else {
        enc_elem(fs[0]) + enc_fields(fs.subrange(1, fs.len() as int))
    }
}

/// The encoding of a whole document.
pub open spec fn enc_doc(fs: Seq<FieldModel>) -> Seq<u8>
    decreases fs, 1int,
{
    le4(enc_fields(fs).len() as int + 5) + enc_fields(fs) + seq![0u8]
}

/// A value that can be encoded: every string and sub-document fits the
/// 4-byte length header.
pub open spec fn wf_value(v: ValModel) -> bool
    decreases v, 1int,
{
    match v {
        ValModel::Text(s) => s.len() + 1 <= MAX_DOC_LEN,
        ValModel::Doc(fs) => wf_doc(fs),
        ValModel::Array(fs) => wf_doc(fs),
        _ => true,
    }
}

/// A field that can be encoded: its name carries no zero byte (the wire
/// format terminates names with one) and its value is well-formed.
pub open spec fn wf_field(f: FieldModel) -> bool
    decreases f, 1int,
{
    &&& forall|j: int| 0 <= j < f.name.len() ==> f.name[j] != 0u8
    &&& wf_value(f.value)
}

/// Every field of the run is well-formed.
pub open spec fn wf_fields(fs: Seq<FieldModel>) -> bool
    decreases fs, 2int,
{
    forall|i: int| 0 <= i < fs.len() ==> wf_field(#[trigger] fs[i])
}

/// A document that can be encoded: well-formed fields, total size within
/// the length header's range.
pub open spec fn wf_doc(fs: Seq<FieldModel>) -> bool
    decreases fs, 3int,
{
    wf_fields(fs) && enc_fields(fs).len() + 5 <= MAX_DOC_LEN
}

/// Index of the first zero byte of `b` at or after `i`, if any.
pub open spec fn find_zero(b: Seq<u8>, i: int) -> Option<int>
    decreases b.len() - i,
{
    if i < 0 || i >= b.len() {
        None
    } else if b[i] == 0u8 {
        Some(i)
    } else {
        find_zero(b, i + 1)
    }
}

/// `find_zero` returns the first zero: where the bytes before `z` are
/// non-zero and `b[z]` is zero, it answers `z`.
pub proof fn lemma_find_zero_at(b: Seq<u8>, i: int, z: int)
    requires
        0 <= i <= z < b.len(),
        b[z] == 0u8,
        forall|j: int| i <= j < z ==> b[j] != 0u8,
    ensures
        find_zero(b, i) == Some(z),
    decreases z - i,
{
    if i < z {
        lemma_find_zero_at(b, i + 1, z);
    }
}

/// Where no byte at or after `i` is zero, `find_zero` answers `None`.
pub proof fn lemma_find_zero_none(b: Seq<u8>, i: int)
    requires
        0 <= i,
        forall|j: int| i <= j < b.len() ==> b[j] != 0u8,
    ensures
        find_zero(b, i) is None,
    decreases b.len() - i,
{
    if i < b.len() {
        lemma_find_zero_none(b, i + 1);
    }
}

/// The parse of a whole document from `b`: the total length header must
/// count exactly the bytes present, and the final byte must be zero.
pub open spec fn parse_doc(b: Seq<u8>) -> Option<Seq<FieldModel>>
    decreases b.len(), 0int,
{
    if b.len() < 5 {
        None
    } else if spec_u32_from_le_bytes(b.subrange(0, 4)) as int != b.len() {
        None
    } else if b[b.len() - 1] != 0u8 {
        None
    } else {
        parse_fields(b.subrange(4, b.len() - 1))
    }
}

/// The parse of a run of elements filling `b` exactly.
pub open spec fn parse_fields(b: Seq<u8>) -> Option<Seq<FieldModel>>
    decreases b.len(), 3int,
{
    if b.len() == 0 {
        Some(Seq::empty())
    } else {
        match parse_elem(b) {
            Option::None => None,
            Option::Some((f, n)) => {
                if 1 <= n <= b.len() {
                    match parse_fields(b.subrange(n, b.len() as int)) {
                        Option::None => None,
                        Option::Some(rest) => Some(seq![f] + rest),
                    }
                } else {
                    None
                }
            },
        }
    }
}

/// The parse of one element at the head of `b`; answers the element and the
/// count of bytes it occupies.
pub open spec fn parse_elem(b: Seq<u8>) -> Option<(FieldModel, int)>
    decreases b.len(), 2int,
{
    if b.len() < 2 {
        None
    } else {
        match find_zero(b, 1) {
            Option::None => None,
            Option::Some(z) => if z < 1 || z >= b.len() {
                None
            } else {
                match parse_value(b[0], b.subrange(z + 1, b.len() as int)) {
                    Option::None => None,
                    Option::Some((v, m)) => Some(
                        (FieldModel { name: b.subrange(1, z), value: v }, z + 1 + m),
                    ),
                }
            },
        }
    }
}

/// The parse of one payload of type `tag` at the head of `b`; answers the
/// value and the count of bytes it occupies.
pub open spec fn parse_value(tag: u8, b: Seq<u8>) -> Option<(ValModel, int)>
    decreases b.len(), 1int,
{
    if tag == TAG_TEXT {
        if b.len() < 4 {
            None
        } else {
            let l = spec_u32_from_le_bytes(b.subrange(0, 4)) as int;
            if l < 1 || 4 + l > b.len() {
                None
            } else if b[4 + l - 1] != 0u8 {
                None
            } else {
                Some((ValModel::Text(b.subrange(4, 4 + l - 1)), 4 + l))
            }
        }
    } else if tag == TAG_DOC || tag == TAG_ARRAY {
        if b.len() < 4 {
            None
        } else {
            let l = spec_u32_from_le_bytes(b.subrange(0, 4)) as int;
            if l < 5 || l > b.len() {
                None
            } else {
                match parse_doc(b.subrange(0, l)) {
                    Option::None => None,
                    Option::Some(fs) => Some(
                        (
                            if tag == TAG_DOC {
                                ValModel::Doc(fs)
                            } else {
                                ValModel::Array(fs)
                            },
                            l,
                        ),
                    ),
                }
            }
        }
    } else if tag == TAG_BOOLEAN {
        if b.len() < 1 {
            None
        } else if b[0] == 0u8 {
            Some((ValModel::Boolean(false), 1))
        } else if b[0] == 1u8 {
            Some((ValModel::Boolean(true), 1))
        } else {
            None
        }
    } else if tag == TAG_NULL {
        Some((ValModel::Null, 0))
    } else if tag == TAG_INT32 {
        if b.len() < 4 {
            None
        } else {
            Some((ValModel::Int32(i32_of_u32(spec_u32_from_le_bytes(b.subrange(0, 4)))), 4))
        }
    } else if tag == TAG_INT64 {
        if b.len() < 8 {
            None
        } else {
            Some((ValModel::Int64(i64_of_u64(spec_u64_from_le_bytes(b.subrange(0, 8)))), 8))
        }
    } else {
        None
    }
}

/// Copies the bytes of `b` at `from..to` into a fresh vector.
pub fn copy_range(b: &Vec<u8>, from: usize, to: usize) -> (r: Vec<u8>)
    requires
        from <= to <= b@.len(),
    ensures
        r@ == b@.subrange(from as int, to as int),
{
    let mut r: Vec<u8> = Vec::new();
    let mut i: usize = from;
    while i < to
        invariant
            from <= i <= to <= b@.len(),
            r@ == b@.subrange(from as int, i as int),
        decreases to - i,
    {
        r.push(b[i]);
        proof {
            assert(r@ =~= b@.subrange(from as int, i as int + 1));
        }
        i = i + 1;
    }
    r
}

/// Reads the 4-byte little-endian number at `at`.
pub fn read_u32(b: &Vec<u8>, at: usize) -> (r: u32)
    requires
        at + 4 <= b@.len(),
    ensures
        r == spec_u32_from_le_bytes(b@.subrange(at as int, at as int + 4)),
{
    let len = b.len();
    assert(at + 4 <= len);
    let four = copy_range(b, at, at + 4);
    vstd::bytes::u32_from_le_bytes(four.as_slice())
}

/// Reads the 8-byte little-endian number at `at`.
pub fn read_u64(b: &Vec<u8>, at: usize) -> (r: u64)
    requires
        at + 8 <= b@.len(),
    ensures
        r == spec_u64_from_le_bytes(b@.subrange(at as int, at as int + 8)),
{
    let len = b.len();
    assert(at + 8 <= len);
    let eight = copy_range(b, at, at + 8);
    vstd::bytes::u64_from_le_bytes(eight.as_slice())
}

/// A subrange of a subrange is a subrange of the whole.
pub proof fn lemma_sub_sub(b: Seq<u8>, lo: int, hi: int, k: int, m: int)
    requires
        0 <= lo <= hi <= b.len(),
        0 <= k <= m <= hi - lo,
    ensures
        b.subrange(lo, hi).subrange(k, m) == b.subrange(lo + k, lo + m),
{
    assert(b.subrange(lo, hi).subrange(k, m) =~= b.subrange(lo + k, lo + m));
}

} // verus!
