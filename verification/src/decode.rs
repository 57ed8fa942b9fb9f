//! The executable decoder, proved equal to the specification parser.
//!
//! Each function works on the range `lo..hi` of the input vector and is
//! proved to answer exactly what the corresponding `wire` parse function
//! answers on that range: a parsed tree where the bytes are a well-formed
//! encoding, a typed fault where they are not.  The decoder is total: it
//! never panics, whatever the bytes hold.

use vstd::prelude::*;
use crate::doc::{BsonValue, BsonField, field_model, fields_model, value_model,
    lemma_fields_model_push, TAG_TEXT, TAG_DOC, TAG_ARRAY, TAG_BOOLEAN, TAG_NULL, TAG_INT32,
    TAG_INT64, FieldModel};
use crate::error::MalformedReason;
use crate::wire::{parse_doc, parse_fields, parse_elem, parse_value, find_zero, lemma_sub_sub,
    lemma_find_zero_at, lemma_find_zero_none, copy_range, read_u32, read_u64, i32_from_u32,
    i64_from_u64};

verus! {

/// Joins an already-parsed prefix with the parse of the remaining bytes.
pub open spec fn join_parsed(prefix: Seq<FieldModel>, rest: Option<Seq<FieldModel>>) -> Option<
    Seq<FieldModel>,
> {
    match rest {
        Option::Some(s) => Some(prefix + s),
        Option::None => None,
    }
}

/// Decodes the whole document occupying `lo..hi` of `b`.
pub fn parse_doc_at(b: &Vec<u8>, lo: usize, hi: usize) -> (r: Result<
    Vec<BsonField>,
    MalformedReason,
>)
    requires
        lo <= hi <= b@.len(),
    ensures
        match r {
            Result::Ok(fs) => parse_doc(b@.subrange(lo as int, hi as int)) == Some(
                fields_model(fs@),
            ),
            Result::Err(_) => parse_doc(b@.subrange(lo as int, hi as int)) is None,
        },
    decreases hi - lo, 0int,
{
    let ghost sub = b@.subrange(lo as int, hi as int);
    if hi - lo < 5 {
        return Err(MalformedReason::Truncated);
    }
    let total = read_u32(b, lo);
    proof {
        lemma_sub_sub(b@, lo as int, hi as int, 0, 4);
    }
    if (total as u64) != ((hi - lo) as u64) {
        return Err(MalformedReason::LengthMismatch);
    }
    if b[hi - 1] != 0u8 {
        proof {
            assert(sub[sub.len() - 1] == b@[hi - 1]);
        }
        return Err(MalformedReason::LengthMismatch);
    }
    proof {
        assert(sub[sub.len() - 1] == b@[hi - 1]);
        lemma_sub_sub(b@, lo as int, hi as int, 4, hi - lo - 1);
    }
    match parse_fields_at(b, lo + 4, hi - 1) {
        Result::Ok(fs) => Ok(fs),
        Result::Err(e) => Err(e),
    }
}

/// Decodes the run of elements filling `lo..hi` of `b` exactly.
pub fn parse_fields_at(b: &Vec<u8>, lo: usize, hi: usize) -> (r: Result<
    Vec<BsonField>,
    MalformedReason,
>)
    requires
        lo <= hi <= b@.len(),
    ensures
        match r {
            Result::Ok(fs) => parse_fields(b@.subrange(lo as int, hi as int)) == Some(
                fields_model(fs@),
            ),
            Result::Err(_) => parse_fields(b@.subrange(lo as int, hi as int)) is None,
        },
    decreases hi - lo, 3int,
{
    let ghost whole = b@.subrange(lo as int, hi as int);
    let mut acc: Vec<BsonField> = Vec::new();
    let mut pos: usize = lo;
    while pos < hi
        invariant
            lo <= pos <= hi <= b@.len(),
            parse_fields(whole) == join_parsed(
                fields_model(acc@),
                parse_fields(b@.subrange(pos as int, hi as int)),
            ),
            whole == b@.subrange(lo as int, hi as int),
        decreases hi - pos,
    {
        let ghost rest = b@.subrange(pos as int, hi as int);
        match parse_elem_at(b, pos, hi) {
            Result::Ok((f, n)) => {
                proof {
                    let rest2 = b@.subrange(pos as int + n, hi as int);
                    lemma_sub_sub(b@, pos as int, hi as int, n as int, hi - pos);
                    assert(parse_fields(rest) == join_parsed(
                        seq![field_model(f)],
                        parse_fields(rest2),
                    ));
                    lemma_fields_model_push(acc@, f);
                    if parse_fields(rest2) is Some {
                        let t = parse_fields(rest2)->Some_0;
                        assert(fields_model(acc@) + (seq![field_model(f)] + t) =~= fields_model(
                            acc@.push(f),
                        ) + t);
                    }
                }
                acc.push(f);
                pos = pos + n;
            },
            Result::Err(e) => {
                return Err(e);
            },
        }
    }
    proof {
        assert(b@.subrange(pos as int, hi as int) =~= Seq::<u8>::empty());
        assert(fields_model(acc@) + Seq::<FieldModel>::empty() =~= fields_model(acc@));
    }
    Ok(acc)
}

/// Decodes one element at the head of `lo..hi` of `b`.
pub fn parse_elem_at(b: &Vec<u8>, lo: usize, hi: usize) -> (r: Result<
    (BsonField, usize),
    MalformedReason,
>)
    requires
        lo <= hi <= b@.len(),
    ensures
        match r {
            Result::Ok((f, n)) => parse_elem(b@.subrange(lo as int, hi as int)) == Some(
                (field_model(f), n as int),
            ) && 1 <= n <= hi - lo,
            Result::Err(_) => parse_elem(b@.subrange(lo as int, hi as int)) is None,
        },
    decreases hi - lo, 2int,
{
    let ghost sub = b@.subrange(lo as int, hi as int);
    if hi - lo < 2 {
        return Err(MalformedReason::Truncated);
    }
    let tag = b[lo];
    proof {
        assert(sub[0] == b@[lo as int]);
    }
    let mut z: usize = lo + 1;
    while z < hi && b[z] != 0u8
        invariant
            lo + 1 <= z <= hi <= b@.len(),
            forall|j: int| lo + 1 <= j < z ==> b@[j] != 0u8,
        decreases hi - z,
    {
        z = z + 1;
    }
    if z == hi {
        proof {
            assert forall|j: int| 1 <= j < sub.len() implies sub[j] != 0u8 by {
                assert(sub[j] == b@[lo + j]);
            }
            lemma_find_zero_none(sub, 1);
        }
        return Err(MalformedReason::Truncated);
    }
    proof {
        assert(sub[z - lo] == b@[z as int]);
        assert forall|j: int| 1 <= j < z - lo implies sub[j] != 0u8 by {
            assert(sub[j] == b@[lo + j]);
        }
        lemma_find_zero_at(sub, 1, z - lo);
    }
    let name = copy_range(b, lo + 1, z);
    proof {
        lemma_sub_sub(b@, lo as int, hi as int, z + 1 - lo, hi - lo);
        lemma_sub_sub(b@, lo as int, hi as int, 1, z - lo);
    }
    match parse_value_at(b, tag, z + 1, hi) {
        Result::Ok((v, m)) => {
            Ok((BsonField { name, value: v }, z - lo + 1 + m))
        },
        Result::Err(e) => Err(e),
    }
}

/// Decodes one payload of type `tag` at the head of `lo..hi` of `b`.
pub fn parse_value_at(b: &Vec<u8>, tag: u8, lo: usize, hi: usize) -> (r: Result<
    (BsonValue, usize),
    MalformedReason,
>)
    requires
        lo <= hi <= b@.len(),
    ensures
        match r {
            Result::Ok((v, m)) => parse_value(tag, b@.subrange(lo as int, hi as int)) == Some(
                (value_model(v), m as int),
            ) && m <= hi - lo,
            Result::Err(_) => parse_value(tag, b@.subrange(lo as int, hi as int)) is None,
        },
    decreases hi - lo, 1int,
{
    let ghost sub = b@.subrange(lo as int, hi as int);
    if tag == TAG_TEXT {
        if hi - lo < 4 {
            return Err(MalformedReason::Truncated);
        }
        let l32 = read_u32(b, lo);
        proof {
            lemma_sub_sub(b@, lo as int, hi as int, 0, 4);
        }
        if l32 == 0 {
            return Err(MalformedReason::InvalidValue);
        }
        if (l32 as u64) + 4 > ((hi - lo) as u64) {
            return Err(MalformedReason::Truncated);
        }
        let l = l32 as usize;
        if b[lo + 4 + l - 1] != 0u8 {
            proof {
                assert(sub[4 + l - 1] == b@[lo + 4 + l - 1]);
            }
            return Err(MalformedReason::LengthMismatch);
        }
        proof {
            assert(sub[4 + l - 1] == b@[lo + 4 + l - 1]);
            lemma_sub_sub(b@, lo as int, hi as int, 4, 4 + l - 1);
        }
        let content = copy_range(b, lo + 4, lo + 4 + l - 1);
        Ok((BsonValue::Text(content), 4 + l))
    } else if tag == TAG_DOC || tag == TAG_ARRAY {
        if hi - lo < 4 {
            return Err(MalformedReason::Truncated);
        }
        let l32 = read_u32(b, lo);
        proof {
            lemma_sub_sub(b@, lo as int, hi as int, 0, 4);
        }
        if l32 < 5 {
            return Err(MalformedReason::LengthMismatch);
        }
        if (l32 as u64) > ((hi - lo) as u64) {
            return Err(MalformedReason::Truncated);
        }
        let l = l32 as usize;
        proof {
            lemma_sub_sub(b@, lo as int, hi as int, 0, l as int);
        }
        match parse_doc_at(b, lo, lo + l) {
            Result::Ok(fs) => {
                if tag == TAG_DOC {
                    Ok((BsonValue::Doc(fs), l))
                } else {
                    Ok((BsonValue::Array(fs), l))
                }
            },
            Result::Err(e) => Err(e),
        }
    } else if tag == TAG_BOOLEAN {
        if hi - lo < 1 {
            return Err(MalformedReason::Truncated);
        }
        proof {
            assert(sub[0] == b@[lo as int]);
        }
        let byte = b[lo];
        if byte == 0u8 {
            Ok((BsonValue::Boolean(false), 1))
        } else if byte == 1u8 {
            Ok((BsonValue::Boolean(true), 1))
        } else {
            Err(MalformedReason::InvalidValue)
        }
    } else if tag == TAG_NULL {
        Ok((BsonValue::Null, 0))
    } else if tag == TAG_INT32 {
        if hi - lo < 4 {
            return Err(MalformedReason::Truncated);
        }
        let raw = read_u32(b, lo);
        proof {
            lemma_sub_sub(b@, lo as int, hi as int, 0, 4);
        }
        Ok((BsonValue::Int32(i32_from_u32(raw)), 4))
    } else if tag == TAG_INT64 {
        if hi - lo < 8 {
            return Err(MalformedReason::Truncated);
        }
        let raw = read_u64(b, lo);
        proof {
            lemma_sub_sub(b@, lo as int, hi as int, 0, 8);
        }
        Ok((BsonValue::Int64(i64_from_u64(raw)), 8))
    } else {
        Err(MalformedReason::InvalidTag)
    }
}

/// Decodes one whole document from `bytes`: the entry point of the decoder.
pub fn parse_document(bytes: &Vec<u8>) -> (r: Result<Vec<BsonField>, MalformedReason>)
    ensures
        match r {
            Result::Ok(fs) => parse_doc(bytes@) == Some(fields_model(fs@)),
            Result::Err(_) => parse_doc(bytes@) is None,
        },
{
    proof {
        assert(bytes@.subrange(0, bytes@.len() as int) =~= bytes@);
    }
    parse_doc_at(bytes, 0, bytes.len())
}

} // verus!
