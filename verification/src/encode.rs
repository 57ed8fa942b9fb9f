//! The executable encoder, proved to produce exactly the specified
//! encoding of a well-formed document.

use vstd::prelude::*;
use vstd::bytes::{u32_to_le_bytes, u64_to_le_bytes};
use crate::doc::{BsonValue, BsonField, field_model, fields_model, value_model,
    lemma_fields_model_index, TAG_TEXT, TAG_DOC, TAG_ARRAY, TAG_BOOLEAN, TAG_NULL, TAG_INT32,
    TAG_INT64, FieldModel};
use crate::wire::{enc_value, enc_elem, enc_fields, enc_doc, wf_value, wf_field, wf_fields, wf_doc,
    spec_tag, copy_range, u32_from_i32, u64_from_i64, MAX_DOC_LEN};

verus! {

/// Appending a field appends its element encoding.
pub proof fn lemma_enc_fields_push(fs: Seq<FieldModel>, f: FieldModel)
    ensures
        enc_fields(fs.push(f)) == enc_fields(fs) + enc_elem(f),
    decreases fs.len(),
{
    let whole = fs.push(f);
    if fs.len() == 0 {
        assert(whole.subrange(1, whole.len() as int) =~= Seq::<FieldModel>::empty());
        assert(whole[0] == f);
        assert(enc_fields(whole) == enc_elem(f) + enc_fields(Seq::<FieldModel>::empty()));
        assert(enc_fields(whole) =~= enc_fields(fs) + enc_elem(f));
    } else {
        assert(whole.subrange(1, whole.len() as int) =~= fs.subrange(1, fs.len() as int).push(f));
        lemma_enc_fields_push(fs.subrange(1, fs.len() as int), f);
        assert(whole[0] == fs[0]);
        assert(enc_fields(whole) == enc_elem(fs[0]) + (enc_fields(fs.subrange(1, fs.len() as int))
            + enc_elem(f)));
        assert(enc_elem(fs[0]) + (enc_fields(fs.subrange(1, fs.len() as int)) + enc_elem(f))
            =~= (enc_elem(fs[0]) + enc_fields(fs.subrange(1, fs.len() as int))) + enc_elem(f));
    }
}

/// The executable type tag of a value.
pub fn tag_byte(v: &BsonValue) -> (r: u8)
    ensures
        r == spec_tag(value_model(*v)),
{
    match v {
        BsonValue::Text(_) => TAG_TEXT,
        BsonValue::Doc(_) => TAG_DOC,
        BsonValue::Array(_) => TAG_ARRAY,
        BsonValue::Int32(_) => TAG_INT32,
        BsonValue::Int64(_) => TAG_INT64,
        BsonValue::Boolean(_) => TAG_BOOLEAN,
        BsonValue::Null => TAG_NULL,
    }
}

/// Encodes one value's payload.
pub fn encode_value(v: &BsonValue) -> (out: Vec<u8>)
    requires
        wf_value(value_model(*v)),
    ensures
        out@ == enc_value(value_model(*v)),
    decreases *v, 0int,
{
    match v {
        BsonValue::Text(s) => {
            let mut out = u32_to_le_bytes((s.len() + 1) as u32);
            let mut body = copy_range(s, 0, s.len());
            out.append(&mut body);
            out.push(0u8);
            proof {
                assert(s@.subrange(0, s@.len() as int) =~= s@);
                assert(out@ =~= enc_value(value_model(*v)));
            }
            out
        },
        BsonValue::Doc(fs) => encode_doc(fs),
        BsonValue::Array(fs) => encode_doc(fs),
        BsonValue::Int32(x) => u32_to_le_bytes(u32_from_i32(*x)),
        BsonValue::Int64(x) => u64_to_le_bytes(u64_from_i64(*x)),
        BsonValue::Boolean(t) => {
            let mut out: Vec<u8> = Vec::new();
            out.push(if *t { 1u8 } else { 0u8 });
            proof {
                assert(out@ =~= enc_value(value_model(*v)));
            }
            out
        },
        BsonValue::Null => {
            let out: Vec<u8> = Vec::new();
            proof {
                assert(out@ =~= enc_value(value_model(*v)));
            }
            out
        },
    }
}

/// Encodes one element: tag, zero-terminated name, payload.
pub fn encode_elem(f: &BsonField) -> (out: Vec<u8>)
    requires
        wf_field(field_model(*f)),
    ensures
        out@ == enc_elem(field_model(*f)),
    decreases *f, 0int,
{
    let mut out: Vec<u8> = Vec::new();
    out.push(tag_byte(&f.value));
    let mut name = copy_range(&f.name, 0, f.name.len());
    out.append(&mut name);
    out.push(0u8);
    let mut payload = encode_value(&f.value);
    out.append(&mut payload);
    proof {
        assert(f.name@.subrange(0, f.name@.len() as int) =~= f.name@);
        assert(out@ =~= enc_elem(field_model(*f)));
    }
    out
}

/// Encodes a run of elements.
pub fn encode_fields(fs: &Vec<BsonField>) -> (out: Vec<u8>)
    requires
        wf_fields(fields_model(fs@)),
    ensures
        out@ == enc_fields(fields_model(fs@)),
    decreases fs@, 1int,
{
    proof {
        lemma_fields_model_index(fs@);
    }
    let mut out: Vec<u8> = Vec::new();
    let mut i: usize = 0;
    while i < fs.len()
        invariant
            i <= fs@.len(),
            wf_fields(fields_model(fs@)),
            fields_model(fs@).len() == fs@.len(),
            forall|k: int| 0 <= k < fs@.len() ==> fields_model(fs@)[k] == field_model(
                #[trigger] fs@[k],
            ),
            out@ == enc_fields(fields_model(fs@).subrange(0, i as int)),
        decreases fs@.len() - i,
    {
        let ghost done = fields_model(fs@).subrange(0, i as int);
        let mut piece = encode_elem(&fs[i]);
        proof {
            assert(wf_field(fields_model(fs@)[i as int]));
            lemma_enc_fields_push(done, field_model(fs@[i as int]));
            assert(done.push(field_model(fs@[i as int])) =~= fields_model(fs@).subrange(
                0,
                i as int + 1,
            ));
        }
        out.append(&mut piece);
        i = i + 1;
    }
    proof {
        assert(fields_model(fs@).subrange(0, fields_model(fs@).len() as int) =~= fields_model(
            fs@,
        ));
    }
    out
}

/// Encodes a whole document: length header, elements, trailing zero.
pub fn encode_doc(fs: &Vec<BsonField>) -> (out: Vec<u8>)
    requires
        wf_doc(fields_model(fs@)),
    ensures
        out@ == enc_doc(fields_model(fs@)),
        out@.len() <= MAX_DOC_LEN,
    decreases fs@, 2int,
{
    let mut body = encode_fields(fs);
    let total = body.len() + 5;
    let mut out = u32_to_le_bytes(total as u32);
    out.append(&mut body);
    out.push(0u8);
    proof {
        assert(out@ =~= enc_doc(fields_model(fs@)));
    }
    out
}

} // verus!
