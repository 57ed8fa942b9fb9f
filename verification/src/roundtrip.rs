//! The round-trip law: parsing the encoding of any well-formed document
//! yields exactly that document.

use vstd::prelude::*;
use vstd::bytes::{spec_u32_from_le_bytes, lemma_auto_spec_u32_to_from_le_bytes,
    lemma_auto_spec_u64_to_from_le_bytes};
use crate::doc::{ValModel, FieldModel, TAG_TEXT, TAG_DOC, TAG_ARRAY};
use crate::wire::{le4, spec_tag, enc_value, enc_elem, enc_fields, enc_doc, wf_value, wf_field,
    wf_fields, wf_doc, parse_value, parse_elem, parse_fields, parse_doc, lemma_find_zero_at,
    lemma_i32_u32_inverse, lemma_i64_u64_inverse, MAX_DOC_LEN};

verus! {

/// Parsing the encoding of one well-formed value, followed by anything,
/// yields the value and consumes exactly its encoding.
pub proof fn lemma_parse_enc_value(v: ValModel, rest: Seq<u8>)
    requires
        wf_value(v),
    ensures
        parse_value(spec_tag(v), enc_value(v) + rest) == Some((v, enc_value(v).len() as int)),
    decreases v, 0int,
{
    lemma_auto_spec_u32_to_from_le_bytes();
    lemma_auto_spec_u64_to_from_le_bytes();
    let b = enc_value(v) + rest;
    match v {
        ValModel::Text(s) => {
            let l = s.len() + 1;
            assert(enc_value(v).len() == 4 + l);
            assert(b.subrange(0, 4) =~= le4(l as int));
            assert(spec_u32_from_le_bytes(b.subrange(0, 4)) as int == l);
            assert(b[4 + l - 1] == 0u8);
            assert(b.subrange(4, 4 + l - 1) =~= s);
        },
        ValModel::Doc(fs) => {
            let l = enc_fields(fs).len() + 5;
            assert(enc_value(v) == enc_doc(fs));
            assert(enc_doc(fs).len() == l);
            assert(b.subrange(0, 4) =~= le4(l as int));
            assert(spec_u32_from_le_bytes(b.subrange(0, 4)) as int == l);
            assert(b.subrange(0, l as int) =~= enc_doc(fs));
            lemma_parse_enc_doc(fs);
        },
        ValModel::Array(fs) => {
            let l = enc_fields(fs).len() + 5;
            assert(enc_value(v) == enc_doc(fs));
            assert(enc_doc(fs).len() == l);
            assert(b.subrange(0, 4) =~= le4(l as int));
            assert(spec_u32_from_le_bytes(b.subrange(0, 4)) as int == l);
            assert(b.subrange(0, l as int) =~= enc_doc(fs));
            lemma_parse_enc_doc(fs);
        },
        ValModel::Int32(x) => {
            assert(b.subrange(0, 4) =~= enc_value(v));
            lemma_i32_u32_inverse(x);
        },
        ValModel::Int64(x) => {
            assert(b.subrange(0, 8) =~= enc_value(v));
            lemma_i64_u64_inverse(x);
        },
        ValModel::Boolean(t) => {
            assert(b[0] == (if t { 1u8 } else { 0u8 }));
        },
        ValModel::Null => {
        },
    }
}

/// Parsing the encoding of one well-formed element, followed by anything,
/// yields the element and consumes exactly its encoding.
pub proof fn lemma_parse_enc_elem(f: FieldModel, rest: Seq<u8>)
    requires
        wf_field(f),
    ensures
        parse_elem(enc_elem(f) + rest) == Some((f, enc_elem(f).len() as int)),
    decreases f, 0int,
{
    let b = enc_elem(f) + rest;
    let z = 1 + f.name.len() as int;
    assert(b[0] == spec_tag(f.value));
    assert(b[z] == 0u8);
    assert forall|j: int| 1 <= j < z implies b[j] != 0u8 by {
        assert(b[j] == f.name[j - 1]);
    }
    assert(1 <= z < b.len());
    lemma_find_zero_at(b, 1, z);
    assert(b.subrange(1, z) =~= f.name);
    assert(b.subrange(z + 1, b.len() as int) =~= enc_value(f.value) + rest);
    lemma_parse_enc_value(f.value, rest);
    assert(FieldModel { name: b.subrange(1, z), value: f.value } == f);
    assert(z + 1 + enc_value(f.value).len() == enc_elem(f).len());
}

/// Parsing the concatenated encodings of well-formed elements yields them
/// all, in order.
pub proof fn lemma_parse_enc_fields(fs: Seq<FieldModel>)
    requires
        wf_fields(fs),
    ensures
        parse_fields(enc_fields(fs)) == Some(fs),
    decreases fs, 0int,
{
    if fs.len() == 0 {
        assert(parse_fields(enc_fields(fs)) == Some(Seq::<FieldModel>::empty()));
        assert(Seq::<FieldModel>::empty() =~= fs);
    } else {
        let tail = fs.subrange(1, fs.len() as int);
        let b = enc_fields(fs);
        assert(b == enc_elem(fs[0]) + enc_fields(tail));
        assert(wf_field(fs[0]));
        lemma_parse_enc_elem(fs[0], enc_fields(tail));
        let n = enc_elem(fs[0]).len() as int;
        assert(1 <= n <= b.len());
        assert(b.subrange(n, b.len() as int) =~= enc_fields(tail));
        assert forall|i: int| 0 <= i < tail.len() implies wf_field(#[trigger] tail[i]) by {
            assert(tail[i] == fs[i + 1]);
        }
        lemma_parse_enc_fields(tail);
        assert(seq![fs[0]] + tail =~= fs);
    }
}

/// The round-trip law of the wire format: parsing the encoding of any
/// well-formed document yields exactly that document.
pub proof fn lemma_parse_enc_doc(fs: Seq<FieldModel>)
    requires
        wf_doc(fs),
    ensures
        parse_doc(enc_doc(fs)) == Some(fs),
    decreases fs, 1int,
{
    lemma_auto_spec_u32_to_from_le_bytes();
    let b = enc_doc(fs);
    let body = enc_fields(fs);
    let l = body.len() + 5;
    assert(b.len() == l);
    assert(b.subrange(0, 4) =~= le4(l as int));
    assert(spec_u32_from_le_bytes(b.subrange(0, 4)) as int == l);
    assert(b[b.len() - 1] == 0u8);
    assert(b.subrange(4, b.len() - 1) =~= body);
    lemma_parse_enc_fields(fs);
}

} // verus!
