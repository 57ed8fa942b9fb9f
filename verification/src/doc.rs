//! The document model: a tree of named, type-tagged values.
//!
//! A catalog record's value bytes encode one self-describing document.  The
//! executable tree (`BsonField`, `BsonValue`) is what the decoder produces
//! and the encoder consumes; the mathematical model (`FieldModel`,
//! `ValModel`) is what every contract speaks of.  Field names and string
//! values are byte strings, exactly as the wire format carries them.

use vstd::prelude::*;

verus! {

/// Type tag of a string element.
pub const TAG_TEXT: u8 = 2;
/// Type tag of an embedded sub-document element.
pub const TAG_DOC: u8 = 3;
/// Type tag of an array element (a sub-document with index-like names).
pub const TAG_ARRAY: u8 = 4;
/// Type tag of a boolean element.
pub const TAG_BOOLEAN: u8 = 8;
/// Type tag of a null element.
pub const TAG_NULL: u8 = 10;
/// Type tag of a 32-bit integer element.
pub const TAG_INT32: u8 = 16;
/// Type tag of a 64-bit integer element.
pub const TAG_INT64: u8 = 18;

/// One decoded value.
#[derive(Debug, PartialEq, Eq)]
pub enum BsonValue {
    /// A byte string (the wire format's UTF-8 string payload).
    Text(Vec<u8>),
    /// An embedded sub-document.
    Doc(Vec<BsonField>),
    /// An array, carried as a sub-document whose names are decimal indices.
    Array(Vec<BsonField>),
    /// A 32-bit signed integer.
    Int32(i32),
    /// A 64-bit signed integer.
    Int64(i64),
    /// A boolean.
    Boolean(bool),
    /// The null value.
    Null,
}

/// One named element of a document.
#[derive(Debug, PartialEq, Eq)]
pub struct BsonField {
    pub name: Vec<u8>,
    pub value: BsonValue,
}

/// The mathematical counterpart of `BsonValue`.
pub enum ValModel {
    Text(Seq<u8>),
    Doc(Seq<FieldModel>),
    Array(Seq<FieldModel>),
    Int32(i32),
    Int64(i64),
    Boolean(bool),
    Null,
}

/// The mathematical counterpart of `BsonField`.
pub struct FieldModel {
    pub name: Seq<u8>,
    pub value: ValModel,
}

/// The model of an executable value.
pub open spec fn value_model(v: BsonValue) -> ValModel
    decreases v, 0int,
{
    match v {
        BsonValue::Text(s) => ValModel::Text(s@),
        BsonValue::Doc(fs) => ValModel::Doc(fields_model(fs@)),
        BsonValue::Array(fs) => ValModel::Array(fields_model(fs@)),
        BsonValue::Int32(x) => ValModel::Int32(x),
        BsonValue::Int64(x) => ValModel::Int64(x),
        BsonValue::Boolean(t) => ValModel::Boolean(t),
        BsonValue::Null => ValModel::Null,
    }
}

/// The model of an executable field.
pub open spec fn field_model(f: BsonField) -> FieldModel
    decreases f, 0int,
{
    FieldModel { name: f.name@, value: value_model(f.value) }
}

/// The model of an executable field list.
pub open spec fn fields_model(fs: Seq<BsonField>) -> Seq<FieldModel>
    decreases fs, 0int,
{
    if fs.len() == 0 {
        Seq::empty()
    } else {
        seq![field_model(fs[0])] + fields_model(fs.subrange(1, fs.len() as int))
    }
}

/// `fields_model` maps the list of fields pointwise.
pub proof fn lemma_fields_model_index(fs: Seq<BsonField>)
    ensures
        fields_model(fs).len() == fs.len(),
        forall|i: int| 0 <= i < fs.len() ==> fields_model(fs)[i] == field_model(#[trigger] fs[i]),
    decreases fs.len(),
{
    if fs.len() > 0 {
        lemma_fields_model_index(fs.subrange(1, fs.len() as int));
        assert forall|i: int| 0 <= i < fs.len() implies fields_model(fs)[i] == field_model(
            #[trigger] fs[i],
        ) by {
            if i > 0 {
                assert(fs.subrange(1, fs.len() as int)[i - 1] == fs[i]);
            }
        }
    }
}

/// Appending a field appends its model.
pub proof fn lemma_fields_model_push(fs: Seq<BsonField>, f: BsonField)
    ensures
        fields_model(fs.push(f)) == fields_model(fs).push(field_model(f)),
{
    let whole = fs.push(f);
    lemma_fields_model_index(whole);
    lemma_fields_model_index(fs);
    assert forall|i: int| 0 <= i < whole.len() implies fields_model(whole)[i] == fields_model(
        fs,
    ).push(field_model(f))[i] by {
        if i < fs.len() {
            assert(whole[i] == fs[i]);
        } else {
            assert(whole[i] == f);
        }
    }
    assert(fields_model(whole) =~= fields_model(fs).push(field_model(f)));
}

} // verus!
