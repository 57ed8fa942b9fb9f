//! Cross-checks of the wire format against the bson crate: both sides must
//! produce and accept the same bytes.

use bson::{Bson, Document};
use catalog_scan::doc::{BsonField, BsonValue};
use catalog_scan::encode::encode_doc;
use catalog_scan::catalog::decode_record;

fn text(s: &str) -> BsonValue {
    BsonValue::Text(s.as_bytes().to_vec())
}

fn field(name: &str, value: BsonValue) -> BsonField {
    BsonField { name: name.as_bytes().to_vec(), value }
}

fn catalog_doc_bson() -> Document {
    let mut idx = Document::new();
    idx.insert("_id_", "index-1.wt");
    let mut doc = Document::new();
    doc.insert("ns", "test.foo");
    doc.insert("ident", "file:foo.wt");
    doc.insert("idxIdent", idx);
    doc
}

fn catalog_doc_native() -> Vec<BsonField> {
    let idx = vec![field("_id_", text("index-1.wt"))];
    vec![
        field("ns", text("test.foo")),
        field("ident", text("file:foo.wt")),
        field("idxIdent", BsonValue::Doc(idx)),
    ]
}

#[test]
fn encoder_matches_bson_crate_bytes() {
    let mut reference: Vec<u8> = Vec::new();
    catalog_doc_bson().to_writer(&mut reference).unwrap();
    let ours = encode_doc(&catalog_doc_native());
    assert_eq!(ours, reference);
}

#[test]
fn bson_crate_reads_our_encoding() {
    let bytes = encode_doc(&catalog_doc_native());
    let doc = Document::from_reader(&bytes[..]).unwrap();
    assert_eq!(doc.get("ns"), Some(&Bson::String("test.foo".to_string())));
    assert_eq!(doc.get("ident"), Some(&Bson::String("file:foo.wt".to_string())));
    let idx = doc.get("idxIdent").unwrap().as_document().unwrap();
    assert_eq!(idx.get("_id_"), Some(&Bson::String("index-1.wt".to_string())));
}

#[test]
fn our_decoder_reads_bson_crate_encoding() {
    let mut bytes: Vec<u8> = Vec::new();
    catalog_doc_bson().to_writer(&mut bytes).unwrap();
    let entry = decode_record(11, &bytes).unwrap().expect("a real entry");
    assert_eq!(entry.namespace, b"test.foo".to_vec());
    assert_eq!(entry.ident, b"file:foo.wt".to_vec());
    assert_eq!(entry.index_idents.len(), 1);
    assert_eq!(entry.index_idents[0].index_name, b"_id_".to_vec());
    assert_eq!(entry.index_idents[0].ident, b"index-1.wt".to_vec());
}

#[test]
fn scalar_encodings_match_bson_crate() {
    let mut doc = Document::new();
    doc.insert("i", 42i32);
    doc.insert("l", -7i64);
    doc.insert("b", true);
    doc.insert("z", Bson::Null);
    let mut reference: Vec<u8> = Vec::new();
    doc.to_writer(&mut reference).unwrap();

    let ours = encode_doc(&vec![
        field("i", BsonValue::Int32(42)),
        field("l", BsonValue::Int64(-7)),
        field("b", BsonValue::Boolean(true)),
        field("z", BsonValue::Null),
    ]);
    assert_eq!(ours, reference);
}
