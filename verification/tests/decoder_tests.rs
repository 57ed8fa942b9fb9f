use catalog_scan::doc::{BsonField, BsonValue};
use catalog_scan::encode::encode_doc;
use catalog_scan::decode::parse_document;
use catalog_scan::catalog::decode_record;
use catalog_scan::error::MalformedReason;

fn text(s: &str) -> BsonValue {
    BsonValue::Text(s.as_bytes().to_vec())
}

fn field(name: &str, value: BsonValue) -> BsonField {
    BsonField { name: name.as_bytes().to_vec(), value }
}

#[test]
fn scenario_entry_without_indexes() {
    let fields = vec![field("ns", text("test.foo")), field("ident", text("file:foo.wt"))];
    let bytes = encode_doc(&fields);
    let r = decode_record(1, &bytes).unwrap();
    let entry = r.expect("a real entry");
    assert_eq!(entry.namespace, b"test.foo".to_vec());
    assert_eq!(entry.ident, b"file:foo.wt".to_vec());
    assert!(entry.index_idents.is_empty());
}

#[test]
fn scenario_internal_record_skipped() {
    let fields = vec![field("storageSize", BsonValue::Int64(4096))];
    let bytes = encode_doc(&fields);
    let r = decode_record(5, &bytes).unwrap();
    assert!(r.is_none());
}

#[test]
fn scenario_missing_namespace() {
    let fields = vec![field("ident", text("file:foo.wt"))];
    let bytes = encode_doc(&fields);
    let md = decode_record(42, &bytes).unwrap_err();
    assert_eq!(md.record_key, 42);
    assert_eq!(md.reason, MalformedReason::MissingNamespace);
}

#[test]
fn entry_with_index_idents() {
    let idx = vec![
        field("_id_", text("index-1.wt")),
        field("a_1", text("index-2.wt")),
    ];
    let fields = vec![
        field("ns", text("test.foo")),
        field("ident", text("file:foo.wt")),
        field("idxIdent", BsonValue::Doc(idx)),
    ];
    let bytes = encode_doc(&fields);
    let entry = decode_record(9, &bytes).unwrap().expect("a real entry");
    assert_eq!(entry.namespace, b"test.foo".to_vec());
    assert_eq!(entry.ident, b"file:foo.wt".to_vec());
    assert_eq!(entry.index_idents.len(), 2);
    assert_eq!(entry.index_idents[0].index_name, b"_id_".to_vec());
    assert_eq!(entry.index_idents[0].ident, b"index-1.wt".to_vec());
    assert_eq!(entry.index_idents[1].index_name, b"a_1".to_vec());
    assert_eq!(entry.index_idents[1].ident, b"index-2.wt".to_vec());
}

#[test]
fn roundtrip_all_value_kinds() {
    let inner = vec![field("k", text("v"))];
    let arr = vec![field("0", BsonValue::Int32(7)), field("1", BsonValue::Boolean(true))];
    let fields = vec![
        field("s", text("hello")),
        field("i32", BsonValue::Int32(-123456)),
        field("i64", BsonValue::Int64(-9876543210)),
        field("t", BsonValue::Boolean(true)),
        field("f", BsonValue::Boolean(false)),
        field("n", BsonValue::Null),
        field("d", BsonValue::Doc(inner)),
        field("a", BsonValue::Array(arr)),
    ];
    let bytes = encode_doc(&fields);
    let back = parse_document(&bytes).unwrap();
    assert_eq!(back, fields);
}

#[test]
fn roundtrip_extreme_integers() {
    let fields = vec![
        field("a", BsonValue::Int32(i32::MIN)),
        field("b", BsonValue::Int32(i32::MAX)),
        field("c", BsonValue::Int64(i64::MIN)),
        field("d", BsonValue::Int64(i64::MAX)),
        field("e", BsonValue::Int32(0)),
        field("f", BsonValue::Int64(0)),
    ];
    let bytes = encode_doc(&fields);
    let back = parse_document(&bytes).unwrap();
    assert_eq!(back, fields);
}

#[test]
fn roundtrip_empty_document() {
    let fields: Vec<BsonField> = vec![];
    let bytes = encode_doc(&fields);
    assert_eq!(bytes, vec![5u8, 0, 0, 0, 0]);
    let back = parse_document(&bytes).unwrap();
    assert!(back.is_empty());
}

#[test]
fn truncated_bytes_rejected() {
    let md = decode_record(3, &vec![]).unwrap_err();
    assert_eq!(md.record_key, 3);
    assert_eq!(md.reason, MalformedReason::Truncated);
    let md = decode_record(3, &vec![4u8, 0, 0, 0]).unwrap_err();
    assert_eq!(md.reason, MalformedReason::Truncated);
}

#[test]
fn length_mismatch_rejected() {
    // The header declares six bytes but only five are present.
    let md = decode_record(3, &vec![6u8, 0, 0, 0, 0]).unwrap_err();
    assert_eq!(md.reason, MalformedReason::LengthMismatch);
    // The trailing byte is not zero.
    let md = decode_record(3, &vec![5u8, 0, 0, 0, 1]).unwrap_err();
    assert_eq!(md.reason, MalformedReason::LengthMismatch);
}

#[test]
fn invalid_tag_rejected() {
    // A single element of type tag 99 named "A".
    let bytes = vec![8u8, 0, 0, 0, 99, b'A', 0, 0];
    let md = decode_record(3, &bytes).unwrap_err();
    assert_eq!(md.reason, MalformedReason::InvalidTag);
}

#[test]
fn invalid_boolean_byte_rejected() {
    // A boolean element whose payload byte is 2.
    let bytes = vec![9u8, 0, 0, 0, 8, b'A', 0, 2, 0];
    let md = decode_record(3, &bytes).unwrap_err();
    assert_eq!(md.reason, MalformedReason::InvalidValue);
}

#[test]
fn ident_not_text_rejected() {
    let fields = vec![field("ident", BsonValue::Int32(1))];
    let md = decode_record(4, &encode_doc(&fields)).unwrap_err();
    assert_eq!(md.reason, MalformedReason::IdentNotText);
}

#[test]
fn namespace_not_text_rejected() {
    let fields = vec![field("ident", text("x")), field("ns", BsonValue::Null)];
    let md = decode_record(4, &encode_doc(&fields)).unwrap_err();
    assert_eq!(md.reason, MalformedReason::NamespaceNotText);
}

#[test]
fn index_idents_not_doc_rejected() {
    let fields = vec![
        field("ns", text("test.foo")),
        field("ident", text("x")),
        field("idxIdent", text("not a document")),
    ];
    let md = decode_record(4, &encode_doc(&fields)).unwrap_err();
    assert_eq!(md.reason, MalformedReason::IndexIdentsNotDoc);
}

#[test]
fn index_ident_not_text_rejected() {
    let idx = vec![field("_id_", BsonValue::Int32(1))];
    let fields = vec![
        field("ns", text("test.foo")),
        field("ident", text("x")),
        field("idxIdent", BsonValue::Doc(idx)),
    ];
    let md = decode_record(4, &encode_doc(&fields)).unwrap_err();
    assert_eq!(md.reason, MalformedReason::IndexIdentNotText);
}

#[test]
fn first_of_duplicate_fields_wins() {
    let fields = vec![
        field("ident", text("first.wt")),
        field("ns", text("test.dup")),
        field("ident", text("second.wt")),
    ];
    let entry = decode_record(8, &encode_doc(&fields)).unwrap().expect("a real entry");
    assert_eq!(entry.ident, b"first.wt".to_vec());
}

#[test]
fn string_payload_may_hold_any_bytes() {
    let fields = vec![
        field("ns", BsonValue::Text(vec![0xffu8, 0x00, 0x41])),
        field("ident", text("x")),
    ];
    let entry = decode_record(2, &encode_doc(&fields)).unwrap().expect("a real entry");
    assert_eq!(entry.namespace, vec![0xffu8, 0x00, 0x41]);
}
