//! Catalog records: extracting a structured entry from a decoded document.
//!
//! A catalog record holds the storage-file identifier of one collection
//! under `ident`, its logical name under `ns`, and the identifiers of its
//! indexes under the sub-document `idxIdent`.  A record without `ident` is
//! an internal entry and is skipped; a record with `ident` but without `ns`
//! is malformed; any non-string value under `idxIdent` is malformed.

use vstd::prelude::*;
use crate::doc::{BsonValue, BsonField, field_model, fields_model, value_model,
    lemma_fields_model_index, FieldModel, ValModel};
use crate::error::{MalformedReason, MalformedDocument};
use crate::wire::{copy_range, enc_doc, wf_doc, parse_doc};
use crate::decode::parse_document;
use crate::roundtrip::lemma_parse_enc_doc;

verus! {

/// The bytes of the field name `ident`.
pub open spec fn ident_name() -> Seq<u8> {
    seq![105u8, 100u8, 101u8, 110u8, 116u8]
}

/// The bytes of the field name `ns`.
pub open spec fn ns_name() -> Seq<u8> {
    seq![110u8, 115u8]
}

/// The bytes of the field name `idxIdent`.
pub open spec fn idx_ident_name() -> Seq<u8> {
    seq![105u8, 100u8, 120u8, 73u8, 100u8, 101u8, 110u8, 116u8]
}

/// Builds the field name `ident`.
pub fn ident_name_bytes() -> (r: Vec<u8>)
    ensures
        r@ == ident_name(),
{
    let mut v: Vec<u8> = Vec::new();
    v.push(105u8);
    v.push(100u8);
    v.push(101u8);
    v.push(110u8);
    v.push(116u8);
    proof {
        assert(v@ =~= ident_name());
    }
    v
}

/// Builds the field name `ns`.
pub fn ns_name_bytes() -> (r: Vec<u8>)
    ensures
        r@ == ns_name(),
{
    let mut v: Vec<u8> = Vec::new();
    v.push(110u8);
    v.push(115u8);
    proof {
        assert(v@ =~= ns_name());
    }
    v
}

/// Builds the field name `idxIdent`.
pub fn idx_ident_name_bytes() -> (r: Vec<u8>)
    ensures
        r@ == idx_ident_name(),
{
    let mut v: Vec<u8> = Vec::new();
    v.push(105u8);
    v.push(100u8);
    v.push(120u8);
    v.push(73u8);
    v.push(100u8);
    v.push(101u8);
    v.push(110u8);
    v.push(116u8);
    proof {
        assert(v@ =~= idx_ident_name());
    }
    v
}

/// Byte-string equality.
pub fn bytes_eq(a: &Vec<u8>, b: &Vec<u8>) -> (r: bool)
    ensures
        r == (a@ == b@),
{
    if a.len() != b.len() {
        return false;
    }
    let mut i: usize = 0;
    while i < a.len()
        invariant
            i <= a@.len(),
            a@.len() == b@.len(),
            forall|j: int| 0 <= j < i ==> a@[j] == b@[j],
        decreases a@.len() - i,
    {
        if a[i] != b[i] {
            return false;
        }
        i = i + 1;
    }
    proof {
        assert(a@ =~= b@);
    }
    true
}

/// The first value carried under `name`, if any.
pub open spec fn lookup_model(fs: Seq<FieldModel>, name: Seq<u8>) -> Option<ValModel>
    decreases fs.len(),
{
    if fs.len() == 0 {
        None
    } else if fs[0].name == name {
        Some(fs[0].value)
    } else {
        lookup_model(fs.subrange(1, fs.len() as int), name)
    }
}

/// Finds the first field named `name`; answers its position.
pub fn lookup_field(fields: &Vec<BsonField>, name: &Vec<u8>) -> (r: Option<usize>)
    ensures
        match r {
            Option::Some(i) => i < fields@.len() && lookup_model(fields_model(fields@), name@)
                == Some(field_model(fields@[i as int]).value),
            Option::None => lookup_model(fields_model(fields@), name@) is None,
        },
{
    proof {
        lemma_fields_model_index(fields@);
    }
    let ghost m = fields_model(fields@);
    proof {
        assert(m.subrange(0, m.len() as int) =~= m);
    }
    let mut i: usize = 0;
    while i < fields.len()
        invariant
            i <= fields@.len(),
            m == fields_model(fields@),
            m.len() == fields@.len(),
            forall|k: int| 0 <= k < fields@.len() ==> m[k] == field_model(#[trigger] fields@[k]),
            lookup_model(m, name@) == lookup_model(m.subrange(i as int, m.len() as int), name@),
        decreases fields@.len() - i,
    {
        let ghost tail = m.subrange(i as int, m.len() as int);
        if bytes_eq(&fields[i].name, name) {
            proof {
                assert(tail[0] == m[i as int]);
                assert(tail[0].name == name@);
            }
            return Some(i);
        }
        proof {
            assert(tail[0] == m[i as int]);
            assert(tail[0].name != name@);
            assert(tail.subrange(1, tail.len() as int) =~= m.subrange(
                i as int + 1,
                m.len() as int,
            ));
        }
        i = i + 1;
    }
    proof {
        assert(m.subrange(m.len() as int, m.len() as int) =~= Seq::<FieldModel>::empty());
    }
    None
}

/// The identifier of one index: the index's name and its storage file.
#[derive(Debug, Clone, PartialEq, Eq)]
pub struct IndexIdent {
    pub index_name: Vec<u8>,
    pub ident: Vec<u8>,
}

/// One decoded catalog entry: a collection's namespace, its storage-file
/// identifier, and the identifiers of its indexes.
#[derive(Debug, Clone, PartialEq, Eq)]
pub struct CatalogEntry {
    pub namespace: Vec<u8>,
    pub ident: Vec<u8>,
    pub index_idents: Vec<IndexIdent>,
}

/// The mathematical counterpart of `CatalogEntry`.
pub struct EntryModel {
    pub namespace: Seq<u8>,
    pub ident: Seq<u8>,
    pub index_idents: Seq<(Seq<u8>, Seq<u8>)>,
}

/// The model of an executable entry.
pub open spec fn entry_model(e: CatalogEntry) -> EntryModel {
    EntryModel {
        namespace: e.namespace@,
        ident: e.ident@,
        index_idents: Seq::new(
            e.index_idents@.len(),
            |i: int| (e.index_idents@[i].index_name@, e.index_idents@[i].ident@),
        ),
    }
}

/// What extraction yields on a decoded document.
pub enum ExtractModel {
    /// The record lacks `ident`: an internal entry, skipped.
    Skip,
    /// A real entry.
    Entry(EntryModel),
    /// A schema violation.
    Malformed(MalformedReason),
}

/// Every field of the run carries a string value.
pub open spec fn all_text(fs: Seq<FieldModel>) -> bool {
    forall|i: int| 0 <= i < fs.len() ==> (#[trigger] fs[i].value) is Text
}

/// The index-name/identifier pairs of an `idxIdent` sub-document.
pub open spec fn idx_pairs(fs: Seq<FieldModel>) -> Seq<(Seq<u8>, Seq<u8>)> {
    Seq::new(fs.len(), |i: int| (fs[i].name, fs[i].value->Text_0))
}

/// The extraction rules of one catalog record, on the document model.
pub open spec fn extract_model(fs: Seq<FieldModel>) -> ExtractModel {
    match lookup_model(fs, ident_name()) {
        Option::None => ExtractModel::Skip,
        Option::Some(ValModel::Text(id)) => match lookup_model(fs, ns_name()) {
            Option::None => ExtractModel::Malformed(MalformedReason::MissingNamespace),
            Option::Some(ValModel::Text(ns)) => match lookup_model(fs, idx_ident_name()) {
                Option::None => ExtractModel::Entry(
                    EntryModel { namespace: ns, ident: id, index_idents: Seq::empty() },
                ),
                Option::Some(ValModel::Doc(sub)) => if all_text(sub) {
                    ExtractModel::Entry(
                        EntryModel { namespace: ns, ident: id, index_idents: idx_pairs(sub) },
                    )
                } else {
                    ExtractModel::Malformed(MalformedReason::IndexIdentNotText)
                },
                Option::Some(_) => ExtractModel::Malformed(MalformedReason::IndexIdentsNotDoc),
            },
            Option::Some(_) => ExtractModel::Malformed(MalformedReason::NamespaceNotText),
        },
        Option::Some(_) => ExtractModel::Malformed(MalformedReason::IdentNotText),
    }
}

/// Collects the pairs of an `idxIdent` sub-document; rejects any non-string
/// value.
fn collect_index_idents(sub: &Vec<BsonField>, record_key: i64) -> (r: Result<
    Vec<IndexIdent>,
    MalformedDocument,
>)
    ensures
        match r {
            Result::Ok(v) => all_text(fields_model(sub@)) && Seq::new(
                v@.len(),
                |i: int| (v@[i].index_name@, v@[i].ident@),
            ) == idx_pairs(fields_model(sub@)),
            Result::Err(md) => !all_text(fields_model(sub@)) && md == (MalformedDocument {
                record_key,
                reason: MalformedReason::IndexIdentNotText,
            }),
        },
{
    proof {
        lemma_fields_model_index(sub@);
    }
    let ghost m = fields_model(sub@);
    let mut out: Vec<IndexIdent> = Vec::new();
    let mut i: usize = 0;
    while i < sub.len()
        invariant
            i <= sub@.len(),
            m == fields_model(sub@),
            m.len() == sub@.len(),
            forall|k: int| 0 <= k < sub@.len() ==> m[k] == field_model(#[trigger] sub@[k]),
            out@.len() == i,
            forall|k: int| 0 <= k < i ==> (#[trigger] m[k].value) is Text,
            forall|k: int|
                0 <= k < i ==> (#[trigger] out@[k].index_name@, out@[k].ident@) == (
                    m[k].name,
                    m[k].value->Text_0,
                ),
        decreases sub@.len() - i,
    {
        match &sub[i].value {
            BsonValue::Text(t) => {
                let index_name = copy_range(&sub[i].name, 0, sub[i].name.len());
                let ident = copy_range(t, 0, t.len());
                proof {
                    assert(sub@[i as int].name@.subrange(0, sub@[i as int].name@.len() as int)
                        =~= sub@[i as int].name@);
                    assert(t@.subrange(0, t@.len() as int) =~= t@);
                }
                out.push(IndexIdent { index_name, ident });
            },
            _ => {
                proof {
                    assert(!(m[i as int].value is Text));
                }
                return Err(
                    MalformedDocument { record_key, reason: MalformedReason::IndexIdentNotText },
                );
            },
        }
        i = i + 1;
    }
    proof {
        assert(Seq::new(out@.len(), |k: int| (out@[k].index_name@, out@[k].ident@)) =~= idx_pairs(
            m,
        ));
    }
    Ok(out)
}

/// Extracts the catalog entry of a decoded document, per the extraction
/// rules: no `ident` means skip, `ident` without `ns` is malformed, and
/// `idxIdent`, when present, must be a sub-document of strings.
pub fn extract_entry(fields: &Vec<BsonField>, record_key: i64) -> (r: Result<
    Option<CatalogEntry>,
    MalformedDocument,
>)
    ensures
        match extract_model(fields_model(fields@)) {
            ExtractModel::Skip => r == Result::<Option<CatalogEntry>, MalformedDocument>::Ok(
                None,
            ),
            ExtractModel::Entry(em) => r matches Result::Ok(Some(e)) && entry_model(e) == em,
            ExtractModel::Malformed(reason) => r == Result::<
                Option<CatalogEntry>,
                MalformedDocument,
            >::Err(MalformedDocument { record_key, reason }),
        },
{
    let ident_n = ident_name_bytes();
    let i = match lookup_field(fields, &ident_n) {
        Option::None => {
            return Ok(None);
        },
        Option::Some(i) => i,
    };
    let id: &Vec<u8> = match &fields[i].value {
        BsonValue::Text(id) => id,
        _ => {
            return Err(MalformedDocument { record_key, reason: MalformedReason::IdentNotText });
        },
    };
    let ns_n = ns_name_bytes();
    let j = match lookup_field(fields, &ns_n) {
        Option::None => {
            return Err(
                MalformedDocument { record_key, reason: MalformedReason::MissingNamespace },
            );
        },
        Option::Some(j) => j,
    };
    let ns: &Vec<u8> = match &fields[j].value {
        BsonValue::Text(ns) => ns,
        _ => {
            return Err(
                MalformedDocument { record_key, reason: MalformedReason::NamespaceNotText },
            );
        },
    };
    let namespace = copy_range(ns, 0, ns.len());
    let ident = copy_range(id, 0, id.len());
    proof {
        assert(ns@.subrange(0, ns@.len() as int) =~= ns@);
        assert(id@.subrange(0, id@.len() as int) =~= id@);
    }
    let idx_n = idx_ident_name_bytes();
    let k = match lookup_field(fields, &idx_n) {
        Option::None => {
            let e = CatalogEntry { namespace, ident, index_idents: Vec::new() };
            proof {
                assert(entry_model(e).index_idents =~= Seq::<(Seq<u8>, Seq<u8>)>::empty());
            }
            return Ok(Some(e));
        },
        Option::Some(k) => k,
    };
    let sub: &Vec<BsonField> = match &fields[k].value {
        BsonValue::Doc(sub) => sub,
        _ => {
            return Err(
                MalformedDocument { record_key, reason: MalformedReason::IndexIdentsNotDoc },
            );
        },
    };
    match collect_index_idents(sub, record_key) {
        Result::Ok(v) => {
            let e = CatalogEntry { namespace, ident, index_idents: v };
            proof {
                assert(entry_model(e).index_idents =~= idx_pairs(fields_model(sub@)));
            }
            Ok(Some(e))
        },
        Result::Err(md) => Err(md),
    }
}

/// Decodes one catalog record's value bytes: parses the document and
/// extracts the entry.  Total on arbitrary bytes: every outcome is a
/// decoded entry, a skip, or a typed error carrying the record's key.
pub fn decode_record(record_key: i64, bytes: &Vec<u8>) -> (r: Result<
    Option<CatalogEntry>,
    MalformedDocument,
>)
    ensures
        match parse_doc(bytes@) {
            Option::None => r matches Result::Err(md) && md.record_key == record_key,
            Option::Some(fs) => match extract_model(fs) {
                ExtractModel::Skip => r == Result::<Option<CatalogEntry>, MalformedDocument>::Ok(
                    None,
                ),
                ExtractModel::Entry(em) => r matches Result::Ok(Some(e)) && entry_model(e) == em,
                ExtractModel::Malformed(reason) => r == Result::<
                    Option<CatalogEntry>,
                    MalformedDocument,
                >::Err(MalformedDocument { record_key, reason }),
            },
        },
{
    match parse_document(bytes) {
        Result::Ok(fields) => extract_entry(&fields, record_key),
        Result::Err(reason) => Err(MalformedDocument { record_key, reason }),
    }
}

/// Round trip at the catalog level: encoding a well-formed document and
/// parsing it back yields the same document, hence the same namespace,
/// storage-file identifier and index mapping.
pub proof fn lemma_catalog_roundtrip(fs: Seq<FieldModel>)
    requires
        wf_doc(fs),
    ensures
        parse_doc(enc_doc(fs)) == Some(fs),
        extract_model(parse_doc(enc_doc(fs))->Some_0) == extract_model(fs),
{
    lemma_parse_enc_doc(fs);
}

} // verus!
