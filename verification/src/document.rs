//! Stored documents: reading and writing the fields of a BSON document.
//!
//! A document is an outside value. What this library knows of it is the map
//! from its keys to its values, as far as the values are of a kind that the
//! library stores: 32-bit and 64-bit integers, and text. Amounts and
//! balances are stored as text, in decimal digits, so that no precision is
//! lost.

use vstd::prelude::*;
use mongodb::bson::{Bson, Document};
use crate::amount::{decimal_text, parse_balance, parse_digits, render_amount, render_balance,
    signed_number, signed_text, whole_number};

verus! {

/// `bson::Document`: an ordered map from keys to BSON values, of which
/// nothing is seen here but through the functions below.
#[verifier::external_type_specification]
#[verifier::external_body]
pub struct ExDocument(Document);

/// The value of a field of a document.
#[derive(Debug, PartialEq, Eq)]
pub enum Field {
    Int32(i32),
    Int64(i64),
    Text(String),
    /// A value of any other kind.
    Other,
}

/// A [`Field`] as a plain value.
pub enum FieldValue {
    Int32(i32),
    Int64(i64),
    Text(Seq<char>),
    Other,
}

impl View for Field {
    type V = FieldValue;

    open spec fn view(&self) -> FieldValue {
        match self {
            Field::Int32(v) => FieldValue::Int32(*v),
            Field::Int64(v) => FieldValue::Int64(*v),
            Field::Text(s) => FieldValue::Text(s@),
            Field::Other => FieldValue::Other,
        }
    }
}

/// The fields of a document by key.
pub uninterp spec fn document_fields(doc: Document) -> Map<Seq<char>, FieldValue>;

/// The fields of an empty document.
pub open spec fn no_fields() -> Map<Seq<char>, FieldValue> {
    Map::empty()
}

/// `Document::new`: a document without fields.
#[verifier::external_body]
pub(crate) fn new_document() -> (r: Document)
    ensures
        document_fields(r) == no_fields(),
{
    Document::new()
}

/// `Document::get`: the value under `key`, if the document has that key. A
/// value that is neither an integer of 32 or 64 bits nor a string is handed
/// out as `Field::Other`.
#[verifier::external_body]
pub(crate) fn field_of(doc: &Document, key: &str) -> (r: Option<Field>)
    ensures
        r.is_some() == document_fields(*doc).contains_key(key@),
        r matches Some(f) ==> f@ == document_fields(*doc)[key@],
{
    match doc.get(key) {
        Some(Bson::Int32(v)) => Some(Field::Int32(*v)),
        Some(Bson::Int64(v)) => Some(Field::Int64(*v)),
        Some(Bson::String(s)) => Some(Field::Text(s.clone())),
        Some(_) => Some(Field::Other),
        None => None,
    }
}

/// `Document::insert`: puts `value` under `key`, in the place of the value
/// that was there if the document had that key; the other fields stay as
/// they are. `Field::Other` is stored as the null value, which is read back
/// as `Field::Other`.
#[verifier::external_body]
pub(crate) fn set_field(doc: &mut Document, key: &str, value: Field)
    ensures
        document_fields(*final(doc)) == document_fields(*old(doc)).insert(key@, value@),
{
    match value {
        Field::Int32(v) => doc.insert(key, Bson::Int32(v)),
        Field::Int64(v) => doc.insert(key, Bson::Int64(v)),
        Field::Text(s) => doc.insert(key, Bson::String(s)),
        Field::Other => doc.insert(key, Bson::Null),
    };
}

/// The 32-bit integer under `key`.
pub open spec fn int32_field(fields: Map<Seq<char>, FieldValue>, key: Seq<char>) -> Option<i32> {
    if fields.contains_key(key) {
        match fields[key] {
            FieldValue::Int32(v) => Some(v),
            _ => None,
        }
    } else {
        None
    }
}

/// The 64-bit integer under `key`.
pub open spec fn int64_field(fields: Map<Seq<char>, FieldValue>, key: Seq<char>) -> Option<i64> {
    if fields.contains_key(key) {
        match fields[key] {
            FieldValue::Int64(v) => Some(v),
            _ => None,
        }
    } else {
        None
    }
}

/// The text under `key`.
pub open spec fn text_field(fields: Map<Seq<char>, FieldValue>, key: Seq<char>) -> Option<
    Seq<char>,
> {
    if fields.contains_key(key) {
        match fields[key] {
            FieldValue::Text(s) => Some(s),
            _ => None,
        }
    } else {
        None
    }
}

/// The amount under `key`: a text of decimal digits whose number fits in 128
/// bits.
pub open spec fn amount_field(fields: Map<Seq<char>, FieldValue>, key: Seq<char>) -> Option<
    u128,
> {
    match text_field(fields, key) {
        Some(s) => match whole_number(s) {
            Some(v) => if v <= u128::MAX {
                Some(v as u128)
            } else {
                None
            },
            None => None,
        },
        None => None,
    }
}

/// The balance under `key`: a text of decimal digits with an optional `-`
/// before them, whose number fits in a signed 128-bit integer.
pub open spec fn balance_field(fields: Map<Seq<char>, FieldValue>, key: Seq<char>) -> Option<
    i128,
> {
    match text_field(fields, key) {
        Some(s) => match signed_number(s) {
            Some(v) => if i128::MIN <= v <= i128::MAX {
                Some(v as i128)
            } else {
                None
            },
            None => None,
        },
        None => None,
    }
}

/// The field that holds an amount.
pub open spec fn amount_value(v: u128) -> FieldValue {
    FieldValue::Text(decimal_text(v as nat))
}

/// The field that holds a balance.
pub open spec fn balance_value(v: int) -> FieldValue {
    FieldValue::Text(signed_text(v))
}

/// The 32-bit integer under `field`; `None` where the document has no such
/// field or its value is of another kind.
pub fn get_i32(doc: &Document, field: &str) -> (r: Option<i32>)
    ensures
        r == int32_field(document_fields(*doc), field@),
{
    match field_of(doc, field) {
        Some(Field::Int32(v)) => Some(v),
        _ => None,
    }
}

/// The 64-bit integer under `field`; `None` where the document has no such
/// field or its value is of another kind.
pub fn get_i64(doc: &Document, field: &str) -> (r: Option<i64>)
    ensures
        r == int64_field(document_fields(*doc), field@),
{
    match field_of(doc, field) {
        Some(Field::Int64(v)) => Some(v),
        _ => None,
    }
}

/// The text under `field`; `None` where the document has no such field or
/// its value is of another kind.
pub fn get_text(doc: &Document, field: &str) -> (r: Option<String>)
    ensures
        r.is_some() == text_field(document_fields(*doc), field@).is_some(),
        r matches Some(s) ==> Some(s@) == text_field(document_fields(*doc), field@),
{
    match field_of(doc, field) {
        Some(Field::Text(s)) => Some(s),
        _ => None,
    }
}

/// The amount under `field`; `None` where the document has no such field or
/// its value is not the text of an amount.
pub fn get_amount(doc: &Document, field: &str) -> (r: Option<u128>)
    ensures
        r == amount_field(document_fields(*doc), field@),
{
    match get_text(doc, field) {
        Some(s) => match parse_digits(s.as_str()) {
            Ok(v) => Some(v),
            Err(_) => None,
        },
        None => None,
    }
}

/// The balance under `field`; `None` where the document has no such field
/// or its value is not the text of a balance.
pub fn get_balance(doc: &Document, field: &str) -> (r: Option<i128>)
    ensures
        r == balance_field(document_fields(*doc), field@),
{
    match get_text(doc, field) {
        Some(s) => parse_balance(s.as_str()),
        None => None,
    }
}

/// A document without fields.
pub fn empty_document() -> (r: Document)
    ensures
        document_fields(r) == no_fields(),
{
    new_document()
}

/// Puts a 32-bit integer under `key`.
pub fn set_i32(doc: &mut Document, key: &str, value: i32)
    ensures
        document_fields(*final(doc)) == document_fields(*old(doc)).insert(
            key@,
            FieldValue::Int32(value),
        ),
{
    set_field(doc, key, Field::Int32(value));
}

/// Puts a 64-bit integer under `key`.
pub fn set_i64(doc: &mut Document, key: &str, value: i64)
    ensures
        document_fields(*final(doc)) == document_fields(*old(doc)).insert(
            key@,
            FieldValue::Int64(value),
        ),
{
    set_field(doc, key, Field::Int64(value));
}

/// Puts a text under `key`.
pub fn set_text(doc: &mut Document, key: &str, text: String)
    ensures
        document_fields(*final(doc)) == document_fields(*old(doc)).insert(
            key@,
            FieldValue::Text(text@),
        ),
{
    set_field(doc, key, Field::Text(text));
}

/// Puts an amount under `key`, as the text of its decimal digits.
pub fn set_amount(doc: &mut Document, key: &str, amount: u128)
    ensures
        document_fields(*final(doc)) == document_fields(*old(doc)).insert(
            key@,
            amount_value(amount),
        ),
{
    set_field(doc, key, Field::Text(render_amount(amount)));
}

/// Puts a balance under `key`, as the text of its decimal digits with a `-`
/// before them if it is negative.
pub fn set_balance(doc: &mut Document, key: &str, balance: i128)
    ensures
        document_fields(*final(doc)) == document_fields(*old(doc)).insert(
            key@,
            balance_value(balance as int),
        ),
{
    set_field(doc, key, Field::Text(render_balance(balance)));
}

/// An amount that was put into a document is read back from it.
pub proof fn lemma_amount_read_back(fields: Map<Seq<char>, FieldValue>, key: Seq<char>, v: u128)
    requires
        fields.contains_key(key),
        fields[key] == amount_value(v),
    ensures
        amount_field(fields, key) == Some(v),
{
    crate::amount::lemma_decimal_text(v as nat);
}

/// A balance that was put into a document is read back from it.
pub proof fn lemma_balance_read_back(fields: Map<Seq<char>, FieldValue>, key: Seq<char>, v: i128)
    requires
        fields.contains_key(key),
        fields[key] == balance_value(v as int),
    ensures
        balance_field(fields, key) == Some(v),
{
    crate::amount::lemma_signed_text(v as int);
}

} // verus!
