//! The serialized shape of a schema: each field becomes an object holding
//! `key`, `label`, `field_type` (a tag, or a tagged object for arrays and
//! nested schemas), `required`, `description`, and — only when one is set —
//! `default`. A schema becomes an object with the field list under `fields`.
//! Decoding reads the fixed layout the encoder writes, and inverts it
//! exactly: a schema survives the round trip unchanged, field order kept,
//! absent options staying absent.

use vstd::prelude::*;

use crate::schema::{
    fields_view, lemma_fields_view, schema_field_view, schema_view, FieldType, Schema, SchemaField,
    SpecFieldType, SpecSchema, SpecSchemaField,
};
use crate::value::{
    clone_value, entries_view, lemma_entries_view, lemma_values_view, values_view, SpecValue,
    Value,
};

verus! {

broadcast use vstd::seq::axiom_seq_index_decreases, vstd::seq::axiom_seq_subrange_decreases, vstd::std_specs::vec::axiom_vec_decreases_to_view;

/// An optional text serializes as the text, or as null.
pub open spec fn encode_opt_text(o: Option<Seq<char>>) -> SpecValue {
    match o {
        Some(s) => SpecValue::Text(s),
        None => SpecValue::Null,
    }
}

/// The tag, or tagged object, a field type serializes as.
pub open spec fn encode_field_type(ft: SpecFieldType) -> SpecValue
    decreases ft,
{
    match ft {
        SpecFieldType::String => SpecValue::Text("string"@),
        SpecFieldType::Number => SpecValue::Text("number"@),
        SpecFieldType::Boolean => SpecValue::Text("boolean"@),
        SpecFieldType::Date => SpecValue::Text("date"@),
        SpecFieldType::Array(et) => SpecValue::Object(
            seq![("array"@, encode_field_type(*et))],
        ),
        SpecFieldType::Object(sub) => SpecValue::Object(seq![("object"@, encode_schema(sub))]),
    }
}

/// The object one field declaration serializes as; `default` is omitted
/// entirely when absent.
pub open spec fn encode_field(f: SpecSchemaField) -> SpecValue
    decreases f,
{
    SpecValue::Object(
        seq![
            ("key"@, SpecValue::Text(f.key)),
            ("label"@, encode_opt_text(f.label)),
            ("field_type"@, encode_field_type(f.field_type)),
            ("required"@, SpecValue::Bool(f.required)),
            ("description"@, encode_opt_text(f.description)),
        ] + (match f.default {
            Some(v) => seq![("default"@, v)],
            None => Seq::empty(),
        }),
    )
}

/// The array a field list serializes as, in declaration order.
pub open spec fn encode_fields(fields: Seq<SpecSchemaField>) -> Seq<SpecValue>
    decreases fields,
{
    if fields.len() == 0 {
        Seq::empty()
    } else {
        seq![encode_field(fields[0])] + encode_fields(fields.drop_first())
    }
}

/// The object a schema serializes as.
pub open spec fn encode_schema(s: SpecSchema) -> SpecValue
    decreases s,
{
    SpecValue::Object(seq![("fields"@, SpecValue::Array(encode_fields(s.fields)))])
}

/// Reads an optional text: text, null, or nothing else.
pub open spec fn decode_opt_text(v: SpecValue) -> Option<Option<Seq<char>>> {
    match v {
        SpecValue::Text(s) => Some(Some(s)),
        SpecValue::Null => Some(None),
        _ => None,
    }
}

/// Reads a field type back from its tag or tagged object.
pub open spec fn decode_field_type(v: SpecValue) -> Option<SpecFieldType>
    decreases v,
{
    match v {
        SpecValue::Text(s) => if s == "string"@ {
            Some(SpecFieldType::String)
        } else if s == "number"@ {
            Some(SpecFieldType::Number)
        } else if s == "boolean"@ {
            Some(SpecFieldType::Boolean)
        } else if s == "date"@ {
            Some(SpecFieldType::Date)
        } else {
            None
        },
        SpecValue::Object(entries) => if entries.len() == 1 && entries[0].0 == "array"@ {
            match decode_field_type(entries[0].1) {
                Some(et) => Some(SpecFieldType::Array(Box::new(et))),
                None => None,
            }
        } else if entries.len() == 1 && entries[0].0 == "object"@ {
            match decode_schema(entries[0].1) {
                Some(sub) => Some(SpecFieldType::Object(sub)),
                None => None,
            }
        } else {
            None
        },
        _ => None,
    }
}

/// Reads one field declaration back from the fixed layout the encoder
/// writes.
pub open spec fn decode_field(v: SpecValue) -> Option<SpecSchemaField>
    decreases v,
{
    match v {
        SpecValue::Object(entries) => if !(5 <= entries.len() <= 6) {
            None
        } else if entries[0].0 != "key"@ || !(entries[0].1 is Text) || entries[1].0 != "label"@
            || entries[2].0 != "field_type"@ || entries[3].0 != "required"@ || !(entries[3].1
            is Bool) || entries[4].0 != "description"@ {
            None
        } else if entries.len() == 6 && entries[5].0 != "default"@ {
            None
        } else {
            match (decode_opt_text(entries[1].1), decode_field_type(entries[2].1), decode_opt_text(
                entries[4].1,
            )) {
                (Some(label), Some(ft), Some(description)) => Some(
                    SpecSchemaField {
                        key: entries[0].1->Text_0,
                        label,
                        field_type: ft,
                        required: entries[3].1->Bool_0,
                        description,
                        default: if entries.len() == 6 {
                            Some(entries[5].1)
                        } else {
                            None
                        },
                    },
                ),
                _ => None,
            }
        },
        _ => None,
    }
}

/// Reads a field list back, in order; one unreadable field spoils the list.
pub open spec fn decode_fields(items: Seq<SpecValue>) -> Option<Seq<SpecSchemaField>>
    decreases items,
{
    if items.len() == 0 {
        Some(Seq::empty())
    } else {
        match (decode_field(items[0]), decode_fields(items.drop_first())) {
            (Some(f), Some(rest)) => Some(seq![f] + rest),
            _ => None,
        }
    }
}

/// Reads a schema back from its serialized object.
pub open spec fn decode_schema(v: SpecValue) -> Option<SpecSchema>
    decreases v,
{
    match v {
        SpecValue::Object(entries) => if entries.len() == 1 && entries[0].0 == "fields"@
            && entries[0].1 is Array {
            match decode_fields(entries[0].1->Array_0) {
                Some(fields) => Some(SpecSchema { fields }),
                None => None,
            }
        } else {
            None
        },
        _ => None,
    }
}

/// The four primitive tags are pairwise distinct texts.
proof fn lemma_tags_distinct()
    ensures
        "string"@ != "number"@,
        "string"@ != "boolean"@,
        "string"@ != "date"@,
        "number"@ != "boolean"@,
        "number"@ != "date"@,
        "boolean"@ != "date"@,
        "array"@ != "object"@,
{
    reveal_strlit("string");
    reveal_strlit("number");
    reveal_strlit("boolean");
    reveal_strlit("date");
    reveal_strlit("array");
    reveal_strlit("object");
    assert("string"@[0] != "number"@[0]);
    assert("string"@.len() != "boolean"@.len());
    assert("string"@.len() != "date"@.len());
    assert("number"@.len() != "boolean"@.len());
    assert("number"@.len() != "date"@.len());
    assert("boolean"@.len() != "date"@.len());
    assert("array"@.len() != "object"@.len());
}

/// Law: a field type read back from its serialized form is itself.
proof fn lemma_round_trip_field_type(ft: SpecFieldType)
    ensures
        decode_field_type(encode_field_type(ft)) == Some(ft),
    decreases ft,
{
    lemma_tags_distinct();
    match ft {
        SpecFieldType::Array(et) => {
            lemma_round_trip_field_type(*et);
            let entries = seq![("array"@, encode_field_type(*et))];
            assert(entries.len() == 1 && entries[0].0 == "array"@);
        },
        SpecFieldType::Object(sub) => {
            lemma_round_trip_schema(sub);
            let entries = seq![("object"@, encode_schema(sub))];
            assert(entries.len() == 1 && entries[0].0 == "object"@);
        },
        _ => {},
    }
}

/// Law: a field declaration read back from its serialized form is itself.
proof fn lemma_round_trip_field(f: SpecSchemaField)
    ensures
        decode_field(encode_field(f)) == Some(f),
    decreases f,
{
    lemma_round_trip_field_type(f.field_type);
    let head = seq![
        ("key"@, SpecValue::Text(f.key)),
        ("label"@, encode_opt_text(f.label)),
        ("field_type"@, encode_field_type(f.field_type)),
        ("required"@, SpecValue::Bool(f.required)),
        ("description"@, encode_opt_text(f.description)),
    ];
    match f.default {
        Some(v) => {
            let entries = head + seq![("default"@, v)];
            assert(encode_field(f) == SpecValue::Object(entries));
            assert(entries.len() == 6);
            assert(entries[0] == ("key"@, SpecValue::Text(f.key)));
            assert(entries[1] == ("label"@, encode_opt_text(f.label)));
            assert(entries[2] == ("field_type"@, encode_field_type(f.field_type)));
            assert(entries[3] == ("required"@, SpecValue::Bool(f.required)));
            assert(entries[4] == ("description"@, encode_opt_text(f.description)));
            assert(entries[5] == ("default"@, v));
            assert(decode_field(encode_field(f)) == Some(f));
        },
        None => {
            let entries = head + Seq::empty();
            assert(entries =~= head);
            assert(encode_field(f) == SpecValue::Object(entries));
            assert(entries.len() == 5);
            assert(entries[0] == ("key"@, SpecValue::Text(f.key)));
            assert(entries[1] == ("label"@, encode_opt_text(f.label)));
            assert(entries[2] == ("field_type"@, encode_field_type(f.field_type)));
            assert(entries[3] == ("required"@, SpecValue::Bool(f.required)));
            assert(entries[4] == ("description"@, encode_opt_text(f.description)));
            assert(decode_field(encode_field(f)) == Some(f));
        },
    }
}

/// Law: a field list read back from its serialized form is itself, in the
/// same order.
proof fn lemma_round_trip_fields(fields: Seq<SpecSchemaField>)
    ensures
        decode_fields(encode_fields(fields)) == Some(fields),
    decreases fields,
{
    if fields.len() == 0 {
        assert(encode_fields(fields).len() == 0);
    } else {
        lemma_round_trip_field(fields[0]);
        lemma_round_trip_fields(fields.drop_first());
        let items = seq![encode_field(fields[0])] + encode_fields(fields.drop_first());
        assert(encode_fields(fields) == items);
        assert(items[0] == encode_field(fields[0]));
        assert(items.drop_first() =~= encode_fields(fields.drop_first()));
        assert(seq![fields[0]] + fields.drop_first() =~= fields);
    }
}

/// Law: a schema serialized and read back is itself — field order kept,
/// absent options still absent.
pub proof fn lemma_round_trip_schema(s: SpecSchema)
    ensures
        decode_schema(encode_schema(s)) == Some(s),
    decreases s,
{
    lemma_round_trip_fields(s.fields);
    let entries = seq![("fields"@, SpecValue::Array(encode_fields(s.fields)))];
    assert(entries.len() == 1 && entries[0].0 == "fields"@);
    assert(entries[0].1 is Array);
    assert(entries[0].1->Array_0 == encode_fields(s.fields));
}

/// `encode_fields` maps the field list element by element.
proof fn lemma_encode_fields(fields: Seq<SpecSchemaField>)
    ensures
        encode_fields(fields).len() == fields.len(),
        forall|i: int| 0 <= i < fields.len() ==> encode_fields(fields)[i] == encode_field(
            fields[i],
        ),
    decreases fields.len(),
{
    if fields.len() > 0 {
        lemma_encode_fields(fields.drop_first());
        let head = seq![encode_field(fields[0])];
        let rest = encode_fields(fields.drop_first());
        assert(encode_fields(fields) == head + rest);
        assert forall|i: int| 0 <= i < fields.len() implies encode_fields(fields)[i]
            == encode_field(fields[i]) by {
            if i > 0 {
                assert((head + rest)[i] == rest[i - 1]);
                assert(fields.drop_first()[i - 1] == fields[i]);
            } else {
                assert((head + rest)[0] == head[0]);
            }
        }
    }
}

/// An optional text serialized: the text itself, or null.
fn opt_text_to_value(o: &Option<String>) -> (r: Value)
    ensures
        match o {
            Some(s) => r@ == SpecValue::Text(s@),
            None => r@ == SpecValue::Null,
        },
{
    match o {
        Some(s) => Value::Text(s.clone()),
        None => Value::Null,
    }
}

/// The tag, or tagged object, a field type serializes as, exactly as
/// `encode_field_type` says.
pub fn field_type_to_value(ft: &FieldType) -> (r: Value)
    ensures
        r@ == encode_field_type(ft@),
    decreases ft,
{
    match ft {
        FieldType::String => Value::Text(String::from_str("string")),
        FieldType::Number => Value::Text(String::from_str("number")),
        FieldType::Boolean => Value::Text(String::from_str("boolean")),
        FieldType::Date => Value::Text(String::from_str("date")),
        FieldType::Array(et) => {
            let inner = field_type_to_value(&**et);
            let mut entries: Vec<(String, Value)> = Vec::new();
            entries.push((String::from_str("array"), inner));
            proof {
                lemma_entries_view(entries@);
                assert(entries_view(entries@) =~= seq![("array"@, encode_field_type((**et)@))]);
            }
            Value::Object(entries)
        },
        FieldType::Object(sub) => {
            let inner = schema_to_value(&**sub);
            let mut entries: Vec<(String, Value)> = Vec::new();
            entries.push((String::from_str("object"), inner));
            proof {
                lemma_entries_view(entries@);
                assert(entries_view(entries@) =~= seq![("object"@, encode_schema((**sub)@))]);
            }
            Value::Object(entries)
        },
    }
}

/// The object one field declaration serializes as, exactly as
/// `encode_field` says.
pub fn field_to_value(f: &SchemaField) -> (r: Value)
    ensures
        r@ == encode_field(f@),
    decreases f,
{
    let mut entries: Vec<(String, Value)> = Vec::new();
    entries.push((String::from_str("key"), Value::Text(f.key.clone())));
    entries.push((String::from_str("label"), opt_text_to_value(&f.label)));
    entries.push((String::from_str("field_type"), field_type_to_value(&f.field_type)));
    entries.push((String::from_str("required"), Value::Bool(f.required)));
    entries.push((String::from_str("description"), opt_text_to_value(&f.description)));
    match &f.default {
        Some(v) => {
            let c = clone_value(v);
            entries.push((String::from_str("default"), c));
        },
        None => {},
    }
    proof {
        lemma_entries_view(entries@);
        assert(encode_field(f@) matches SpecValue::Object(ev) && entries_view(entries@) =~= ev);
    }
    Value::Object(entries)
}

/// The object a schema serializes as, exactly as `encode_schema` says.
#[verifier::loop_isolation(false)]
pub fn schema_to_value(s: &Schema) -> (r: Value)
    ensures
        r@ == encode_schema(s@),
    decreases s,
{
    let ghost fv = fields_view(s.fields@);
    proof {
        lemma_fields_view(s.fields@);
        lemma_encode_fields(fv);
    }
    let mut items: Vec<Value> = Vec::new();
    let mut i: usize = 0;
    while i < s.fields.len()
        invariant
            0 <= i <= s.fields.len(),
            items@.len() == i,
            forall|j: int| 0 <= j < i ==> items@[j]@ == encode_field(fv[j]),
        decreases s.fields.len() - i,
    {
        let item = field_to_value(&s.fields[i]);
        items.push(item);
        i += 1;
    }
    proof {
        lemma_values_view(items@);
        assert(values_view(items@) =~= encode_fields(fv));
    }
    let mut entries: Vec<(String, Value)> = Vec::new();
    entries.push((String::from_str("fields"), Value::Array(items)));
    proof {
        lemma_entries_view(entries@);
        assert(entries_view(entries@) =~= seq![("fields"@, SpecValue::Array(encode_fields(fv)))]);
    }
    Value::Object(entries)
}

/// Whether the text equals the literal.
fn str_is(s: &String, lit: &str) -> (r: bool)
    ensures
        r == (s@ == lit@),
{
    let l = String::from_str(lit);
    s.eq(&l)
}

/// Reads an optional text back: text, null, or nothing else.
fn opt_text_from_value(v: &Value) -> (r: Option<Option<String>>)
    ensures
        match r {
            Some(o) => decode_opt_text(v@) == Some(
                match o {
                    Some(s) => Some(s@),
                    None => None,
                },
            ),
            None => decode_opt_text(v@) is None,
        },
{
    match v {
        Value::Text(s) => Some(Some(s.clone())),
        Value::Null => Some(None),
        _ => None,
    }
}

/// Reads a field type back, exactly as `decode_field_type` says.
pub fn field_type_from_value(v: &Value) -> (r: Option<FieldType>)
    ensures
        match r {
            Some(ft) => decode_field_type(v@) == Some(ft@),
            None => decode_field_type(v@) is None,
        },
    decreases v,
{
    match v {
        Value::Text(s) => {
            if str_is(s, "string") {
                Some(FieldType::String)
            } else if str_is(s, "number") {
                Some(FieldType::Number)
            } else if str_is(s, "boolean") {
                Some(FieldType::Boolean)
            } else if str_is(s, "date") {
                Some(FieldType::Date)
            } else {
                None
            }
        },
        Value::Object(entries) => {
            proof {
                lemma_entries_view(entries@);
            }
            if entries.len() != 1 {
                None
            } else if str_is(&entries[0].0, "array") {
                match field_type_from_value(&entries[0].1) {
                    Some(et) => Some(FieldType::Array(Box::new(et))),
                    None => None,
                }
            } else if str_is(&entries[0].0, "object") {
                match schema_from_value(&entries[0].1) {
                    Some(sub) => Some(FieldType::Object(Box::new(sub))),
                    None => None,
                }
            } else {
                None
            }
        },
        _ => None,
    }
}

/// Reads one field declaration back, exactly as `decode_field` says.
pub fn field_from_value(v: &Value) -> (r: Option<SchemaField>)
    ensures
        match r {
            Some(f) => decode_field(v@) == Some(f@),
            None => decode_field(v@) is None,
        },
    decreases v,
{
    match v {
        Value::Object(entries) => {
            proof {
                lemma_entries_view(entries@);
            }
            if !(entries.len() == 5 || entries.len() == 6) {
                return None;
            }
            if !str_is(&entries[0].0, "key") {
                return None;
            }
            let key = match &entries[0].1 {
                Value::Text(k) => k.clone(),
                _ => {
                    return None;
                },
            };
            if !str_is(&entries[1].0, "label") {
                return None;
            }
            if !str_is(&entries[2].0, "field_type") {
                return None;
            }
            if !str_is(&entries[3].0, "required") {
                return None;
            }
            let required = match &entries[3].1 {
                Value::Bool(b) => *b,
                _ => {
                    return None;
                },
            };
            if !str_is(&entries[4].0, "description") {
                return None;
            }
            if entries.len() == 6 && !str_is(&entries[5].0, "default") {
                return None;
            }
            let label = match opt_text_from_value(&entries[1].1) {
                Some(o) => o,
                None => {
                    return None;
                },
            };
            let ft = match field_type_from_value(&entries[2].1) {
                Some(t) => t,
                None => {
                    return None;
                },
            };
            let description = match opt_text_from_value(&entries[4].1) {
                Some(o) => o,
                None => {
                    return None;
                },
            };
            let default = if entries.len() == 6 {
                Some(clone_value(&entries[5].1))
            } else {
                None
            };
            Some(SchemaField { key, label, field_type: ft, required, description, default })
        },
        _ => None,
    }
}

/// Listing the fields a value list decodes to decodes the whole list.
proof fn lemma_decode_fields_all(items: Seq<SpecValue>, fs: Seq<SpecSchemaField>)
    requires
        items.len() == fs.len(),
        forall|j: int| 0 <= j < items.len() ==> decode_field(#[trigger] items[j]) == Some(fs[j]),
    ensures
        decode_fields(items) == Some(fs),
    decreases items.len(),
{
    if items.len() > 0 {
        assert forall|j: int| 0 <= j < items.drop_first().len() implies decode_field(
            #[trigger] items.drop_first()[j],
        ) == Some(fs.drop_first()[j]) by {
            assert(items.drop_first()[j] == items[j + 1]);
            assert(fs.drop_first()[j] == fs[j + 1]);
        }
        lemma_decode_fields_all(items.drop_first(), fs.drop_first());
        assert(seq![fs[0]] + fs.drop_first() =~= fs);
    }
}

/// One unreadable element spoils the whole list.
proof fn lemma_decode_fields_fail(items: Seq<SpecValue>, k: int)
    requires
        0 <= k < items.len(),
        decode_field(items[k]) is None,
    ensures
        decode_fields(items) is None,
    decreases items.len(),
{
    if items.len() > 0 && k > 0 {
        assert(items.drop_first()[k - 1] == items[k]);
        lemma_decode_fields_fail(items.drop_first(), k - 1);
    }
}

/// Reads a field list back, exactly as `decode_fields` says.
#[verifier::loop_isolation(false)]
fn fields_from_values(items: &Vec<Value>) -> (r: Option<Vec<SchemaField>>)
    ensures
        match r {
            Some(fs) => decode_fields(values_view(items@)) == Some(fields_view(fs@)),
            None => decode_fields(values_view(items@)) is None,
        },
    decreases items,
{
    let ghost sv = values_view(items@);
    proof {
        lemma_values_view(items@);
    }
    let mut out: Vec<SchemaField> = Vec::new();
    let mut i: usize = 0;
    while i < items.len()
        invariant
            0 <= i <= items.len(),
            out@.len() == i,
            forall|j: int| 0 <= j < i ==> decode_field(#[trigger] sv[j]) == Some(
                schema_field_view(out@[j]),
            ),
        decreases items.len() - i,
    {
        match field_from_value(&items[i]) {
            Some(f) => {
                out.push(f);
            },
            None => {
                proof {
                    lemma_decode_fields_fail(sv, i as int);
                }
                return None;
            },
        }
        i += 1;
    }
    proof {
        lemma_fields_view(out@);
        assert forall|j: int| 0 <= j < sv.len() implies decode_field(#[trigger] sv[j]) == Some(
            fields_view(out@)[j],
        ) by {
            assert(fields_view(out@)[j] == schema_field_view(out@[j]));
        }
        lemma_decode_fields_all(sv, fields_view(out@));
    }
    Some(out)
}

/// Reads a schema back, exactly as `decode_schema` says.
pub fn schema_from_value(v: &Value) -> (r: Option<Schema>)
    ensures
        match r {
            Some(s) => decode_schema(v@) == Some(s@),
            None => decode_schema(v@) is None,
        },
    decreases v,
{
    match v {
        Value::Object(entries) => {
            proof {
                lemma_entries_view(entries@);
            }
            if entries.len() != 1 {
                None
            } else if !str_is(&entries[0].0, "fields") {
                None
            } else {
                match &entries[0].1 {
                    Value::Array(items) => match fields_from_values(items) {
                        Some(fs) => Some(Schema { fields: fs }),
                        None => None,
                    },
                    _ => None,
                }
            }
        },
        _ => None,
    }
}

} // verus!
