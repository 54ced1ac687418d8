//! The schema engine: an ordered list of named, typed fields, and a
//! recursive, fail-fast validation of a value tree against it. The first
//! fault in declaration order is reported, with a full dotted path: a failure
//! on field `city` nested under `address` reads `address.city`, and a failure
//! on element 1 of array `tags` reads `tags[1]`.

use vstd::prelude::*;

use crate::text::{child_path, elem_path, spec_child_path, spec_elem_path};
use crate::value::{
    entries_view, lemma_entries_view, lemma_values_view, obj_get, spec_obj_get, spec_obj_has_key,
    values_view, SpecValue, Value,
};

verus! {

broadcast use vstd::seq::axiom_seq_index_decreases, vstd::seq::axiom_seq_subrange_decreases, vstd::std_specs::vec::axiom_vec_decreases_to_view;

/// The closed set of kinds a field's value may take. `Array` elements are
/// homogeneous; `Object` carries a nested schema of the same shape as the
/// top-level one. The type graph is always a tree, never cyclic.
#[derive(Debug, PartialEq)]
pub enum FieldType {
    /// The value must be a string.
    String,
    /// The value must be a number.
    Number,
    /// The value must be a boolean.
    Boolean,
    /// The value must be a string; its calendar format is a caller concern.
    Date,
    /// The value must be an array whose every element has the given type.
    Array(Box<FieldType>),
    /// The value must be an object conforming to the nested schema.
    Object(Box<Schema>),
}

/// One named, typed field declaration. `label` and `description` are
/// presentation only; `default` is never injected by validation.
#[derive(Debug, PartialEq)]
pub struct SchemaField {
    pub key: String,
    pub label: Option<String>,
    pub field_type: FieldType,
    pub required: bool,
    pub description: Option<String>,
    pub default: Option<Value>,
}

/// An ordered list of field declarations. Order affects only the order in
/// which faults are reported. Field keys are expected to be unique;
/// duplicates are a configuration error that validation does not detect —
/// each duplicate is simply checked in turn against the same looked-up
/// value.
#[derive(Debug, Default, PartialEq)]
pub struct Schema {
    pub fields: Vec<SchemaField>,
}

/// Ghost mirror of [`FieldType`].
pub enum SpecFieldType {
    String,
    Number,
    Boolean,
    Date,
    Array(Box<SpecFieldType>),
    Object(SpecSchema),
}

/// Ghost mirror of [`SchemaField`].
pub struct SpecSchemaField {
    pub key: Seq<char>,
    pub label: Option<Seq<char>>,
    pub field_type: SpecFieldType,
    pub required: bool,
    pub description: Option<Seq<char>>,
    pub default: Option<SpecValue>,
}

/// Ghost mirror of [`Schema`].
pub struct SpecSchema {
    pub fields: Seq<SpecSchemaField>,
}

/// The ghost mirror of a field type.
pub open spec fn field_type_view(ft: FieldType) -> SpecFieldType
    decreases ft,
{
    match ft {
        FieldType::String => SpecFieldType::String,
        FieldType::Number => SpecFieldType::Number,
        FieldType::Boolean => SpecFieldType::Boolean,
        FieldType::Date => SpecFieldType::Date,
        FieldType::Array(t) => SpecFieldType::Array(Box::new(field_type_view(*t))),
        FieldType::Object(s) => SpecFieldType::Object(schema_view(*s)),
    }
}

/// The ghost mirror of a field declaration.
pub open spec fn schema_field_view(f: SchemaField) -> SpecSchemaField
    decreases f,
{
    SpecSchemaField {
        key: f.key@,
        label: match f.label {
            Some(l) => Some(l@),
            None => None,
        },
        field_type: field_type_view(f.field_type),
        required: f.required,
        description: match f.description {
            Some(d) => Some(d@),
            None => None,
        },
        default: match f.default {
            Some(v) => Some(v@),
            None => None,
        },
    }
}

/// The ghost mirror of a field list.
pub open spec fn fields_view(fields: Seq<SchemaField>) -> Seq<SpecSchemaField>
    decreases fields,
{
    if fields.len() == 0 {
        Seq::empty()
    } else {
        seq![schema_field_view(fields[0])] + fields_view(fields.drop_first())
    }
}

/// The ghost mirror of a schema.
pub open spec fn schema_view(s: Schema) -> SpecSchema
    decreases s,
{
    SpecSchema { fields: fields_view(s.fields@) }
}

impl View for FieldType {
    type V = SpecFieldType;

    open spec fn view(&self) -> SpecFieldType {
        field_type_view(*self)
    }
}

impl View for SchemaField {
    type V = SpecSchemaField;

    open spec fn view(&self) -> SpecSchemaField {
        schema_field_view(*self)
    }
}

impl View for Schema {
    type V = SpecSchema;

    open spec fn view(&self) -> SpecSchema {
        schema_view(*self)
    }
}

/// `fields_view` maps the field list element by element.
pub broadcast proof fn lemma_fields_view(fields: Seq<SchemaField>)
    ensures
        (#[trigger] fields_view(fields)).len() == fields.len(),
        forall|i: int| 0 <= i < fields.len() ==> fields_view(fields)[i] == schema_field_view(
            fields[i],
        ),
    decreases fields.len(),
{
    if fields.len() > 0 {
        lemma_fields_view(fields.drop_first());
        let head = seq![schema_field_view(fields[0])];
        let rest = fields_view(fields.drop_first());
        assert(fields_view(fields) == head + rest);
        assert forall|i: int| 0 <= i < fields.len() implies fields_view(fields)[i]
            == schema_field_view(fields[i]) by {
            if i > 0 {
                assert((head + rest)[i] == rest[i - 1]);
                assert(fields.drop_first()[i - 1] == fields[i]);
            } else {
                assert((head + rest)[0] == head[0]);
            }
        }
    }
}

/// The shallow kind of a field type, named in mismatch reports.
#[derive(Debug, Clone, Copy, PartialEq, Eq, Structural)]
pub enum FieldKind {
    String,
    Number,
    Boolean,
    Date,
    Array,
    Object,
}

/// The kind a [`SpecFieldType`] demands of a value.
pub open spec fn spec_kind_of(ft: SpecFieldType) -> FieldKind {
    match ft {
        SpecFieldType::String => FieldKind::String,
        SpecFieldType::Number => FieldKind::Number,
        SpecFieldType::Boolean => FieldKind::Boolean,
        SpecFieldType::Date => FieldKind::Date,
        SpecFieldType::Array(_) => FieldKind::Array,
        SpecFieldType::Object(_) => FieldKind::Object,
    }
}

/// Why validation rejected a value tree. Every fault names the exact dotted
/// path it was found at; the first fault in declaration order wins.
#[derive(Debug, PartialEq)]
pub enum ValidationError {
    /// The top-level data was not an object.
    NotAnObject,
    /// A field marked required is absent; the payload is its full path.
    MissingRequiredField(String),
    /// A present field has a value of the wrong kind; the payload is its full
    /// path and the kind the schema declares.
    TypeMismatch(String, FieldKind),
}

/// Ghost mirror of [`ValidationError`].
pub enum SpecValidationError {
    NotAnObject,
    MissingRequiredField { path: Seq<char> },
    TypeMismatch { path: Seq<char>, expected: FieldKind },
}

impl View for ValidationError {
    type V = SpecValidationError;

    open spec fn view(&self) -> SpecValidationError {
        match self {
            ValidationError::NotAnObject => SpecValidationError::NotAnObject,
            ValidationError::MissingRequiredField(p) => SpecValidationError::MissingRequiredField {
                path: p@,
            },
            ValidationError::TypeMismatch(p, k) => SpecValidationError::TypeMismatch {
                path: p@,
                expected: *k,
            },
        }
    }
}

/// Ghost mirror of an optional error, for relating an executable result to
/// the check functions below.
pub open spec fn opt_err_view(r: Option<ValidationError>) -> Option<SpecValidationError> {
    match r {
        None => None,
        Some(e) => Some(e@),
    }
}

/// The first fault, if any, in checking the value at `path` against `ft`.
pub open spec fn spec_check_type(
    ft: SpecFieldType,
    v: SpecValue,
    path: Seq<char>,
) -> Option<SpecValidationError>
    decreases ft, 0int,
{
    match ft {
        SpecFieldType::Array(et) => match v {
            SpecValue::Array(items) => spec_check_elems(*et, items, path, 0),
            _ => Some(SpecValidationError::TypeMismatch { path, expected: FieldKind::Array }),
        },
        SpecFieldType::Object(sub) => match v {
            SpecValue::Object(entries) => spec_check_fields(sub.fields, entries, path, 0),
            _ => Some(SpecValidationError::TypeMismatch { path, expected: FieldKind::Object }),
        },
        _ => {
            let matches_prim = match ft {
                SpecFieldType::String => v is Text,
                SpecFieldType::Number => v is Number,
                SpecFieldType::Boolean => v is Bool,
                _ => v is Text,  // Date: a string whose format a caller checks
            };
            if matches_prim {
                None
            } else {
                Some(SpecValidationError::TypeMismatch { path, expected: spec_kind_of(ft) })
            }
        },
    }
}

/// The first fault, if any, among elements `i..` of the array at `path`,
/// each checked against `et` in index order.
pub open spec fn spec_check_elems(
    et: SpecFieldType,
    items: Seq<SpecValue>,
    path: Seq<char>,
    i: int,
) -> Option<SpecValidationError>
    decreases et, items.len() - i + 1,
{
    if i < 0 || i >= items.len() {
        None
    } else {
        match spec_check_type(et, items[i], spec_elem_path(path, i)) {
            Some(e) => Some(e),
            None => spec_check_elems(et, items, path, i + 1),
        }
    }
}

/// The first fault, if any, among fields `i..` of a schema, against an
/// object's entries; `prefix` is the path of the object that holds them.
pub open spec fn spec_check_fields(
    fields: Seq<SpecSchemaField>,
    entries: Seq<(Seq<char>, SpecValue)>,
    prefix: Seq<char>,
    i: int,
) -> Option<SpecValidationError>
    decreases fields, fields.len() - i + 1,
{
    if i < 0 || i >= fields.len() {
        None
    } else {
        let f = fields[i];
        match spec_obj_get(entries, f.key) {
            None => if f.required {
                Some(SpecValidationError::MissingRequiredField {
                    path: spec_child_path(prefix, f.key),
                })
            } else {
                spec_check_fields(fields, entries, prefix, i + 1)
            },
            Some(v) => match spec_check_type(f.field_type, v, spec_child_path(prefix, f.key)) {
                Some(e) => Some(e),
                None => spec_check_fields(fields, entries, prefix, i + 1),
            },
        }
    }
}

/// What validating `v` against `s` reports: `None` on success, else the
/// first fault in declaration order, with its full path.
pub open spec fn spec_validate(s: SpecSchema, v: SpecValue) -> Option<SpecValidationError> {
    match v {
        SpecValue::Object(entries) => spec_check_fields(s.fields, entries, Seq::empty(), 0),
        _ => Some(SpecValidationError::NotAnObject),
    }
}

/// Declaratively: `v` has the kind `ft` demands, recursively.
pub open spec fn spec_type_matches(ft: SpecFieldType, v: SpecValue) -> bool
    decreases ft,
{
    match ft {
        SpecFieldType::String => v is Text,
        SpecFieldType::Number => v is Number,
        SpecFieldType::Boolean => v is Bool,
        SpecFieldType::Date => v is Text,
        SpecFieldType::Array(et) => v matches SpecValue::Array(items) && (forall|i: int|
            0 <= i < items.len() ==> spec_type_matches(*et, #[trigger] items[i])),
        SpecFieldType::Object(sub) => v matches SpecValue::Object(entries)
            && spec_schema_accepts(sub, entries),
    }
}

/// Declaratively: the object entries satisfy one field declaration — present
/// if required, and of the declared kind if present.
pub open spec fn spec_field_ok(f: SpecSchemaField, entries: Seq<(Seq<char>, SpecValue)>) -> bool
    decreases f,
{
    &&& (f.required ==> spec_obj_has_key(entries, f.key))
    &&& (match spec_obj_get(entries, f.key) {
        Some(v) => spec_type_matches(f.field_type, v),
        None => true,
    })
}

/// Declaratively: the object entries satisfy every field declaration of the
/// schema.
pub open spec fn spec_schema_accepts(s: SpecSchema, entries: Seq<(Seq<char>, SpecValue)>) -> bool
    decreases s,
{
    forall|i: int| 0 <= i < s.fields.len() ==> spec_field_ok(#[trigger] s.fields[i], entries)
}

/// A deep copy of a field type, equal to the original at the ghost level.
pub fn clone_field_type(ft: &FieldType) -> (r: FieldType)
    ensures
        r@ == ft@,
    decreases ft,
{
    match ft {
        FieldType::String => FieldType::String,
        FieldType::Number => FieldType::Number,
        FieldType::Boolean => FieldType::Boolean,
        FieldType::Date => FieldType::Date,
        FieldType::Array(t) => FieldType::Array(Box::new(clone_field_type(&**t))),
        FieldType::Object(s) => FieldType::Object(Box::new(clone_schema(&**s))),
    }
}

/// A deep copy of a field declaration, equal to the original at the ghost
/// level.
pub fn clone_field(f: &SchemaField) -> (r: SchemaField)
    ensures
        r@ == f@,
    decreases f,
{
    SchemaField {
        key: f.key.clone(),
        label: match &f.label {
            Some(l) => Some(l.clone()),
            None => None,
        },
        field_type: clone_field_type(&f.field_type),
        required: f.required,
        description: match &f.description {
            Some(d) => Some(d.clone()),
            None => None,
        },
        default: match &f.default {
            Some(v) => Some(v.clone()),
            None => None,
        },
    }
}

/// A deep copy of a schema, equal to the original at the ghost level.
#[verifier::loop_isolation(false)]
pub fn clone_schema(s: &Schema) -> (r: Schema)
    ensures
        r@ == s@,
    decreases s,
{
    let mut fields: Vec<SchemaField> = Vec::new();
    let mut i: usize = 0;
    while i < s.fields.len()
        invariant
            0 <= i <= s.fields.len(),
            fields@.len() == i,
            forall|j: int| 0 <= j < i ==> schema_field_view(fields@[j]) == schema_field_view(
                s.fields@[j],
            ),
        decreases s.fields.len() - i,
    {
        let c = clone_field(&s.fields[i]);
        fields.push(c);
        i += 1;
    }
    proof {
        lemma_fields_view(fields@);
        lemma_fields_view(s.fields@);
        assert(fields_view(fields@) =~= fields_view(s.fields@));
    }
    Schema { fields }
}

impl Clone for FieldType {
    /// A deep copy; ghost-level equal to the original.
    fn clone(&self) -> (r: FieldType)
        ensures
            r@ == self@,
    {
        clone_field_type(self)
    }
}

impl Clone for SchemaField {
    /// A deep copy; ghost-level equal to the original.
    fn clone(&self) -> (r: SchemaField)
        ensures
            r@ == self@,
    {
        clone_field(self)
    }
}

impl Clone for Schema {
    /// A deep copy; ghost-level equal to the original.
    fn clone(&self) -> (r: Schema)
        ensures
            r@ == self@,
    {
        clone_schema(self)
    }
}

/// `spec_check_elems` finds no fault exactly when every element from `i` on
/// matches `et`.
proof fn lemma_check_elems_iff(et: SpecFieldType, items: Seq<SpecValue>, path: Seq<char>, i: int)
    requires
        0 <= i <= items.len(),
    ensures
        spec_check_elems(et, items, path, i) is None <==> (forall|j: int|
            i <= j < items.len() ==> spec_type_matches(et, #[trigger] items[j])),
    decreases et, items.len() - i + 1,
{
    if i < items.len() {
        lemma_check_type_iff(et, items[i], spec_elem_path(path, i));
        lemma_check_elems_iff(et, items, path, i + 1);
    }
}

/// `spec_check_fields` finds no fault exactly when every field declaration
/// from `i` on is satisfied by the entries.
proof fn lemma_check_fields_iff(
    fields: Seq<SpecSchemaField>,
    entries: Seq<(Seq<char>, SpecValue)>,
    prefix: Seq<char>,
    i: int,
)
    requires
        0 <= i <= fields.len(),
    ensures
        spec_check_fields(fields, entries, prefix, i) is None <==> (forall|j: int|
            i <= j < fields.len() ==> spec_field_ok(#[trigger] fields[j], entries)),
    decreases fields, fields.len() - i + 1,
{
    if i < fields.len() {
        let f = fields[i];
        lemma_check_fields_iff(fields, entries, prefix, i + 1);
        match spec_obj_get(entries, f.key) {
            None => {
                if f.required {
                    assert(!spec_field_ok(f, entries));
                    assert(spec_check_fields(fields, entries, prefix, i) is Some);
                } else {
                    assert(spec_field_ok(f, entries));
                    assert(spec_check_fields(fields, entries, prefix, i) == spec_check_fields(
                        fields,
                        entries,
                        prefix,
                        i + 1,
                    ));
                }
            },
            Some(v) => {
                lemma_check_type_iff(f.field_type, v, spec_child_path(prefix, f.key));
                if spec_check_type(f.field_type, v, spec_child_path(prefix, f.key)) is Some {
                    assert(!spec_type_matches(f.field_type, v));
                    assert(!spec_field_ok(f, entries));
                    assert(spec_check_fields(fields, entries, prefix, i) is Some);
                } else {
                    assert(spec_field_ok(f, entries));
                    assert(spec_check_fields(fields, entries, prefix, i) == spec_check_fields(
                        fields,
                        entries,
                        prefix,
                        i + 1,
                    ));
                }
            },
        }
        if spec_check_fields(fields, entries, prefix, i) is None {
            assert forall|j: int| i <= j < fields.len() implies spec_field_ok(
                #[trigger] fields[j],
                entries,
            ) by {
                if j > i {
                    assert(spec_field_ok(fields[j], entries));
                }
            }
        }
    }
}

/// `spec_check_type` finds no fault exactly when the value matches the
/// declared kind, recursively.
proof fn lemma_check_type_iff(ft: SpecFieldType, v: SpecValue, path: Seq<char>)
    ensures
        spec_check_type(ft, v, path) is None <==> spec_type_matches(ft, v),
    decreases ft, 0int,
{
    match ft {
        SpecFieldType::Array(et) => {
            if let SpecValue::Array(items) = v {
                lemma_check_elems_iff(*et, items, path, 0);
                assert(spec_check_type(ft, v, path) == spec_check_elems(*et, items, path, 0));
                assert(spec_type_matches(ft, v) == (forall|j: int|
                    0 <= j < items.len() ==> spec_type_matches(*et, #[trigger] items[j])));
            } else {
                assert(spec_check_type(ft, v, path) is Some);
                assert(!spec_type_matches(ft, v));
            }
        },
        SpecFieldType::Object(sub) => {
            if let SpecValue::Object(entries) = v {
                lemma_check_fields_iff(sub.fields, entries, path, 0);
                assert(spec_check_type(ft, v, path) == spec_check_fields(
                    sub.fields,
                    entries,
                    path,
                    0,
                ));
                assert(spec_type_matches(ft, v) == spec_schema_accepts(sub, entries));
            } else {
                assert(spec_check_type(ft, v, path) is Some);
                assert(!spec_type_matches(ft, v));
            }
        },
        _ => {},
    }
}

/// Law: validation succeeds exactly when the data is an object whose entries
/// hold every required field's key and whose every present field matches its
/// declared kind, recursively.
pub proof fn lemma_validate_ok_iff_accepts(s: SpecSchema, v: SpecValue)
    ensures
        spec_validate(s, v) is None <==> (v matches SpecValue::Object(entries)
            && spec_schema_accepts(s, entries)),
{
    if let SpecValue::Object(entries) = v {
        lemma_check_fields_iff(s.fields, entries, Seq::empty(), 0);
    }
}

/// Checks one value against one field type, reporting the first fault with
/// its path, exactly as `spec_check_type` says.
#[verifier::loop_isolation(false)]
fn check_type(ft: &FieldType, v: &Value, path: &String) -> (r: Option<ValidationError>)
    ensures
        opt_err_view(r) == spec_check_type(ft@, v@, path@),
    decreases ft,
{
    match ft {
        FieldType::String => match v {
            Value::Text(_) => None,
            _ => Some(ValidationError::TypeMismatch(path.clone(), FieldKind::String)),
        },
        FieldType::Number => match v {
            Value::Number(_) => None,
            _ => Some(ValidationError::TypeMismatch(path.clone(), FieldKind::Number)),
        },
        FieldType::Boolean => match v {
            Value::Bool(_) => None,
            _ => Some(ValidationError::TypeMismatch(path.clone(), FieldKind::Boolean)),
        },
        FieldType::Date => match v {
            Value::Text(_) => None,
            _ => Some(ValidationError::TypeMismatch(path.clone(), FieldKind::Date)),
        },
        FieldType::Array(et) => match v {
            Value::Array(items) => {
                let ghost set = (**et)@;
                let ghost sv = values_view(items@);
                proof {
                    lemma_values_view(items@);
                }
                let mut i: usize = 0;
                while i < items.len()
                    invariant
                        0 <= i <= items.len(),
                        spec_check_elems(set, sv, path@, 0) == spec_check_elems(
                            set,
                            sv,
                            path@,
                            i as int,
                        ),
                    decreases items.len() - i,
                {
                    let p = elem_path(path.as_str(), i);
                    let r = check_type(&**et, &items[i], &p);
                    match r {
                        Some(e) => {
                            return Some(e);
                        },
                        None => {},
                    }
                    i += 1;
                }
                proof {
                    assert(spec_check_elems(set, sv, path@, i as int) is None);
                    assert(spec_check_elems(set, sv, path@, 0) is None);
                    assert(v@ == SpecValue::Array(sv));
                    assert(ft@ == SpecFieldType::Array(Box::new(set)));
                    assert(spec_check_type(ft@, v@, path@) == spec_check_elems(set, sv, path@, 0));
                }
                None
            },
            _ => Some(ValidationError::TypeMismatch(path.clone(), FieldKind::Array)),
        },
        FieldType::Object(sub) => match v {
            Value::Object(entries) => {
                let r = check_fields(&sub.fields, entries, path.as_str());
                proof {
                    assert(ft@ == SpecFieldType::Object(schema_view(**sub)));
                    assert(v@ == SpecValue::Object(entries_view(entries@)));
                    assert(opt_err_view(r) == spec_check_fields(
                        fields_view(sub.fields@),
                        entries_view(entries@),
                        path@,
                        0,
                    ));
                    assert(spec_check_type(ft@, v@, path@) == spec_check_fields(
                        fields_view(sub.fields@),
                        entries_view(entries@),
                        path@,
                        0,
                    ));
                }
                r
            },
            _ => Some(ValidationError::TypeMismatch(path.clone(), FieldKind::Object)),
        },
    }
}

/// Checks an object's entries against a list of field declarations whose
/// parent object sits at `prefix`, reporting the first fault in declaration
/// order, exactly as `spec_check_fields` says.
#[verifier::loop_isolation(false)]
fn check_fields(
    fields: &Vec<SchemaField>,
    entries: &Vec<(String, Value)>,
    prefix: &str,
) -> (r: Option<ValidationError>)
    ensures
        opt_err_view(r) == spec_check_fields(
            fields_view(fields@),
            entries_view(entries@),
            prefix@,
            0,
        ),
    decreases fields,
{
    let ghost fv = fields_view(fields@);
    let ghost ev = entries_view(entries@);
    proof {
        lemma_fields_view(fields@);
    }
    let mut i: usize = 0;
    while i < fields.len()
        invariant
            0 <= i <= fields.len(),
            spec_check_fields(fv, ev, prefix@, 0) == spec_check_fields(fv, ev, prefix@, i as int),
        decreases fields.len() - i,
    {
        let f = &fields[i];
        match obj_get(entries, &f.key) {
            None => {
                if f.required {
                    let p = child_path(prefix, &f.key);
                    return Some(ValidationError::MissingRequiredField(p));
                }
            },
            Some(v) => {
                let p = child_path(prefix, &f.key);
                let r = check_type(&f.field_type, v, &p);
                match r {
                    Some(e) => {
                        return Some(e);
                    },
                    None => {},
                }
            },
        }
        i += 1;
    }
    None
}

impl Schema {
    /// Creates an empty schema.
    pub fn new() -> (s: Schema)
        ensures
            s@.fields.len() == 0,
    {
        Schema { fields: Vec::new() }
    }

    /// Appends one field declaration, after every field already declared.
    pub fn add_field(&mut self, field: SchemaField)
        ensures
            final(self)@.fields == old(self)@.fields.push(field@),
    {
        proof {
            lemma_fields_view(self.fields@.push(field));
            lemma_fields_view(self.fields@);
            assert(fields_view(self.fields@.push(field)) =~= fields_view(self.fields@).push(
                field@,
            ));
        }
        self.fields.push(field);
    }

    /// Validates a value tree against this schema: `Ok` when it conforms,
    /// else the first fault in declaration order, with its full dotted path,
    /// exactly as `spec_validate` says.
    pub fn validate(&self, data: &Value) -> (r: Result<(), ValidationError>)
        ensures
            match r {
                Ok(_) => spec_validate(self@, data@) is None,
                Err(e) => spec_validate(self@, data@) == Some(e@),
            },
            r is Ok <==> (data@ matches SpecValue::Object(entries) && spec_schema_accepts(
                self@,
                entries,
            )),
    {
        proof {
            lemma_validate_ok_iff_accepts(self@, data@);
        }
        match data {
            Value::Object(entries) => {
                proof {
                    reveal_strlit("");
                    assert(""@ =~= Seq::<char>::empty());
                }
                match check_fields(&self.fields, entries, "") {
                    None => Ok(()),
                    Some(e) => Err(e),
                }
            },
            _ => Err(ValidationError::NotAnObject),
        }
    }
}

} // verus!
