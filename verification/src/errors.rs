//! The coarse error surface of the library, and the exact message each
//! validation fault renders to.

use vstd::prelude::*;

use crate::schema::{FieldKind, SpecValidationError, ValidationError};

verus! {

/// An error of the template pipeline, each with a human-readable message.
#[derive(Debug)]
pub enum TypstError {
    TemplateError(String),
    SchemaValidationError(String),
    RenderError(String),
    IoError(String),
    InvalidInput(String),
}

impl TypstError {
    /// The message the error carries.
    pub fn message(&self) -> (r: &String)
        ensures
            match self {
                TypstError::TemplateError(m) => r == m,
                TypstError::SchemaValidationError(m) => r == m,
                TypstError::RenderError(m) => r == m,
                TypstError::IoError(m) => r == m,
                TypstError::InvalidInput(m) => r == m,
            },
    {
        match self {
            TypstError::TemplateError(m) => m,
            TypstError::SchemaValidationError(m) => m,
            TypstError::RenderError(m) => m,
            TypstError::IoError(m) => m,
            TypstError::InvalidInput(m) => m,
        }
    }
}

/// The word a mismatch message names for each declared kind.
pub open spec fn spec_kind_word(k: FieldKind) -> Seq<char> {
    match k {
        FieldKind::String => "a string"@,
        FieldKind::Number => "a number"@,
        FieldKind::Boolean => "a boolean"@,
        FieldKind::Date => "a date"@,
        FieldKind::Array => "an array"@,
        FieldKind::Object => "an object"@,
    }
}

/// The message a validation fault renders to: the exact field path and the
/// nature of the mismatch.
pub open spec fn spec_validation_message(e: SpecValidationError) -> Seq<char> {
    match e {
        SpecValidationError::NotAnObject => "data must be an object"@,
        SpecValidationError::MissingRequiredField { path } => "missing required field: "@ + path,
        SpecValidationError::TypeMismatch { path, expected } => "field "@ + path + " must be "@
            + spec_kind_word(expected),
    }
}

/// The word for one declared kind.
fn kind_word(k: FieldKind) -> (r: &'static str)
    ensures
        r@ == spec_kind_word(k),
{
    match k {
        FieldKind::String => "a string",
        FieldKind::Number => "a number",
        FieldKind::Boolean => "a boolean",
        FieldKind::Date => "a date",
        FieldKind::Array => "an array",
        FieldKind::Object => "an object",
    }
}

impl TypstError {
    /// Renders a validation fault as a schema-validation error whose message
    /// names the exact path and expected kind.
    pub fn from_validation(e: &ValidationError) -> (r: TypstError)
        ensures
            r matches TypstError::SchemaValidationError(m) && m@ == spec_validation_message(e@),
    {
        proof {
            reveal_strlit("data must be an object");
            reveal_strlit("missing required field: ");
            reveal_strlit("field ");
            reveal_strlit(" must be ");
        }
        match e {
            ValidationError::NotAnObject => {
                let m = String::from_str("data must be an object");
                TypstError::SchemaValidationError(m)
            },
            ValidationError::MissingRequiredField(path) => {
                let mut m = String::from_str("missing required field: ");
                m.append(path.as_str());
                TypstError::SchemaValidationError(m)
            },
            ValidationError::TypeMismatch(path, kind) => {
                let mut m = String::from_str("field ");
                m.append(path.as_str());
                m.append(" must be ");
                m.append(kind_word(*kind));
                TypstError::SchemaValidationError(m)
            },
        }
    }
}

} // verus!
