//! Generates client-side type declarations and typed request wrappers from a
//! JSON-Schema based API description.
//!
//! The pipeline: a raw schema document is resolved into a normalized
//! intermediate representation (IR) of types and routes, which target-language
//! emitters then render as source text.

use vstd::prelude::*;

pub mod ir;
pub mod raw;
pub mod tables;
pub mod text;
pub mod resolve;
pub mod routes;
pub mod emit_ts;
pub mod emit_dart;
pub mod generate;
pub mod laws;

verus! {

/// The failures a generation run can report. Every error is fatal for the
/// run that encounters it; the payload names the offending input.
#[derive(Debug)]
pub enum GenError {
    /// A reference names a schema the document does not define.
    UnresolvedReference(String),
    /// A reference cycle was detected through a node with an empty name.
    SchemaCycleWithoutName,
    /// No resolution rule matches the shape of a node.
    UnsupportedSchema(String),
    /// A string schema carries an unrecognized format and no enumeration.
    UnsupportedFormat(String),
    /// An operation parameter carries no schema.
    MissingParameterSchema,
    /// A request body declares more than one content type.
    MultipleRequestContentTypes,
    /// A multipart request body resolved to a non-object type.
    MultipartBodyMustBeObject,
    /// An emitter met the resolution-in-progress sentinel.
    UnhandledIrVariant,
}

/// Ghost mirror of `GenError`.
pub ghost enum ErrV {
    UnresolvedReference(Seq<char>),
    SchemaCycleWithoutName,
    UnsupportedSchema(Seq<char>),
    UnsupportedFormat(Seq<char>),
    MissingParameterSchema,
    MultipleRequestContentTypes,
    MultipartBodyMustBeObject,
    UnhandledIrVariant,
}

pub open spec fn err_view(e: GenError) -> ErrV {
    match e {
        GenError::UnresolvedReference(n) => ErrV::UnresolvedReference(n@),
        GenError::SchemaCycleWithoutName => ErrV::SchemaCycleWithoutName,
        GenError::UnsupportedSchema(s) => ErrV::UnsupportedSchema(s@),
        GenError::UnsupportedFormat(s) => ErrV::UnsupportedFormat(s@),
        GenError::MissingParameterSchema => ErrV::MissingParameterSchema,
        GenError::MultipleRequestContentTypes => ErrV::MultipleRequestContentTypes,
        GenError::MultipartBodyMustBeObject => ErrV::MultipartBodyMustBeObject,
        GenError::UnhandledIrVariant => ErrV::UnhandledIrVariant,
    }
}

impl View for GenError {
    type V = ErrV;

    open spec fn view(&self) -> ErrV {
        err_view(*self)
    }
}

} // verus!
