//! The error model: structured validation errors carrying a kind, the
//! instance path at the failure and the offending value, and compilation
//! errors for malformed schemas and unresolvable references.

use vstd::prelude::*;

use crate::json::JsonValue;
use crate::json::same_json;
use crate::paths::GChunk;
use crate::paths::InstancePath;

verus! {

/// Why a value failed validation (the stable error taxonomy).
#[derive(Debug, PartialEq)]
pub enum ErrorKind {
    Type,
    Enum,
    Required(String),
    Properties,
    Contains,
    Minimum,
    Maximum,
    ExclusiveMinimum,
    ExclusiveMaximum,
    MaxItems,
    MinItems,
    MaxProperties,
    MinProperties,
    MaxLength,
    MinLength,
    Pattern,
    UniqueItems,
    MultipleOf,
    Format,
    Const,
    AllOf,
    AnyOf,
    OneOf,
    Not,
    Reference,
    FalseSchema,
}

/// The mathematical form of an error kind.
pub enum GKind {
    Type,
    Enum,
    Required(Seq<char>),
    Properties,
    Contains,
    Minimum,
    Maximum,
    ExclusiveMinimum,
    ExclusiveMaximum,
    MaxItems,
    MinItems,
    MaxProperties,
    MinProperties,
    MaxLength,
    MinLength,
    Pattern,
    UniqueItems,
    MultipleOf,
    Format,
    Const,
    AllOf,
    AnyOf,
    OneOf,
    Not,
    Reference,
    FalseSchema,
}

impl View for ErrorKind {
    type V = GKind;

    open spec fn view(&self) -> GKind {
        match self {
            ErrorKind::Type => GKind::Type,
            ErrorKind::Enum => GKind::Enum,
            ErrorKind::Required(name) => GKind::Required(name@),
            ErrorKind::Properties => GKind::Properties,
            ErrorKind::Contains => GKind::Contains,
            ErrorKind::Minimum => GKind::Minimum,
            ErrorKind::Maximum => GKind::Maximum,
            ErrorKind::ExclusiveMinimum => GKind::ExclusiveMinimum,
            ErrorKind::ExclusiveMaximum => GKind::ExclusiveMaximum,
            ErrorKind::MaxItems => GKind::MaxItems,
            ErrorKind::MinItems => GKind::MinItems,
            ErrorKind::MaxProperties => GKind::MaxProperties,
            ErrorKind::MinProperties => GKind::MinProperties,
            ErrorKind::MaxLength => GKind::MaxLength,
            ErrorKind::MinLength => GKind::MinLength,
            ErrorKind::Pattern => GKind::Pattern,
            ErrorKind::UniqueItems => GKind::UniqueItems,
            ErrorKind::MultipleOf => GKind::MultipleOf,
            ErrorKind::Format => GKind::Format,
            ErrorKind::Const => GKind::Const,
            ErrorKind::AllOf => GKind::AllOf,
            ErrorKind::AnyOf => GKind::AnyOf,
            ErrorKind::OneOf => GKind::OneOf,
            ErrorKind::Not => GKind::Not,
            ErrorKind::Reference => GKind::Reference,
            ErrorKind::FalseSchema => GKind::FalseSchema,
        }
    }
}

/// The mathematical form of a validation error: its kind, the path of the
/// offending value inside the instance, and that value itself.
pub struct GError {
    pub kind: GKind,
    pub path: Seq<GChunk>,
    pub value: JsonValue,
}

/// A validation error: the kind of failure, the instance path at which it
/// occurred, and the offending value (a copy of the sub-document the path
/// addresses).
pub struct ValidationError {
    pub kind: ErrorKind,
    pub instance_path: InstancePath,
    pub instance: JsonValue,
}

impl View for ValidationError {
    type V = GError;

    open spec fn view(&self) -> GError {
        GError { kind: self.kind@, path: self.instance_path@, value: self.instance }
    }
}

/// An error agrees with its mathematical form: same kind, same path, and a
/// structurally identical offending value.
pub open spec fn gerr_match(a: GError, b: GError) -> bool {
    a.kind == b.kind && a.path == b.path && same_json(a.value, b.value)
}

/// A produced error list agrees with a mathematical one, error for error and
/// in the same order.
pub open spec fn errs_match(actual: Seq<ValidationError>, expected: Seq<GError>) -> bool {
    &&& actual.len() == expected.len()
    &&& forall|i: int| 0 <= i < actual.len() ==> gerr_match((#[trigger] actual[i])@, expected[i])
}

/// Why a schema failed to compile: a malformed construct, or a reference
/// that could not be resolved.
#[derive(Debug, PartialEq)]
pub enum CompilationError {
    SchemaError(String),
    ResolutionError(String),
}

} // verus!
