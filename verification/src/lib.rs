//! A JSON Schema validator: schema documents compile into a tree of keyword
//! validators, and instances are evaluated against that tree in two modes, a
//! boolean short-circuit verdict and an ordered stream of structured errors,
//! each carrying the JSON Pointer of the value that failed.
//!
//! The library proves, among other things, that the two evaluation modes
//! always agree, that every emitted error addresses exactly its own
//! offending value, that recompiling a schema never changes any verdict,
//! and that rendering an instance path as a JSON Pointer and parsing it
//! back yields the same segments.

mod compiler;
mod determinism;
mod errors;
mod json;
mod keywords;
mod paths;
mod schema;
mod validator;

pub use compiler::compile_single_type;
pub use compiler::Draft;
pub use errors::CompilationError;
pub use errors::ErrorKind;
pub use errors::ValidationError;
pub use json::JsonNumber;
pub use json::JsonValue;
pub use keywords::EnumValidator;
pub use keywords::ExclusiveMaximumValidator;
pub use keywords::ExclusiveMinimumValidator;
pub use keywords::IntegerTypeValidator;
pub use keywords::MaxItemsValidator;
pub use keywords::MaxPropertiesValidator;
pub use keywords::MinLengthValidator;
pub use keywords::MultipleTypesValidator;
pub use keywords::PropertiesValidator;
pub use keywords::RequiredValidator;
pub use paths::parse_pointer;
pub use paths::GChunk;
pub use paths::InstancePath;
pub use paths::PathChunk;
pub use schema::CompilationOptions;
pub use schema::ErrorIterator;
pub use schema::JSONSchema;
pub use validator::Validator;
