//! The compiled keyword validators: one unit of compiled schema per JSON
//! Schema keyword, each holding exactly the data its keyword needs.

use vstd::prelude::*;

use crate::json::JsonNumber;
use crate::json::JsonValue;
use crate::validator::Validator;

verus! {

/// The seven primitive JSON Schema type names.
#[derive(Clone, Copy, PartialEq, Eq, Structural, Debug)]
pub enum PrimitiveType {
    Null,
    Boolean,
    Integer,
    Number,
    Str,
    Array,
    Object,
}

/// `type` with a list of allowed primitive types.
pub struct MultipleTypesValidator {
    pub types: Vec<PrimitiveType>,
}

/// `type: "integer"`.
pub struct IntegerTypeValidator {}

/// `type` with a single primitive type other than `integer`.
pub struct SingleTypeValidator {
    pub typ: PrimitiveType,
}

/// `enum`: the instance must be JSON-equal to one of the options.
pub struct EnumValidator {
    pub items: Vec<JsonValue>,
}

/// `minimum`: a number must be at least the limit.
pub struct MinimumValidator {
    pub limit: JsonNumber,
}

/// `maximum`: a number must be at most the limit.
pub struct MaximumValidator {
    pub limit: JsonNumber,
}

/// `exclusiveMinimum`: a number must be strictly above the limit.
pub struct ExclusiveMinimumValidator {
    pub limit: JsonNumber,
}

/// `exclusiveMaximum`: a number must be strictly below the limit.
pub struct ExclusiveMaximumValidator {
    pub limit: JsonNumber,
}

/// `maxItems`: an array may have at most this many elements.
pub struct MaxItemsValidator {
    pub limit: u64,
}

/// `minItems`: an array must have at least this many elements.
pub struct MinItemsValidator {
    pub limit: u64,
}

/// `maxLength`: a string may have at most this many Unicode scalar values.
pub struct MaxLengthValidator {
    pub limit: u64,
}

/// `minLength`: a string must have at least this many Unicode scalar values.
pub struct MinLengthValidator {
    pub limit: u64,
}

/// `maxProperties`: an object may have at most this many properties.
pub struct MaxPropertiesValidator {
    pub limit: u64,
}

/// `minProperties`: an object must have at least this many properties.
pub struct MinPropertiesValidator {
    pub limit: u64,
}

/// `required`: each listed property must be present in an object instance.
pub struct RequiredValidator {
    pub required: Vec<String>,
}

/// `dependentRequired`: when a key is present, its listed properties must be
/// present too.
pub struct DependentRequiredValidator {
    pub dependent: Vec<(String, Vec<String>)>,
}

/// `properties`: each listed property that is present is validated against
/// its subschema's validators.
pub struct PropertiesValidator {
    pub properties: Vec<(String, Vec<Validator>)>,
}

/// `contains`: at least one array element satisfies the subschema.
pub struct ContainsValidator {
    pub validators: Vec<Validator>,
}

/// `contains` with `minContains`: at least `min_contains` elements match.
pub struct MinContainsValidator {
    pub validators: Vec<Validator>,
    pub min_contains: u64,
}

/// `contains` with `maxContains`: between one and `max_contains` elements
/// match.
pub struct MaxContainsValidator {
    pub validators: Vec<Validator>,
    pub max_contains: u64,
}

/// `contains` with both bounds: the match count must lie between them.
pub struct MinMaxContainsValidator {
    pub validators: Vec<Validator>,
    pub min_contains: u64,
    pub max_contains: u64,
}

/// `$ref`: evaluate the node table entry at `target` in place.
pub struct RefValidator {
    pub target: usize,
}

} // verus!
