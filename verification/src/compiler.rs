//! The keyword registry and the compiler: walking a schema object in key
//! order, dispatching each recognized keyword for the active draft to its
//! keyword compiler, and producing the node's validator list.
//!
//! A boolean schema yields a single constant validator. An unknown keyword
//! is skipped silently. A malformed keyword value aborts compilation with a
//! schema error; a reference to anything but the root aborts it with a
//! resolution error.

use vstd::prelude::*;
use vstd::string::StrSliceExecFns;

use crate::errors::CompilationError;
use crate::json::json_wf;
use crate::json::lemma_same_json_wf;
use crate::json::obj_lookup;
use crate::json::spec_lookup;
use crate::json::JsonValue;
use crate::keywords::ContainsValidator;
use crate::keywords::DependentRequiredValidator;
use crate::keywords::EnumValidator;
use crate::keywords::ExclusiveMaximumValidator;
use crate::keywords::ExclusiveMinimumValidator;
use crate::keywords::IntegerTypeValidator;
use crate::keywords::MaxContainsValidator;
use crate::keywords::MaxItemsValidator;
use crate::keywords::MaxLengthValidator;
use crate::keywords::MaxPropertiesValidator;
use crate::keywords::MaximumValidator;
use crate::keywords::MinContainsValidator;
use crate::keywords::MinItemsValidator;
use crate::keywords::MinLengthValidator;
use crate::keywords::MinMaxContainsValidator;
use crate::keywords::MinPropertiesValidator;
use crate::keywords::MinimumValidator;
use crate::keywords::MultipleTypesValidator;
use crate::keywords::PrimitiveType;
use crate::keywords::PropertiesValidator;
use crate::keywords::RefValidator;
use crate::keywords::RequiredValidator;
use crate::keywords::SingleTypeValidator;
use crate::validator::validator_wf;
use crate::validator::validators_wf;
use crate::validator::Validator;

verus! {

/// A revision of the JSON Schema specification.
#[derive(Clone, Copy, PartialEq, Eq, Structural, Debug)]
pub enum Draft {
    Draft4,
    Draft6,
    Draft7,
    Draft201909,
}

/// What the registry does with one keyword: pass over it, compile it, or
/// reject the schema.
pub enum GDisp {
    Skip,
    Emit,
    Fail,
}

/// The primitive type a `type` name denotes.
pub open spec fn type_from_name(s: Seq<char>) -> Option<PrimitiveType> {
    if s == "integer"@ {
        Some(PrimitiveType::Integer)
    } else if s == "null"@ {
        Some(PrimitiveType::Null)
    } else if s == "boolean"@ {
        Some(PrimitiveType::Boolean)
    } else if s == "string"@ {
        Some(PrimitiveType::Str)
    } else if s == "array"@ {
        Some(PrimitiveType::Array)
    } else if s == "object"@ {
        Some(PrimitiveType::Object)
    } else if s == "number"@ {
        Some(PrimitiveType::Number)
    } else {
        None
    }
}

/// The primitive types named by a list of type names; `None` when an entry
/// is not a known type name.
pub open spec fn types_of(items: Seq<JsonValue>) -> Option<Seq<PrimitiveType>>
    decreases items.len(),
{
    if items.len() == 0 {
        Some(Seq::empty())
    } else {
        match items[0] {
            JsonValue::Str(s) => match type_from_name(s@) {
                Some(t) => match types_of(items.drop_first()) {
                    Some(ts) => Some(seq![t] + ts),
                    None => None,
                },
                None => None,
            },
            _ => None,
        }
    }
}

/// The count limit a keyword value denotes: a canonical, integral,
/// non-negative number within range.
pub open spec fn count_limit_of(v: JsonValue) -> Option<u64> {
    match v {
        JsonValue::Number(n) => if n.nanos == 0 && 0 <= n.units <= u64::MAX {
            Some(n.units as u64)
        } else {
            None
        },
        _ => None,
    }
}

/// Whether a value is an array of strings, pairwise distinct.
pub open spec fn distinct_names(v: JsonValue) -> bool {
    match v {
        JsonValue::Array(a) => {
            &&& forall|i: int| 0 <= i < a@.len() ==> (#[trigger] a@[i]) is Str
            &&& forall|i: int, j: int|
                0 <= i < j < a@.len() ==> a@[i]->Str_0@ != a@[j]->Str_0@
        },
        _ => false,
    }
}

/// Whether a value is an array of strings.
pub open spec fn name_list(v: JsonValue) -> bool {
    match v {
        JsonValue::Array(a) => forall|i: int| 0 <= i < a@.len() ==> (#[trigger] a@[i]) is Str,
        _ => false,
    }
}

/// What the registry does with one keyword of a schema object under the
/// given draft.
pub open spec fn kw_outcome(
    draft: Draft,
    parent: Seq<(String, JsonValue)>,
    key: Seq<char>,
    value: JsonValue,
) -> GDisp
    decreases value, 2int, 0int,
        via kw_outcome_decreases
{
    if key == "type"@ {
        match value {
            JsonValue::Str(s) => if type_from_name(s@) is Some {
                GDisp::Emit
            } else {
                GDisp::Fail
            },
            JsonValue::Array(items) => if types_of(items@) is Some {
                GDisp::Emit
            } else {
                GDisp::Fail
            },
            _ => GDisp::Fail,
        }
    } else if key == "enum"@ {
        if value is Array {
            GDisp::Emit
        } else {
            GDisp::Fail
        }
    } else if key == "minimum"@ || key == "maximum"@ {
        if value is Number {
            GDisp::Emit
        } else {
            GDisp::Fail
        }
    } else if key == "exclusiveMinimum"@ || key == "exclusiveMaximum"@ {
        if draft == Draft::Draft4 {
            GDisp::Skip
        } else if value is Number {
            GDisp::Emit
        } else {
            GDisp::Fail
        }
    } else if key == "maxItems"@ || key == "minItems"@ || key == "maxLength"@ || key
        == "minLength"@ || key == "maxProperties"@ || key == "minProperties"@ {
        if count_limit_of(value) is Some {
            GDisp::Emit
        } else {
            GDisp::Fail
        }
    } else if key == "required"@ {
        if name_list(value) {
            GDisp::Emit
        } else {
            GDisp::Fail
        }
    } else if key == "dependentRequired"@ {
        if draft != Draft::Draft201909 {
            GDisp::Skip
        } else {
            match value {
                JsonValue::Object(rows) => if forall|i: int|
                    0 <= i < rows@.len() ==> distinct_names((#[trigger] rows@[i]).1) {
                    GDisp::Emit
                } else {
                    GDisp::Fail
                },
                _ => GDisp::Fail,
            }
        }
    } else if key == "properties"@ {
        match value {
            JsonValue::Object(pf) => if forall|i: int|
                0 <= i < pf@.len() ==> compilable(draft, (#[trigger] pf@[i]).1) {
                GDisp::Emit
            } else {
                GDisp::Fail
            },
            _ => GDisp::Fail,
        }
    } else if key == "contains"@ {
        if draft == Draft::Draft4 {
            GDisp::Skip
        } else if !compilable(draft, value) {
            GDisp::Fail
        } else if draft != Draft::Draft201909 {
            GDisp::Emit
        } else {
            match spec_lookup(parent, "minContains"@) {
                Some(mn) => if count_limit_of(mn) is None {
                    GDisp::Fail
                } else {
                    match spec_lookup(parent, "maxContains"@) {
                        Some(mx) => if count_limit_of(mx) is Some {
                            GDisp::Emit
                        } else {
                            GDisp::Fail
                        },
                        None => GDisp::Emit,
                    }
                },
                None => match spec_lookup(parent, "maxContains"@) {
                    Some(mx) => if count_limit_of(mx) is Some {
                        GDisp::Emit
                    } else {
                        GDisp::Fail
                    },
                    None => GDisp::Emit,
                },
            }
        }
    } else if key == "$ref"@ {
        match value {
            JsonValue::Str(s) => if s@ == "#"@ {
                GDisp::Emit
            } else {
                GDisp::Fail
            },
            _ => GDisp::Fail,
        }
    } else {
        GDisp::Skip
    }
}

#[via_fn]
proof fn kw_outcome_decreases(
    draft: Draft,
    parent: Seq<(String, JsonValue)>,
    key: Seq<char>,
    value: JsonValue,
) {
    if let JsonValue::Object(pf) = value {
        assert forall|i: int| 0 <= i < pf@.len() implies decreases_to!(value => (#[trigger] pf@[i]).1) by {
            assert(decreases_to!(value => value->Object_0));
            assert(decreases_to!(pf => pf@));
            assert(decreases_to!(pf@ => pf@[i]));
            assert(decreases_to!(pf@[i] => pf@[i].1));
        }
    }
}

/// Whether a schema node compiles under the given draft: a boolean always
/// does; an object does when no keyword is rejected.
pub open spec fn compilable(draft: Draft, schema: JsonValue) -> bool
    decreases schema, 1int, 0int,
        via compilable_decreases
{
    match schema {
        JsonValue::Bool(_) => true,
        JsonValue::Object(fields) => forall|i: int|
            0 <= i < fields@.len() ==> kw_outcome(
                draft,
                fields@,
                (#[trigger] fields@[i]).0@,
                fields@[i].1,
            ) != GDisp::Fail,
        _ => false,
    }
}

#[via_fn]
proof fn compilable_decreases(draft: Draft, schema: JsonValue) {
    if let JsonValue::Object(fields) = schema {
        assert forall|i: int|
            0 <= i < fields@.len() implies decreases_to!(schema => (#[trigger] fields@[i]).1) by {
            assert(decreases_to!(schema => schema->Object_0));
            assert(decreases_to!(fields => fields@));
            assert(decreases_to!(fields@ => fields@[i]));
            assert(decreases_to!(fields@[i] => fields@[i].1));
        }
    }
}

/// Whether one emitted validator is exactly what the keyword's compiler
/// produces for this keyword value (texts and documents compared by their
/// mathematical content).
pub open spec fn kw_matches(
    draft: Draft,
    parent: Seq<(String, JsonValue)>,
    key: Seq<char>,
    value: JsonValue,
    v: Validator,
) -> bool
    decreases value, 3int, 0int,
        via kw_matches_decreases
{
    if key == "type"@ {
        match value {
            JsonValue::Str(s) => single_type_matches(s@, v),
            JsonValue::Array(items) => if items@.len() == 1 {
                items@[0] matches JsonValue::Str(s) && single_type_matches(s@, v)
            } else {
                v matches Validator::MultipleTypes(mt) && Some(mt.types@) == types_of(items@)
            },
            _ => false,
        }
    } else if key == "enum"@ {
        match value {
            JsonValue::Array(items) => v matches Validator::Enum(e) && e.items@.len()
                == items@.len() && (forall|i: int|
                0 <= i < items@.len() ==> crate::json::same_json(
                    (#[trigger] e.items@[i]),
                    items@[i],
                )),
            _ => false,
        }
    } else if key == "minimum"@ {
        value matches JsonValue::Number(n) && v == Validator::Minimum(MinimumValidator { limit: n })
    } else if key == "maximum"@ {
        value matches JsonValue::Number(n) && v == Validator::Maximum(MaximumValidator { limit: n })
    } else if key == "exclusiveMinimum"@ {
        value matches JsonValue::Number(n) && v == Validator::ExclusiveMinimum(
            ExclusiveMinimumValidator { limit: n },
        )
    } else if key == "exclusiveMaximum"@ {
        value matches JsonValue::Number(n) && v == Validator::ExclusiveMaximum(
            ExclusiveMaximumValidator { limit: n },
        )
    } else if key == "maxItems"@ {
        count_limit_of(value) matches Some(l) && v == Validator::MaxItems(
            MaxItemsValidator { limit: l },
        )
    } else if key == "minItems"@ {
        count_limit_of(value) matches Some(l) && v == Validator::MinItems(
            MinItemsValidator { limit: l },
        )
    } else if key == "maxLength"@ {
        count_limit_of(value) matches Some(l) && v == Validator::MaxLength(
            MaxLengthValidator { limit: l },
        )
    } else if key == "minLength"@ {
        count_limit_of(value) matches Some(l) && v == Validator::MinLength(
            MinLengthValidator { limit: l },
        )
    } else if key == "maxProperties"@ {
        count_limit_of(value) matches Some(l) && v == Validator::MaxProperties(
            MaxPropertiesValidator { limit: l },
        )
    } else if key == "minProperties"@ {
        count_limit_of(value) matches Some(l) && v == Validator::MinProperties(
            MinPropertiesValidator { limit: l },
        )
    } else if key == "required"@ {
        match value {
            JsonValue::Array(items) => v matches Validator::Required(rq) && rq.required@.len()
                == items@.len() && (forall|i: int|
                0 <= i < items@.len() ==> ((#[trigger] items@[i]) matches JsonValue::Str(s)
                    && rq.required@[i]@ == s@)),
            _ => false,
        }
    } else if key == "dependentRequired"@ {
        match value {
            JsonValue::Object(rows) => v matches Validator::DependentRequired(d)
                && d.dependent@.len() == rows@.len() && (forall|i: int|
                0 <= i < rows@.len() ==> (#[trigger] d.dependent@[i]).0@ == rows@[i].0@
                    && names_match(d.dependent@[i].1@, rows@[i].1)),
            _ => false,
        }
    } else if key == "properties"@ {
        match value {
            JsonValue::Object(pf) => v matches Validator::Properties(p) && p.properties@.len()
                == pf@.len() && (forall|i: int|
                0 <= i < pf@.len() ==> (#[trigger] p.properties@[i]).0@ == pf@[i].0@
                    && node_matches(draft, pf@[i].1, p.properties@[i].1@)),
            _ => false,
        }
    } else if key == "contains"@ {
        if draft == Draft::Draft201909 {
            match spec_lookup(parent, "minContains"@) {
                Some(mn) => match spec_lookup(parent, "maxContains"@) {
                    Some(mx) => v matches Validator::MinMaxContains(c) && node_matches(
                        draft,
                        value,
                        c.validators@,
                    ) && Some(c.min_contains) == count_limit_of(mn) && Some(c.max_contains)
                        == count_limit_of(mx),
                    None => v matches Validator::MinContains(c) && node_matches(
                        draft,
                        value,
                        c.validators@,
                    ) && Some(c.min_contains) == count_limit_of(mn),
                },
                None => match spec_lookup(parent, "maxContains"@) {
                    Some(mx) => v matches Validator::MaxContains(c) && node_matches(
                        draft,
                        value,
                        c.validators@,
                    ) && Some(c.max_contains) == count_limit_of(mx),
                    None => v matches Validator::Contains(c) && node_matches(
                        draft,
                        value,
                        c.validators@,
                    ),
                },
            }
        } else {
            v matches Validator::Contains(c) && node_matches(draft, value, c.validators@)
        }
    } else if key == "$ref"@ {
        v == Validator::Ref(RefValidator { target: 0 })
    } else {
        false
    }
}

/// Whether a name list holds exactly the strings of a schema array.
pub open spec fn names_match(ns: Seq<String>, value: JsonValue) -> bool {
    match value {
        JsonValue::Array(items) => ns.len() == items@.len() && (forall|j: int|
            0 <= j < items@.len() ==> ((#[trigger] items@[j]) matches JsonValue::Str(s)
                && ns[j]@ == s@)),
        _ => false,
    }
}

/// Whether a single `type` name compiles to exactly this validator.
pub open spec fn single_type_matches(s: Seq<char>, v: Validator) -> bool {
    match type_from_name(s) {
        Some(PrimitiveType::Integer) => v == Validator::IntegerType(IntegerTypeValidator {  }),
        Some(t) => v == Validator::SingleType(SingleTypeValidator { typ: t }),
        None => false,
    }
}

/// Whether a validator list is exactly what compiling a schema node yields:
/// the keywords of the node, in key order, skipped or compiled as the
/// registry directs.
pub open spec fn node_matches(draft: Draft, schema: JsonValue, vs: Seq<Validator>) -> bool
    decreases schema, 2int, 0int,
{
    match schema {
        JsonValue::Bool(b) => vs == if b {
            seq![Validator::AlwaysValid]
        } else {
            seq![Validator::AlwaysInvalid]
        },
        JsonValue::Object(fields) => prefix_matches(
            draft,
            fields@,
            fields@.len() as int,
            vs,
        ),
        _ => false,
    }
}

/// Whether `vs` is exactly the validators emitted for the first `upto`
/// keywords of a schema object.
pub open spec fn prefix_matches(
    draft: Draft,
    fields: Seq<(String, JsonValue)>,
    upto: int,
    vs: Seq<Validator>,
) -> bool
    decreases fields, 1int, upto,
        via prefix_matches_decreases
{
    if upto <= 0 {
        vs.len() == 0
    } else if upto > fields.len() {
        false
    } else {
        match kw_outcome(draft, fields, fields[upto - 1].0@, fields[upto - 1].1) {
            GDisp::Skip => prefix_matches(draft, fields, upto - 1, vs),
            GDisp::Fail => false,
            GDisp::Emit => vs.len() > 0 && prefix_matches(draft, fields, upto - 1, vs.drop_last())
                && kw_matches(draft, fields, fields[upto - 1].0@, fields[upto - 1].1, vs.last()),
        }
    }
}

#[via_fn]
proof fn prefix_matches_decreases(
    draft: Draft,
    fields: Seq<(String, JsonValue)>,
    upto: int,
    vs: Seq<Validator>,
) {
    if 0 < upto <= fields.len() {
        assert(decreases_to!(fields => fields[upto - 1]));
        assert(decreases_to!(fields[upto - 1] => fields[upto - 1].1));
    }
}

/// Whether the first failure compiling this schema node is a reference
/// failure (a `$ref` naming anything but the root) rather than a structural
/// one, walking keywords in key order and subschemas the way the compiler
/// does. `false` when the node compiles.
pub open spec fn node_fails_resolution(draft: Draft, schema: JsonValue) -> bool
    decreases schema, 5int, 0int,
{
    match schema {
        JsonValue::Object(fields) => fields_fail_resolution(draft, fields@, 0),
        _ => false,
    }
}

/// Whether the first rejected keyword at or after position `i` fails with a
/// reference failure.
pub open spec fn fields_fail_resolution(
    draft: Draft,
    fields: Seq<(String, JsonValue)>,
    i: int,
) -> bool
    decreases fields, 4int, fields.len() - i,
        via fields_fail_resolution_decreases
{
    if i < 0 || i >= fields.len() {
        false
    } else if kw_outcome(draft, fields, fields[i].0@, fields[i].1) == GDisp::Fail {
        kw_fail_resolution(draft, fields, fields[i].0@, fields[i].1)
    } else {
        fields_fail_resolution(draft, fields, i + 1)
    }
}

/// Whether one rejected keyword fails with a reference failure: a `$ref` to
/// anything but the root, or a failing subschema under `properties` or
/// `contains` whose own first failure is one.
pub open spec fn kw_fail_resolution(
    draft: Draft,
    parent: Seq<(String, JsonValue)>,
    key: Seq<char>,
    value: JsonValue,
) -> bool
    decreases value, 6int, 0int,
        via kw_fail_resolution_decreases
{
    if key == "$ref"@ {
        value matches JsonValue::Str(s) && s@ != "#"@
    } else if key == "properties"@ {
        match value {
            JsonValue::Object(pf) => props_fail_resolution(draft, pf@, 0),
            _ => false,
        }
    } else if key == "contains"@ {
        draft != Draft::Draft4 && !compilable(draft, value) && node_fails_resolution(
            draft,
            value,
        )
    } else {
        false
    }
}

/// Whether the first failing subschema at or after position `i` of a
/// `properties` object fails with a reference failure.
pub open spec fn props_fail_resolution(
    draft: Draft,
    pf: Seq<(String, JsonValue)>,
    i: int,
) -> bool
    decreases pf, 4int, pf.len() - i,
        via props_fail_resolution_decreases
{
    if i < 0 || i >= pf.len() {
        false
    } else if !compilable(draft, pf[i].1) {
        node_fails_resolution(draft, pf[i].1)
    } else {
        props_fail_resolution(draft, pf, i + 1)
    }
}

#[via_fn]
proof fn fields_fail_resolution_decreases(
    draft: Draft,
    fields: Seq<(String, JsonValue)>,
    i: int,
) {
    if 0 <= i < fields.len() {
        assert(decreases_to!(fields => fields[i]));
        assert(decreases_to!(fields[i] => fields[i].1));
    }
}

#[via_fn]
proof fn kw_fail_resolution_decreases(
    draft: Draft,
    parent: Seq<(String, JsonValue)>,
    key: Seq<char>,
    value: JsonValue,
) {
    if let JsonValue::Object(pf) = value {
        assert(decreases_to!(value => value->Object_0));
        assert(decreases_to!(pf => pf@));
    }
}

#[via_fn]
proof fn props_fail_resolution_decreases(draft: Draft, pf: Seq<(String, JsonValue)>, i: int) {
    if 0 <= i < pf.len() {
        assert(decreases_to!(pf => pf[i]));
        assert(decreases_to!(pf[i] => pf[i].1));
    }
}

/// Keywords already accepted do not change which kind of failure comes
/// first.
proof fn lemma_fields_fail_skip(draft: Draft, fields: Seq<(String, JsonValue)>, i: int)
    requires
        0 <= i <= fields.len(),
        forall|k: int|
            0 <= k < i ==> kw_outcome(draft, fields, (#[trigger] fields[k]).0@, fields[k].1)
                != GDisp::Fail,
    ensures
        fields_fail_resolution(draft, fields, 0) == fields_fail_resolution(draft, fields, i),
    decreases i,
{
    if i > 0 {
        lemma_fields_fail_skip(draft, fields, i - 1);
    }
}

/// Subschemas already compiled do not change which kind of failure comes
/// first.
proof fn lemma_props_fail_skip(draft: Draft, pf: Seq<(String, JsonValue)>, i: int)
    requires
        0 <= i <= pf.len(),
        forall|k: int| 0 <= k < i ==> compilable(draft, (#[trigger] pf[k]).1),
    ensures
        props_fail_resolution(draft, pf, 0) == props_fail_resolution(draft, pf, i),
    decreases i,
{
    if i > 0 {
        lemma_props_fail_skip(draft, pf, i - 1);
    }
}

/// Whether a string slice reads exactly as the literal.
fn str_is(a: &str, lit: &str) -> (r: bool)
    ensures
        r == (a@ == lit@),
{
    let x: String = a.to_owned();
    let y: String = lit.to_owned();
    x.eq(&y)
}

/// Whether a key string reads exactly as the literal.
fn key_is(key: &String, lit: &str) -> (r: bool)
    ensures
        r == (key@ == lit@),
{
    let y: String = lit.to_owned();
    key.eq(&y)
}

/// The count limit a keyword value denotes, if any.
fn count_limit_exec(v: &JsonValue) -> (r: Option<u64>)
    ensures
        r == count_limit_of(*v),
{
    match v {
        JsonValue::Number(n) => {
            if n.nanos == 0 && n.units >= 0 && n.units <= u64::MAX as i128 {
                Some(n.units as u64)
            } else {
                None
            }
        },
        _ => None,
    }
}

impl IntegerTypeValidator {
    /// Compiles `type: "integer"`.
    pub fn compile() -> (r: Result<Validator, CompilationError>)
        ensures
            r == Ok::<Validator, CompilationError>(Validator::IntegerType(
                IntegerTypeValidator {  },
            )),
    {
        Ok(Validator::IntegerType(IntegerTypeValidator {  }))
    }
}

/// Compiles a single `type` name to its primitive-type validator; an
/// unknown name is a schema error.
pub fn compile_single_type(item: &str) -> (r: Option<Result<Validator, CompilationError>>)
    ensures
        r matches Some(res) && (match res {
            Ok(v) => single_type_matches(item@, v),
            Err(e) => type_from_name(item@) is None && e is SchemaError,
        }),
{
    if str_is(item, "integer") {
        Some(IntegerTypeValidator::compile())
    } else if str_is(item, "null") {
        Some(Ok(Validator::SingleType(SingleTypeValidator { typ: PrimitiveType::Null })))
    } else if str_is(item, "boolean") {
        Some(Ok(Validator::SingleType(SingleTypeValidator { typ: PrimitiveType::Boolean })))
    } else if str_is(item, "string") {
        Some(Ok(Validator::SingleType(SingleTypeValidator { typ: PrimitiveType::Str })))
    } else if str_is(item, "array") {
        Some(Ok(Validator::SingleType(SingleTypeValidator { typ: PrimitiveType::Array })))
    } else if str_is(item, "object") {
        Some(Ok(Validator::SingleType(SingleTypeValidator { typ: PrimitiveType::Object })))
    } else if str_is(item, "number") {
        Some(Ok(Validator::SingleType(SingleTypeValidator { typ: PrimitiveType::Number })))
    } else {
        Some(Err(CompilationError::SchemaError("type: unknown type name".to_owned())))
    }
}

impl MultipleTypesValidator {
    /// Compiles a `type` list; every entry must be a known type name.
    #[verifier::loop_isolation(false)]
    pub fn compile(items: &Vec<JsonValue>) -> (r: Result<Validator, CompilationError>)
        ensures
            match r {
                Ok(v) => v matches Validator::MultipleTypes(mt) && Some(mt.types@) == types_of(
                    items@,
                ),
                Err(e) => types_of(items@) is None && e is SchemaError,
            },
    {
        let mut types: Vec<PrimitiveType> = Vec::new();
        let mut i: usize = 0;
        proof {
            assert(items@.skip(0) =~= items@);
        }
        while i < items.len()
            invariant
                i <= items@.len(),
                types@.len() == i,
                types_of(items@) == (match types_of(items@.skip(i as int)) {
                    Some(ts) => Some(types@ + ts),
                    None => None::<Seq<PrimitiveType>>,
                }),
            decreases items@.len() - i,
        {
            let ghost pre = types@;
            let t: PrimitiveType = match &items[i] {
                JsonValue::Str(s) => {
                    if str_is(s.as_str(), "integer") {
                        PrimitiveType::Integer
                    } else if str_is(s.as_str(), "null") {
                        PrimitiveType::Null
                    } else if str_is(s.as_str(), "boolean") {
                        PrimitiveType::Boolean
                    } else if str_is(s.as_str(), "string") {
                        PrimitiveType::Str
                    } else if str_is(s.as_str(), "array") {
                        PrimitiveType::Array
                    } else if str_is(s.as_str(), "object") {
                        PrimitiveType::Object
                    } else if str_is(s.as_str(), "number") {
                        PrimitiveType::Number
                    } else {
                        proof {
                            assert(items@.skip(i as int)[0] == items@[i as int]);
                        }
                        return Err(
                            CompilationError::SchemaError("type: unknown type name".to_owned()),
                        );
                    }
                },
                _ => {
                    proof {
                        assert(items@.skip(i as int)[0] == items@[i as int]);
                    }
                    return Err(CompilationError::SchemaError("type: not a string".to_owned()));
                },
            };
            types.push(t);
            proof {
                assert(items@.skip(i as int)[0] == items@[i as int]);
                assert(items@.skip(i as int).drop_first() =~= items@.skip(i + 1 as int));
                assert(type_from_name(items@[i as int]->Str_0@) == Some(t));
                match types_of(items@.skip(i + 1 as int)) {
                    Some(ts) => {
                        assert(types_of(items@.skip(i as int)) == Some(seq![t] + ts));
                        assert(pre + (seq![t] + ts) =~= (pre.push(t)) + ts);
                    },
                    None => {},
                }
            }
            i += 1;
        }
        proof {
            assert(items@.skip(items@.len() as int) =~= Seq::<JsonValue>::empty());
            assert(types_of(Seq::<JsonValue>::empty()) == Some(Seq::<PrimitiveType>::empty()));
            assert(types@ + Seq::<PrimitiveType>::empty() =~= types@);
        }
        Ok(Validator::MultipleTypes(MultipleTypesValidator { types }))
    }
}

impl EnumValidator {
    /// Compiles `enum`: the options are kept as given, in order.
    #[verifier::loop_isolation(false)]
    pub fn compile(schema: &JsonValue) -> (r: Result<Validator, CompilationError>)
        requires
            json_wf(*schema),
        ensures
            match r {
                Ok(v) => *schema matches JsonValue::Array(items) && v matches Validator::Enum(e)
                    && e.items@.len() == items@.len() && (forall|i: int|
                    0 <= i < items@.len() ==> crate::json::same_json(
                        (#[trigger] e.items@[i]),
                        items@[i],
                    )) && validator_wf(v),
                Err(e) => !(*schema is Array) && e is SchemaError,
            },
    {
        match schema {
            JsonValue::Array(items) => {
                let mut out: Vec<JsonValue> = Vec::new();
                let mut i: usize = 0;
                while i < items.len()
                    invariant
                        i <= items@.len(),
                        out@.len() == i,
                        json_wf(*schema),
                        *schema == JsonValue::Array(*items),
                        forall|k: int|
                            0 <= k < i ==> crate::json::same_json(
                                (#[trigger] out@[k]),
                                items@[k],
                            ) && json_wf(out@[k]),
                    decreases items@.len() - i,
                {
                    let c = items[i].deep_clone();
                    proof {
                        assert(json_wf(items@[i as int]));
                        lemma_same_json_wf(c, items@[i as int]);
                    }
                    out.push(c);
                    i += 1;
                }
                Ok(Validator::Enum(EnumValidator { items: out }))
            },
            _ => Err(CompilationError::SchemaError("enum: not an array".to_owned())),
        }
    }
}

impl RequiredValidator {
    /// Compiles `required`: an array of property names.
    #[verifier::loop_isolation(false)]
    pub fn compile(schema: &JsonValue) -> (r: Result<Validator, CompilationError>)
        ensures
            match r {
                Ok(v) => *schema matches JsonValue::Array(items) && name_list(*schema) && (
                v matches Validator::Required(rq) && rq.required@.len() == items@.len() && (
                forall|i: int|
                    0 <= i < items@.len() ==> ((#[trigger] items@[i]) matches JsonValue::Str(s)
                        && rq.required@[i]@ == s@))),
                Err(e) => !name_list(*schema) && e is SchemaError,
            },
    {
        match schema {
            JsonValue::Array(items) => {
                let mut required: Vec<String> = Vec::new();
                let mut i: usize = 0;
                while i < items.len()
                    invariant
                        i <= items@.len(),
                        required@.len() == i,
                        *schema == JsonValue::Array(*items),
                        forall|k: int|
                            0 <= k < i ==> ((#[trigger] items@[k]) matches JsonValue::Str(s)
                                && required@[k]@ == s@),
                    decreases items@.len() - i,
                {
                    match &items[i] {
                        JsonValue::Str(s) => {
                            required.push(s.clone());
                        },
                        _ => {
                            return Err(
                                CompilationError::SchemaError(
                                    "required: not a string".to_owned(),
                                ),
                            );
                        },
                    }
                    i += 1;
                }
                Ok(Validator::Required(RequiredValidator { required }))
            },
            _ => Err(CompilationError::SchemaError("required: not an array".to_owned())),
        }
    }
}

impl DependentRequiredValidator {
    /// Compiles `dependentRequired`: each entry maps a key to a list of
    /// distinct property names.
    #[verifier::loop_isolation(false)]
    pub fn compile(schema: &JsonValue) -> (r: Result<Validator, CompilationError>)
        ensures
            match r {
                Ok(v) => *schema matches JsonValue::Object(rows) && (forall|i: int|
                    0 <= i < rows@.len() ==> distinct_names((#[trigger] rows@[i]).1)) && (
                v matches Validator::DependentRequired(d) && d.dependent@.len() == rows@.len()
                    && (forall|i: int|
                    0 <= i < rows@.len() ==> (#[trigger] d.dependent@[i]).0@ == rows@[i].0@
                        && names_match(d.dependent@[i].1@, rows@[i].1))),
                Err(e) => !(*schema matches JsonValue::Object(rows) && (forall|i: int|
                    0 <= i < rows@.len() ==> distinct_names((#[trigger] rows@[i]).1)))
                    && e is SchemaError,
            },
    {
        match schema {
            JsonValue::Object(rows) => {
                let mut dependent: Vec<(String, Vec<String>)> = Vec::new();
                let mut i: usize = 0;
                while i < rows.len()
                    invariant
                        i <= rows@.len(),
                        dependent@.len() == i,
                        *schema == JsonValue::Object(*rows),
                        forall|k: int| 0 <= k < i ==> distinct_names((#[trigger] rows@[k]).1),
                        forall|k: int|
                            0 <= k < i ==> (#[trigger] dependent@[k]).0@ == rows@[k].0@
                                && names_match(dependent@[k].1@, rows@[k].1),
                    decreases rows@.len() - i,
                {
                    match &rows[i].1 {
                        JsonValue::Array(items) => {
                            let mut names: Vec<String> = Vec::new();
                            let mut j: usize = 0;
                            while j < items.len()
                                invariant
                                    j <= items@.len(),
                                    names@.len() == j,
                                    i < rows@.len(),
                                    rows@[i as int].1 == JsonValue::Array(*items),
                                    forall|k: int|
                                        0 <= k < j ==> ((#[trigger] items@[k])
                                            matches JsonValue::Str(s) && names@[k]@ == s@),
                                decreases items@.len() - j,
                            {
                                match &items[j] {
                                    JsonValue::Str(s) => {
                                        names.push(s.clone());
                                    },
                                    _ => {
                                        proof {
                                            assert(!distinct_names(rows@[i as int].1));
                                        }
                                        return Err(
                                            CompilationError::SchemaError(
                                                "dependentRequired: not a string".to_owned(),
                                            ),
                                        );
                                    },
                                }
                                j += 1;
                            }
                            let mut a: usize = 0;
                            while a < names.len()
                                invariant
                                    a <= names@.len(),
                                    i < rows@.len(),
                                    rows@[i as int].1 == JsonValue::Array(*items),
                                    names@.len() == items@.len(),
                                    forall|k: int|
                                        0 <= k < names@.len() ==> ((#[trigger] items@[k])
                                            matches JsonValue::Str(s) && names@[k]@ == s@),
                                    forall|x: int, y: int|
                                        0 <= x < y < names@.len() && x < a ==> names@[x]@
                                            != names@[y]@,
                                decreases names@.len() - a,
                            {
                                let mut b: usize = a + 1;
                                while b < names.len()
                                    invariant
                                        a < b,
                                        b <= names@.len() || b == a + 1,
                                        a < names@.len(),
                                        i < rows@.len(),
                                        rows@[i as int].1 == JsonValue::Array(*items),
                                        names@.len() == items@.len(),
                                        forall|k: int|
                                            0 <= k < names@.len() ==> ((#[trigger] items@[k])
                                                matches JsonValue::Str(s) && names@[k]@ == s@),
                                        forall|y: int| a < y < b ==> names@[a as int]@ != names@[y]@,
                                    decreases names@.len() - b,
                                {
                                    if names[a].eq(&names[b]) {
                                        proof {
                                            assert(items@[a as int] matches JsonValue::Str(s)
                                                && names@[a as int]@ == s@);
                                            assert(items@[b as int] matches JsonValue::Str(s)
                                                && names@[b as int]@ == s@);
                                            assert(!distinct_names(rows@[i as int].1));
                                        }
                                        return Err(
                                            CompilationError::SchemaError(
                                                "dependentRequired: duplicate name".to_owned(),
                                            ),
                                        );
                                    }
                                    b += 1;
                                }
                                a += 1;
                            }
                            proof {
                                assert forall|k: int|
                                    0 <= k < items@.len() implies (#[trigger] items@[k]) is Str by {
                                    assert(items@[k] matches JsonValue::Str(s) && names@[k]@
                                        == s@);
                                }
                                assert forall|x: int, y: int|
                                    0 <= x < y < items@.len() implies items@[x]->Str_0@
                                    != items@[y]->Str_0@ by {
                                    assert(items@[x] matches JsonValue::Str(s) && names@[x]@
                                        == s@);
                                    assert(items@[y] matches JsonValue::Str(s) && names@[y]@
                                        == s@);
                                }
                                assert(distinct_names(rows@[i as int].1));
                            }
                            dependent.push((rows[i].0.clone(), names));
                        },
                        _ => {
                            proof {
                                assert(!distinct_names(rows@[i as int].1));
                            }
                            return Err(
                                CompilationError::SchemaError(
                                    "dependentRequired: not an array".to_owned(),
                                ),
                            );
                        },
                    }
                    i += 1;
                }
                Ok(Validator::DependentRequired(DependentRequiredValidator { dependent }))
            },
            _ => Err(CompilationError::SchemaError("dependentRequired: not an object".to_owned())),
        }
    }
}

#[via_fn]
proof fn kw_matches_decreases(
    draft: Draft,
    parent: Seq<(String, JsonValue)>,
    key: Seq<char>,
    value: JsonValue,
    v: Validator,
) {
    if let JsonValue::Object(pf) = value {
        assert forall|i: int| 0 <= i < pf@.len() implies decreases_to!(value => (#[trigger] pf@[i]).1) by {
            assert(decreases_to!(value => value->Object_0));
            assert(decreases_to!(pf => pf@));
            assert(decreases_to!(pf@ => pf@[i]));
            assert(decreases_to!(pf@[i] => pf@[i].1));
        }
    }
}

/// Dispatches one keyword of a schema object to its compiler under the
/// given draft: `None` skips the keyword, `Some(Ok)` emits its validator,
/// `Some(Err)` rejects the schema.
#[verifier::loop_isolation(false)]
fn compile_keyword(draft: Draft, fields: &Vec<(String, JsonValue)>, i: usize) -> (r: Option<
    Result<Validator, CompilationError>,
>)
    requires
        i < fields@.len(),
        forall|k: int| 0 <= k < fields@.len() ==> json_wf((#[trigger] fields@[k]).1),
    ensures
        match r {
            None => kw_outcome(draft, fields@, fields@[i as int].0@, fields@[i as int].1)
                == GDisp::Skip,
            Some(Ok(v)) => kw_outcome(draft, fields@, fields@[i as int].0@, fields@[i as int].1)
                == GDisp::Emit && kw_matches(
                draft,
                fields@,
                fields@[i as int].0@,
                fields@[i as int].1,
                v,
            ) && validator_wf(v),
            Some(Err(e)) => kw_outcome(draft, fields@, fields@[i as int].0@, fields@[i as int].1)
                == GDisp::Fail && (e is ResolutionError <==> kw_fail_resolution(
                draft,
                fields@,
                fields@[i as int].0@,
                fields@[i as int].1,
            )),
        },
    decreases fields@[i as int].1, 4int,
{
    proof {
        reveal_strlit("type");
        reveal_strlit("enum");
        reveal_strlit("minimum");
        reveal_strlit("maximum");
        reveal_strlit("exclusiveMinimum");
        reveal_strlit("exclusiveMaximum");
        reveal_strlit("maxItems");
        reveal_strlit("minItems");
        reveal_strlit("maxLength");
        reveal_strlit("minLength");
        reveal_strlit("maxProperties");
        reveal_strlit("minProperties");
        reveal_strlit("required");
        reveal_strlit("dependentRequired");
        reveal_strlit("properties");
        reveal_strlit("contains");
        reveal_strlit("$ref");
        // Mentioning lengths and first characters lets the revealed keyword
        // literals be told apart wherever the failure-kind functions split
        // on the key.
        assert("$ref"@.len() == 4);
        assert("properties"@.len() == 10);
        assert("$ref"@[0] == '$');
        assert("type"@[0] == 't');
        assert("enum"@[0] == 'e');
        assert("contains"@[0] == 'c');
        assert("maxItems"@[0] == 'm');
        assert("minItems"@[0] == 'm');
        assert("required"@[0] == 'r');
    }
    let key = &fields[i].0;
    let value = &fields[i].1;
    if key_is(key, "type") {
        match value {
            JsonValue::Str(s) => Some(compile_single_type(s.as_str()).unwrap()),
            JsonValue::Array(items) => {
                if items.len() == 1 {
                    match &items[0] {
                        JsonValue::Str(s) => {
                            let res = compile_single_type(s.as_str()).unwrap();
                            proof {
                                assert(items@[0] == JsonValue::Str(*s));
                                assert(items@.drop_first() =~= Seq::<JsonValue>::empty());
                                assert(types_of(Seq::<JsonValue>::empty()) == Some(
                                    Seq::<PrimitiveType>::empty(),
                                ));
                            }
                            Some(res)
                        },
                        _ => {
                            proof {
                                assert(types_of(items@) is None);
                            }
                            Some(
                                Err(
                                    CompilationError::SchemaError(
                                        "type: not a string".to_owned(),
                                    ),
                                ),
                            )
                        },
                    }
                } else {
                    Some(MultipleTypesValidator::compile(items))
                }
            },
            _ => Some(
                Err(CompilationError::SchemaError("type: not a string or array".to_owned())),
            ),
        }
    } else if key_is(key, "enum") {
        Some(EnumValidator::compile(value))
    } else if key_is(key, "minimum") {
        match value {
            JsonValue::Number(n) => Some(
                Ok(Validator::Minimum(MinimumValidator { limit: *n })),
            ),
            _ => Some(Err(CompilationError::SchemaError("minimum: not a number".to_owned()))),
        }
    } else if key_is(key, "maximum") {
        match value {
            JsonValue::Number(n) => Some(
                Ok(Validator::Maximum(MaximumValidator { limit: *n })),
            ),
            _ => Some(Err(CompilationError::SchemaError("maximum: not a number".to_owned()))),
        }
    } else if key_is(key, "exclusiveMinimum") {
        if matches!(draft, Draft::Draft4) {
            None
        } else {
            match value {
                JsonValue::Number(n) => Some(
                    Ok(Validator::ExclusiveMinimum(ExclusiveMinimumValidator { limit: *n })),
                ),
                _ => Some(
                    Err(
                        CompilationError::SchemaError(
                            "exclusiveMinimum: not a number".to_owned(),
                        ),
                    ),
                ),
            }
        }
    } else if key_is(key, "exclusiveMaximum") {
        if matches!(draft, Draft::Draft4) {
            None
        } else {
            match value {
                JsonValue::Number(n) => Some(
                    Ok(Validator::ExclusiveMaximum(ExclusiveMaximumValidator { limit: *n })),
                ),
                _ => Some(
                    Err(
                        CompilationError::SchemaError(
                            "exclusiveMaximum: not a number".to_owned(),
                        ),
                    ),
                ),
            }
        }
    } else if key_is(key, "maxItems") {
        match count_limit_exec(value) {
            Some(l) => Some(Ok(Validator::MaxItems(MaxItemsValidator { limit: l }))),
            None => Some(
                Err(CompilationError::SchemaError("maxItems: not a count".to_owned())),
            ),
        }
    } else if key_is(key, "minItems") {
        match count_limit_exec(value) {
            Some(l) => Some(Ok(Validator::MinItems(MinItemsValidator { limit: l }))),
            None => Some(
                Err(CompilationError::SchemaError("minItems: not a count".to_owned())),
            ),
        }
    } else if key_is(key, "maxLength") {
        match count_limit_exec(value) {
            Some(l) => Some(Ok(Validator::MaxLength(MaxLengthValidator { limit: l }))),
            None => Some(
                Err(CompilationError::SchemaError("maxLength: not a count".to_owned())),
            ),
        }
    } else if key_is(key, "minLength") {
        match count_limit_exec(value) {
            Some(l) => Some(Ok(Validator::MinLength(MinLengthValidator { limit: l }))),
            None => Some(
                Err(CompilationError::SchemaError("minLength: not a count".to_owned())),
            ),
        }
    } else if key_is(key, "maxProperties") {
        match count_limit_exec(value) {
            Some(l) => Some(Ok(Validator::MaxProperties(MaxPropertiesValidator { limit: l }))),
            None => Some(
                Err(CompilationError::SchemaError("maxProperties: not a count".to_owned())),
            ),
        }
    } else if key_is(key, "minProperties") {
        match count_limit_exec(value) {
            Some(l) => Some(Ok(Validator::MinProperties(MinPropertiesValidator { limit: l }))),
            None => Some(
                Err(CompilationError::SchemaError("minProperties: not a count".to_owned())),
            ),
        }
    } else if key_is(key, "required") {
        Some(RequiredValidator::compile(value))
    } else if key_is(key, "dependentRequired") {
        if matches!(draft, Draft::Draft201909) {
            Some(DependentRequiredValidator::compile(value))
        } else {
            None
        }
    } else if key_is(key, "properties") {
        match value {
            JsonValue::Object(pf) => {
                let mut props: Vec<(String, Vec<Validator>)> = Vec::new();
                let mut j: usize = 0;
                proof {
                    assert(json_wf(fields@[i as int].1));
                }
                while j < pf.len()
                    invariant
                        j <= pf@.len(),
                        props@.len() == j,
                        forall|k: int| 0 <= k < j ==> compilable(draft, (#[trigger] pf@[k]).1),
                        forall|k: int|
                            0 <= k < j ==> (#[trigger] props@[k]).0@ == pf@[k].0@ && node_matches(
                                draft,
                                pf@[k].1,
                                props@[k].1@,
                            ) && validators_wf(props@[k].1@),
                    decreases pf@.len() - j,
                {
                    proof {
                        assert(decreases_to!(*value => (*value)->Object_0));
                        assert(decreases_to!(*pf => pf@));
                        assert(decreases_to!(pf@ => pf@[j as int]));
                        assert(decreases_to!(pf@[j as int] => pf@[j as int].1));
                        assert(json_wf(pf@[j as int].1));
                    }
                    match compile_validators(draft, &pf[j].1) {
                        Ok(vs) => {
                            props.push((pf[j].0.clone(), vs));
                        },
                        Err(e) => {
                            proof {
                                lemma_props_fail_skip(draft, pf@, j as int);
                            }
                            return Some(Err(e));
                        },
                    }
                    j += 1;
                }
                Some(Ok(Validator::Properties(PropertiesValidator { properties: props })))
            },
            _ => Some(
                Err(CompilationError::SchemaError("properties: not an object".to_owned())),
            ),
        }
    } else if key_is(key, "contains") {
        if matches!(draft, Draft::Draft4) {
            None
        } else {
            proof {
                assert(json_wf(fields@[i as int].1));
            }
            match compile_validators(draft, value) {
                Err(e) => Some(Err(e)),
                Ok(vs) => {
                    if !matches!(draft, Draft::Draft201909) {
                        Some(Ok(Validator::Contains(ContainsValidator { validators: vs })))
                    } else {
                        let mn_key: String = "minContains".to_owned();
                        let mx_key: String = "maxContains".to_owned();
                        match obj_lookup(fields, &mn_key) {
                            Some(mn) => match count_limit_exec(mn) {
                                None => Some(
                                    Err(
                                        CompilationError::SchemaError(
                                            "minContains: not a count".to_owned(),
                                        ),
                                    ),
                                ),
                                Some(mn_limit) => match obj_lookup(fields, &mx_key) {
                                    Some(mx) => match count_limit_exec(mx) {
                                        Some(mx_limit) => Some(
                                            Ok(
                                                Validator::MinMaxContains(
                                                    MinMaxContainsValidator {
                                                        validators: vs,
                                                        min_contains: mn_limit,
                                                        max_contains: mx_limit,
                                                    },
                                                ),
                                            ),
                                        ),
                                        None => Some(
                                            Err(
                                                CompilationError::SchemaError(
                                                    "maxContains: not a count".to_owned(),
                                                ),
                                            ),
                                        ),
                                    },
                                    None => Some(
                                        Ok(
                                            Validator::MinContains(
                                                MinContainsValidator {
                                                    validators: vs,
                                                    min_contains: mn_limit,
                                                },
                                            ),
                                        ),
                                    ),
                                },
                            },
                            None => match obj_lookup(fields, &mx_key) {
                                Some(mx) => match count_limit_exec(mx) {
                                    Some(mx_limit) => Some(
                                        Ok(
                                            Validator::MaxContains(
                                                MaxContainsValidator {
                                                    validators: vs,
                                                    max_contains: mx_limit,
                                                },
                                            ),
                                        ),
                                    ),
                                    None => Some(
                                        Err(
                                            CompilationError::SchemaError(
                                                "maxContains: not a count".to_owned(),
                                            ),
                                        ),
                                    ),
                                },
                                None => Some(
                                    Ok(
                                        Validator::Contains(
                                            ContainsValidator { validators: vs },
                                        ),
                                    ),
                                ),
                            },
                        }
                    }
                },
            }
        }
    } else if key_is(key, "$ref") {
        match value {
            JsonValue::Str(s) => {
                if str_is(s.as_str(), "#") {
                    Some(Ok(Validator::Ref(RefValidator { target: 0 })))
                } else {
                    Some(Err(CompilationError::ResolutionError(s.clone())))
                }
            },
            _ => Some(Err(CompilationError::SchemaError("$ref: not a string".to_owned()))),
        }
    } else {
        None
    }
}

/// Compiles one schema node into its validator list: a boolean schema
/// yields its constant validator, an object schema each recognized keyword's
/// validator in key order; anything else, or any malformed keyword, is a
/// schema error.
#[verifier::loop_isolation(false)]
pub fn compile_validators(draft: Draft, schema: &JsonValue) -> (r: Result<
    Vec<Validator>,
    CompilationError,
>)
    requires
        json_wf(*schema),
    ensures
        match r {
            Ok(vs) => compilable(draft, *schema) && node_matches(draft, *schema, vs@)
                && validators_wf(vs@),
            Err(e) => !compilable(draft, *schema) && (e is ResolutionError
                <==> node_fails_resolution(draft, *schema)),
        },
    decreases *schema, 3int,
{
    match schema {
        JsonValue::Bool(b) => {
            let mut out: Vec<Validator> = Vec::new();
            if *b {
                out.push(Validator::AlwaysValid);
                proof {
                    assert(out@ =~= seq![Validator::AlwaysValid]);
                }
            } else {
                out.push(Validator::AlwaysInvalid);
                proof {
                    assert(out@ =~= seq![Validator::AlwaysInvalid]);
                }
            }
            Ok(out)
        },
        JsonValue::Object(fields) => {
            let mut out: Vec<Validator> = Vec::new();
            let mut i: usize = 0;
            while i < fields.len()
                invariant
                    i <= fields@.len(),
                    prefix_matches(draft, fields@, i as int, out@),
                    validators_wf(out@),
                    forall|k: int|
                        0 <= k < i ==> kw_outcome(
                            draft,
                            fields@,
                            (#[trigger] fields@[k]).0@,
                            fields@[k].1,
                        ) != GDisp::Fail,
                decreases fields@.len() - i,
            {
                proof {
                    assert(decreases_to!(*schema => (*schema)->Object_0));
                    assert(decreases_to!(*fields => fields@));
                    assert(decreases_to!(fields@ => fields@[i as int]));
                    assert(decreases_to!(fields@[i as int] => fields@[i as int].1));
                }
                let ghost before = out@;
                match compile_keyword(draft, fields, i) {
                    None => {},
                    Some(Ok(v)) => {
                        out.push(v);
                        proof {
                            assert(out@.drop_last() =~= before);
                            assert(out@.last() == v);
                        }
                    },
                    Some(Err(e)) => {
                        proof {
                            lemma_fields_fail_skip(draft, fields@, i as int);
                        }
                        return Err(e);
                    },
                }
                i += 1;
            }
            Ok(out)
        },
        _ => Err(CompilationError::SchemaError("schema: not an object or boolean".to_owned())),
    }
}

} // verus!
