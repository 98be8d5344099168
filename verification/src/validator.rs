//! The validator tree and its meaning: what it is for an instance to satisfy
//! a compiled validator, and which errors validation of an instance yields,
//! in evaluation order.
//!
//! References are an indirection into a node table; evaluating one consumes
//! fuel, which is restored whenever evaluation descends into a child of the
//! instance. A reference chain that neither descends nor ends must revisit a
//! node, so it is reported as a reference failure instead of looping.

use vstd::prelude::*;

use crate::errors::GError;
use crate::errors::GKind;
use crate::json::jeq;
use crate::json::json_eq;
use crate::json::json_wf;
use crate::json::lemma_lookup_member;
use crate::json::spec_lookup;
use crate::json::JsonValue;
use crate::keywords::ContainsValidator;
use crate::keywords::DependentRequiredValidator;
use crate::keywords::EnumValidator;
use crate::keywords::ExclusiveMaximumValidator;
use crate::keywords::ExclusiveMinimumValidator;
use crate::keywords::IntegerTypeValidator;
use crate::keywords::MaxContainsValidator;
use crate::keywords::MaxItemsValidator;
use crate::keywords::MaxLengthValidator;
use crate::keywords::MaxPropertiesValidator;
use crate::keywords::MaximumValidator;
use crate::keywords::MinContainsValidator;
use crate::keywords::MinItemsValidator;
use crate::keywords::MinLengthValidator;
use crate::keywords::MinMaxContainsValidator;
use crate::keywords::MinPropertiesValidator;
use crate::keywords::MinimumValidator;
use crate::keywords::MultipleTypesValidator;
use crate::keywords::PrimitiveType;
use crate::keywords::PropertiesValidator;
use crate::keywords::RefValidator;
use crate::keywords::RequiredValidator;
use crate::keywords::SingleTypeValidator;
use crate::paths::GChunk;

verus! {

/// One compiled validator: a closed variant with one arm per keyword.
pub enum Validator {
    AlwaysValid,
    AlwaysInvalid,
    MultipleTypes(MultipleTypesValidator),
    IntegerType(IntegerTypeValidator),
    SingleType(SingleTypeValidator),
    Enum(EnumValidator),
    Minimum(MinimumValidator),
    Maximum(MaximumValidator),
    ExclusiveMinimum(ExclusiveMinimumValidator),
    ExclusiveMaximum(ExclusiveMaximumValidator),
    MaxItems(MaxItemsValidator),
    MinItems(MinItemsValidator),
    MaxLength(MaxLengthValidator),
    MinLength(MinLengthValidator),
    MaxProperties(MaxPropertiesValidator),
    MinProperties(MinPropertiesValidator),
    Required(RequiredValidator),
    DependentRequired(DependentRequiredValidator),
    Properties(PropertiesValidator),
    Contains(ContainsValidator),
    MinContains(MinContainsValidator),
    MaxContains(MaxContainsValidator),
    MinMaxContains(MinMaxContainsValidator),
    Ref(RefValidator),
}

/// Whether an instance is of the given primitive type; `integer` matches a
/// number whose value is exactly integral.
pub open spec fn type_match(t: PrimitiveType, inst: JsonValue) -> bool {
    match t {
        PrimitiveType::Null => inst is Null,
        PrimitiveType::Boolean => inst is Bool,
        PrimitiveType::Integer => inst matches JsonValue::Number(n) && n.is_integral(),
        PrimitiveType::Number => inst is Number,
        PrimitiveType::Str => inst is Str,
        PrimitiveType::Array => inst is Array,
        PrimitiveType::Object => inst is Object,
    }
}

/// The first listed name missing among an object's fields, in list order.
pub open spec fn first_missing(fields: Seq<(String, JsonValue)>, names: Seq<String>) -> Option<
    Seq<char>,
>
    decreases names.len(),
{
    if names.len() == 0 {
        None
    } else if spec_lookup(fields, names[0]@) is Some {
        first_missing(fields, names.drop_first())
    } else {
        Some(names[0]@)
    }
}

/// The first name owed and missing under `dependentRequired`, walking the
/// dependency entries in order and, within an entry whose key is present,
/// its names in order.
pub open spec fn dep_first_missing(
    fields: Seq<(String, JsonValue)>,
    deps: Seq<(String, Vec<String>)>,
) -> Option<Seq<char>>
    decreases deps.len(),
{
    if deps.len() == 0 {
        None
    } else if spec_lookup(fields, deps[0].0@) is Some {
        match first_missing(fields, deps[0].1@) {
            Some(n) => Some(n),
            None => dep_first_missing(fields, deps.drop_first()),
        }
    } else {
        dep_first_missing(fields, deps.drop_first())
    }
}

/// Whether an instance satisfies one validator, with `fuel` reference steps
/// left at the current instance depth.
pub open spec fn val_valid(
    nodes: Seq<Vec<Validator>>,
    v: Validator,
    inst: JsonValue,
    fuel: nat,
) -> bool
    decreases inst, fuel, v, 1int,
        via val_valid_decreases
{
    match v {
        Validator::AlwaysValid => true,
        Validator::AlwaysInvalid => false,
        Validator::MultipleTypes(t) => exists|i: int|
            0 <= i < t.types@.len() && type_match(#[trigger] t.types@[i], inst),
        Validator::IntegerType(_) => type_match(PrimitiveType::Integer, inst),
        Validator::SingleType(t) => type_match(t.typ, inst),
        Validator::Enum(e) => exists|i: int|
            0 <= i < e.items@.len() && jeq(inst, #[trigger] e.items@[i]),
        Validator::Minimum(m) => match inst {
            JsonValue::Number(n) => n.scaled() >= m.limit.scaled(),
            _ => true,
        },
        Validator::Maximum(m) => match inst {
            JsonValue::Number(n) => n.scaled() <= m.limit.scaled(),
            _ => true,
        },
        Validator::ExclusiveMinimum(m) => match inst {
            JsonValue::Number(n) => n.scaled() > m.limit.scaled(),
            _ => true,
        },
        Validator::ExclusiveMaximum(m) => match inst {
            JsonValue::Number(n) => n.scaled() < m.limit.scaled(),
            _ => true,
        },
        Validator::MaxItems(m) => match inst {
            JsonValue::Array(items) => items@.len() <= m.limit,
            _ => true,
        },
        Validator::MinItems(m) => match inst {
            JsonValue::Array(items) => items@.len() >= m.limit,
            _ => true,
        },
        Validator::MaxLength(m) => match inst {
            JsonValue::Str(s) => s@.len() <= m.limit,
            _ => true,
        },
        Validator::MinLength(m) => match inst {
            JsonValue::Str(s) => s@.len() >= m.limit,
            _ => true,
        },
        Validator::MaxProperties(m) => match inst {
            JsonValue::Object(f) => f@.len() <= m.limit,
            _ => true,
        },
        Validator::MinProperties(m) => match inst {
            JsonValue::Object(f) => f@.len() >= m.limit,
            _ => true,
        },
        Validator::Required(r) => match inst {
            JsonValue::Object(f) => forall|i: int|
                0 <= i < r.required@.len() ==> spec_lookup(
                    f@,
                    (#[trigger] r.required@[i])@,
                ) is Some,
            _ => true,
        },
        Validator::DependentRequired(d) => match inst {
            JsonValue::Object(f) => forall|i: int, j: int|
                #![trigger d.dependent@[i].1@[j]]
                0 <= i < d.dependent@.len() && 0 <= j < d.dependent@[i].1@.len() && spec_lookup(
                    f@,
                    d.dependent@[i].0@,
                ) is Some ==> spec_lookup(f@, d.dependent@[i].1@[j]@) is Some,
            _ => true,
        },
        Validator::Properties(p) => match inst {
            JsonValue::Object(f) => forall|i: int|
                0 <= i < p.properties@.len() ==> match spec_lookup(
                    f@,
                    (#[trigger] p.properties@[i]).0@,
                ) {
                    Some(w) => vals_valid(nodes, p.properties@[i].1@, w, nodes.len()),
                    None => true,
                },
            _ => true,
        },
        Validator::Contains(c) => match inst {
            JsonValue::Array(items) => exists|i: int|
                0 <= i < items@.len() && vals_valid(
                    nodes,
                    c.validators@,
                    #[trigger] items@[i],
                    nodes.len(),
                ),
            _ => true,
        },
        Validator::MinContains(c) => match inst {
            JsonValue::Array(items) => c.min_contains == 0 || matches_upto(
                nodes,
                c.validators@,
                inst,
                items@.len() as int,
                fuel,
            ) >= c.min_contains,
            _ => true,
        },
        Validator::MaxContains(c) => match inst {
            JsonValue::Array(items) => {
                let m = matches_upto(nodes, c.validators@, inst, items@.len() as int, fuel);
                1 <= m <= c.max_contains
            },
            _ => true,
        },
        Validator::MinMaxContains(c) => match inst {
            JsonValue::Array(items) => {
                let m = matches_upto(nodes, c.validators@, inst, items@.len() as int, fuel);
                c.min_contains <= m <= c.max_contains
            },
            _ => true,
        },
        Validator::Ref(r) => if fuel == 0 {
            false
        } else if r.target >= nodes.len() {
            false
        } else {
            vals_valid(nodes, nodes[r.target as int]@, inst, (fuel - 1) as nat)
        },
    }
}

/// Whether an instance satisfies every validator in a list.
pub open spec fn vals_valid(
    nodes: Seq<Vec<Validator>>,
    vs: Seq<Validator>,
    inst: JsonValue,
    fuel: nat,
) -> bool
    decreases inst, fuel, vs, 0int,
{
    forall|i: int| 0 <= i < vs.len() ==> val_valid(nodes, #[trigger] vs[i], inst, fuel)
}

/// How many of the first `upto` elements of an array satisfy every validator
/// in a list. The `fuel` parameter only carries the termination measure.
pub open spec fn matches_upto(
    nodes: Seq<Vec<Validator>>,
    vs: Seq<Validator>,
    arr: JsonValue,
    upto: int,
    fuel: nat,
) -> nat
    decreases arr, fuel, vs, upto,
        via matches_upto_decreases
{
    match arr {
        JsonValue::Array(items) => if upto <= 0 || upto > items@.len() {
            0
        } else {
            matches_upto(nodes, vs, arr, upto - 1, fuel) + if vals_valid(
                nodes,
                vs,
                items@[upto - 1],
                nodes.len(),
            ) {
                1nat
            } else {
                0nat
            }
        },
        _ => 0,
    }
}

#[via_fn]
proof fn matches_upto_decreases(
    nodes: Seq<Vec<Validator>>,
    vs: Seq<Validator>,
    arr: JsonValue,
    upto: int,
    fuel: nat,
) {
    match arr {
        JsonValue::Array(items) => {
            if 0 < upto <= items@.len() {
                assert(decreases_to!(arr => arr->Array_0));
                assert(decreases_to!(items => items@));
                assert(decreases_to!(items@ => items@[upto - 1]));
            }
        },
        _ => {},
    }
}

/// One error at the current path over the given offending value.
pub open spec fn one_err(kind: GKind, path: Seq<GChunk>, value: JsonValue) -> Seq<GError> {
    seq![GError { kind, path, value }]
}

/// The errors an instance earns from one validator, in evaluation order,
/// with the instance path that addresses `inst` inside the root.
pub open spec fn val_errors(
    nodes: Seq<Vec<Validator>>,
    v: Validator,
    inst: JsonValue,
    path: Seq<GChunk>,
    fuel: nat,
) -> Seq<GError>
    decreases inst, fuel, v, 1int,
        via val_errors_decreases
{
    match v {
        Validator::Properties(p) => match inst {
            JsonValue::Object(f) => props_errors(nodes, p.properties@, inst, path, fuel),
            _ => Seq::empty(),
        },
        Validator::Ref(r) => if fuel == 0 || r.target >= nodes.len() {
            one_err(GKind::Reference, path, inst)
        } else {
            vals_errors(nodes, nodes[r.target as int]@, inst, path, (fuel - 1) as nat)
        },
        Validator::Required(r) => match inst {
            JsonValue::Object(f) => match first_missing(f@, r.required@) {
                None => Seq::empty(),
                Some(n) => one_err(GKind::Required(n), path, inst),
            },
            _ => Seq::empty(),
        },
        Validator::DependentRequired(d) => match inst {
            JsonValue::Object(f) => match dep_first_missing(f@, d.dependent@) {
                None => Seq::empty(),
                Some(n) => one_err(GKind::Required(n), path, inst),
            },
            _ => Seq::empty(),
        },
        _ => if val_valid(nodes, v, inst, fuel) {
            Seq::empty()
        } else {
            one_err(leaf_kind(v), path, inst)
        },
    }
}

/// The error kind a non-compound validator reports.
pub open spec fn leaf_kind(v: Validator) -> GKind {
    match v {
        Validator::AlwaysInvalid => GKind::FalseSchema,
        Validator::MultipleTypes(_) => GKind::Type,
        Validator::IntegerType(_) => GKind::Type,
        Validator::SingleType(_) => GKind::Type,
        Validator::Enum(_) => GKind::Enum,
        Validator::Minimum(_) => GKind::Minimum,
        Validator::Maximum(_) => GKind::Maximum,
        Validator::ExclusiveMinimum(_) => GKind::ExclusiveMinimum,
        Validator::ExclusiveMaximum(_) => GKind::ExclusiveMaximum,
        Validator::MaxItems(_) => GKind::MaxItems,
        Validator::MinItems(_) => GKind::MinItems,
        Validator::MaxLength(_) => GKind::MaxLength,
        Validator::MinLength(_) => GKind::MinLength,
        Validator::MaxProperties(_) => GKind::MaxProperties,
        Validator::MinProperties(_) => GKind::MinProperties,
        Validator::Contains(_) => GKind::Contains,
        Validator::MinContains(_) => GKind::Contains,
        Validator::MaxContains(_) => GKind::Contains,
        Validator::MinMaxContains(_) => GKind::Contains,
        _ => GKind::Type,
    }
}

/// The errors an instance earns from a validator list: each validator's
/// errors in turn.
pub open spec fn vals_errors(
    nodes: Seq<Vec<Validator>>,
    vs: Seq<Validator>,
    inst: JsonValue,
    path: Seq<GChunk>,
    fuel: nat,
) -> Seq<GError>
    decreases inst, fuel, vs, 0int,
{
    if vs.len() == 0 {
        Seq::empty()
    } else {
        val_errors(nodes, vs[0], inst, path, fuel) + vals_errors(
            nodes,
            vs.drop_first(),
            inst,
            path,
            fuel,
        )
    }
}

/// The errors under `properties`: for each listed property present in the
/// object, its subvalidators' errors at the extended path, in schema key
/// order.
pub open spec fn props_errors(
    nodes: Seq<Vec<Validator>>,
    props: Seq<(String, Vec<Validator>)>,
    inst: JsonValue,
    path: Seq<GChunk>,
    fuel: nat,
) -> Seq<GError>
    decreases inst, fuel, props, 0int,
        via props_errors_decreases
{
    if props.len() == 0 {
        Seq::empty()
    } else {
        (match inst {
            JsonValue::Object(f) => match spec_lookup(f@, props[0].0@) {
                Some(w) => vals_errors(
                    nodes,
                    props[0].1@,
                    w,
                    path.push(GChunk::Prop(props[0].0@)),
                    nodes.len(),
                ),
                None => Seq::empty(),
            },
            _ => Seq::empty(),
        }) + props_errors(nodes, props.drop_first(), inst, path, fuel)
    }
}

#[via_fn]
proof fn props_errors_decreases(
    nodes: Seq<Vec<Validator>>,
    props: Seq<(String, Vec<Validator>)>,
    inst: JsonValue,
    path: Seq<GChunk>,
    fuel: nat,
) {
    if props.len() > 0 {
        if let JsonValue::Object(f) = inst {
            if spec_lookup(f@, props[0].0@) is Some {
                lemma_lookup_member(f@, props[0].0@);
                let w = spec_lookup(f@, props[0].0@)->Some_0;
                let j = choose|j: int| 0 <= j < f@.len() && #[trigger] f@[j].1 == w;
                assert(decreases_to!(inst => inst->Object_0));
                assert(decreases_to!(f => f@));
                assert(decreases_to!(f@ => f@[j]));
                assert(decreases_to!(f@[j] => f@[j].1));
            }
        }
    }
}

#[via_fn]
proof fn val_errors_decreases(
    nodes: Seq<Vec<Validator>>,
    v: Validator,
    inst: JsonValue,
    path: Seq<GChunk>,
    fuel: nat,
) {
    match v {
        Validator::Properties(p) => {
            assert(decreases_to!(v => v->Properties_0));
            assert(decreases_to!(p => p.properties));
            assert(decreases_to!(p.properties => p.properties@));
        },
        _ => {},
    }
}

/// Well-formedness of one validator: limit numbers canonical, enumeration
/// options well-formed, and the same throughout its subvalidators.
pub open spec fn validator_wf(v: Validator) -> bool
    decreases v, 1int,
        via validator_wf_decreases
{
    match v {
        Validator::Enum(e) => forall|i: int|
            0 <= i < e.items@.len() ==> json_wf(#[trigger] e.items@[i]),
        Validator::Minimum(m) => m.limit.wf(),
        Validator::Maximum(m) => m.limit.wf(),
        Validator::ExclusiveMinimum(m) => m.limit.wf(),
        Validator::ExclusiveMaximum(m) => m.limit.wf(),
        Validator::Properties(p) => forall|i: int|
            0 <= i < p.properties@.len() ==> validators_wf((#[trigger] p.properties@[i]).1@),
        Validator::Contains(c) => validators_wf(c.validators@),
        Validator::MinContains(c) => validators_wf(c.validators@),
        Validator::MaxContains(c) => validators_wf(c.validators@),
        Validator::MinMaxContains(c) => validators_wf(c.validators@),
        _ => true,
    }
}

/// Well-formedness of every validator in a list.
pub open spec fn validators_wf(vs: Seq<Validator>) -> bool
    decreases vs, 0int,
{
    forall|i: int| 0 <= i < vs.len() ==> validator_wf(#[trigger] vs[i])
}

/// Well-formedness of a whole node table.
pub open spec fn nodes_wf(nodes: Seq<Vec<Validator>>) -> bool {
    forall|i: int| 0 <= i < nodes.len() ==> validators_wf((#[trigger] nodes[i])@)
}

#[via_fn]
proof fn validator_wf_decreases(v: Validator) {
    match v {
        Validator::Properties(p) => {
            assert(decreases_to!(v => v->Properties_0));
            assert forall|i: int| 0 <= i < p.properties@.len() implies decreases_to!(
                v => (#[trigger] p.properties@[i]).1@) by {
                assert(decreases_to!(p => p.properties));
                assert(decreases_to!(p.properties => p.properties@));
                assert(decreases_to!(p.properties@ => p.properties@[i]));
                assert(decreases_to!(p.properties@[i] => p.properties@[i].1));
                assert(decreases_to!(p.properties@[i].1 => p.properties@[i].1@));
            }
        },
        Validator::Contains(c) => {
            assert(decreases_to!(v => v->Contains_0));
            assert(decreases_to!(c => c.validators));
            assert(decreases_to!(c.validators => c.validators@));
        },
        Validator::MinContains(c) => {
            assert(decreases_to!(v => v->MinContains_0));
            assert(decreases_to!(c => c.validators));
            assert(decreases_to!(c.validators => c.validators@));
        },
        Validator::MaxContains(c) => {
            assert(decreases_to!(v => v->MaxContains_0));
            assert(decreases_to!(c => c.validators));
            assert(decreases_to!(c.validators => c.validators@));
        },
        Validator::MinMaxContains(c) => {
            assert(decreases_to!(v => v->MinMaxContains_0));
            assert(decreases_to!(c => c.validators));
            assert(decreases_to!(c.validators => c.validators@));
        },
        _ => {},
    }
}

#[via_fn]
proof fn val_valid_decreases(
    nodes: Seq<Vec<Validator>>,
    v: Validator,
    inst: JsonValue,
    fuel: nat,
) {
    match v {
        Validator::Properties(p) => {
            if let JsonValue::Object(f) = inst {
                assert forall|i: int|
                    0 <= i < p.properties@.len() && spec_lookup(
                        f@,
                        (#[trigger] p.properties@[i]).0@,
                    ) is Some implies decreases_to!(
                    inst => spec_lookup(f@, p.properties@[i].0@)->Some_0) by {
                    lemma_lookup_member(f@, p.properties@[i].0@);
                    let w = spec_lookup(f@, p.properties@[i].0@)->Some_0;
                    let j = choose|j: int| 0 <= j < f@.len() && #[trigger] f@[j].1 == w;
                    assert(decreases_to!(inst => inst->Object_0));
                    assert(decreases_to!(f => f@));
                    assert(decreases_to!(f@ => f@[j]));
                    assert(decreases_to!(f@[j] => f@[j].1));
                }
            }
        },
        Validator::Contains(c) => {
            if let JsonValue::Array(items) = inst {
                assert forall|i: int| 0 <= i < items@.len() implies decreases_to!(
                    inst => items@[i]) by {
                    assert(decreases_to!(inst => inst->Array_0));
                    assert(decreases_to!(items => items@));
                    assert(decreases_to!(items@ => items@[i]));
                }
            }
        },
        Validator::MinContains(c) => {
            assert(decreases_to!(v => v->MinContains_0));
            assert(decreases_to!(c => c.validators));
            assert(decreases_to!(c.validators => c.validators@));
        },
        Validator::MaxContains(c) => {
            assert(decreases_to!(v => v->MaxContains_0));
            assert(decreases_to!(c => c.validators));
            assert(decreases_to!(c.validators => c.validators@));
        },
        Validator::MinMaxContains(c) => {
            assert(decreases_to!(v => v->MinMaxContains_0));
            assert(decreases_to!(c => c.validators));
            assert(decreases_to!(c.validators => c.validators@));
        },
        _ => {},
    }
}

/// A name list has no missing name exactly when every listed name is
/// present.
proof fn lemma_first_missing_none(fields: Seq<(String, JsonValue)>, names: Seq<String>)
    ensures
        (first_missing(fields, names) is None) <==> (forall|i: int|
            0 <= i < names.len() ==> spec_lookup(fields, (#[trigger] names[i])@) is Some),
    decreases names.len(),
{
    if names.len() > 0 {
        lemma_first_missing_none(fields, names.drop_first());
        if spec_lookup(fields, names[0]@) is Some {
            if first_missing(fields, names) is None {
                assert forall|i: int|
                    0 <= i < names.len() implies spec_lookup(
                    fields,
                    (#[trigger] names[i])@,
                ) is Some by {
                    if i > 0 {
                        assert(names.drop_first()[i - 1] == names[i]);
                    }
                }
            }
            if forall|i: int|
                0 <= i < names.len() ==> spec_lookup(fields, (#[trigger] names[i])@) is Some {
                assert forall|i: int|
                    0 <= i < names.drop_first().len() implies spec_lookup(
                    fields,
                    (#[trigger] names.drop_first()[i])@,
                ) is Some by {
                    assert(names.drop_first()[i] == names[i + 1]);
                }
            }
        }
    }
}

/// The dependency table has no owed-and-missing name exactly when every row
/// whose key is present has all its names present.
proof fn lemma_dep_none(fields: Seq<(String, JsonValue)>, deps: Seq<(String, Vec<String>)>)
    ensures
        (dep_first_missing(fields, deps) is None) <==> (forall|i: int, j: int|
            #![trigger deps[i].1@[j]]
            0 <= i < deps.len() && 0 <= j < deps[i].1@.len() && spec_lookup(
                fields,
                deps[i].0@,
            ) is Some ==> spec_lookup(fields, deps[i].1@[j]@) is Some),
    decreases deps.len(),
{
    if deps.len() > 0 {
        lemma_dep_none(fields, deps.drop_first());
        lemma_first_missing_none(fields, deps[0].1@);
        if dep_first_missing(fields, deps) is None {
            assert forall|i: int, j: int|
                #![trigger deps[i].1@[j]]
                0 <= i < deps.len() && 0 <= j < deps[i].1@.len() && spec_lookup(
                    fields,
                    deps[i].0@,
                ) is Some implies spec_lookup(fields, deps[i].1@[j]@) is Some by {
                if i > 0 {
                    assert(deps.drop_first()[i - 1] == deps[i]);
                } else {
                    assert(deps[0].1@[j] == deps[i].1@[j]);
                }
            }
        }
        if forall|i: int, j: int|
            #![trigger deps[i].1@[j]]
            0 <= i < deps.len() && 0 <= j < deps[i].1@.len() && spec_lookup(
                fields,
                deps[i].0@,
            ) is Some ==> spec_lookup(fields, deps[i].1@[j]@) is Some {
            assert forall|i: int, j: int|
                #![trigger deps.drop_first()[i].1@[j]]
                0 <= i < deps.drop_first().len() && 0 <= j < deps.drop_first()[i].1@.len()
                    && spec_lookup(fields, deps.drop_first()[i].0@) is Some implies spec_lookup(
                fields,
                deps.drop_first()[i].1@[j]@,
            ) is Some by {
                assert(deps.drop_first()[i] == deps[i + 1]);
                assert(deps[i + 1].1@[j] == deps.drop_first()[i].1@[j]);
            }
            if spec_lookup(fields, deps[0].0@) is Some {
                assert forall|j: int|
                    0 <= j < deps[0].1@.len() implies spec_lookup(
                    fields,
                    (#[trigger] deps[0].1@[j])@,
                ) is Some by {
                    assert(deps[0].1@[j] == deps[0int].1@[j]);
                }
            }
        }
    }
}

/// An instance satisfies a validator exactly when validation of it yields no
/// error, whatever the path.
pub proof fn lemma_val_errors_empty(
    nodes: Seq<Vec<Validator>>,
    v: Validator,
    inst: JsonValue,
    path: Seq<GChunk>,
    fuel: nat,
)
    ensures
        val_valid(nodes, v, inst, fuel) <==> val_errors(nodes, v, inst, path, fuel).len() == 0,
    decreases inst, fuel, v, 1int,
{
    match v {
        Validator::Properties(p) => {
            assert(decreases_to!(v => v->Properties_0));
            assert(decreases_to!(p => p.properties));
            assert(decreases_to!(p.properties => p.properties@));
            lemma_props_errors_empty(nodes, p.properties@, inst, path, fuel);
        },
        Validator::Ref(r) => {
            if fuel > 0 && r.target < nodes.len() {
                lemma_vals_errors_empty(
                    nodes,
                    nodes[r.target as int]@,
                    inst,
                    path,
                    (fuel - 1) as nat,
                );
            }
        },
        Validator::Required(rq) => {
            if let JsonValue::Object(f) = inst {
                lemma_first_missing_none(f@, rq.required@);
            }
        },
        Validator::DependentRequired(d) => {
            if let JsonValue::Object(f) = inst {
                lemma_dep_none(f@, d.dependent@);
            }
        },
        _ => {},
    }
}

/// An instance satisfies a validator list exactly when validation of it
/// yields no error.
pub proof fn lemma_vals_errors_empty(
    nodes: Seq<Vec<Validator>>,
    vs: Seq<Validator>,
    inst: JsonValue,
    path: Seq<GChunk>,
    fuel: nat,
)
    ensures
        vals_valid(nodes, vs, inst, fuel) <==> vals_errors(nodes, vs, inst, path, fuel).len()
            == 0,
    decreases inst, fuel, vs, 0int,
{
    if vs.len() > 0 {
        assert(decreases_to!(vs => vs[0]));
        lemma_val_errors_empty(nodes, vs[0], inst, path, fuel);
        lemma_vals_errors_empty(nodes, vs.drop_first(), inst, path, fuel);
        if vals_valid(nodes, vs, inst, fuel) {
            assert forall|i: int|
                0 <= i < vs.drop_first().len() implies val_valid(
                nodes,
                #[trigger] vs.drop_first()[i],
                inst,
                fuel,
            ) by {
                assert(vs.drop_first()[i] == vs[i + 1]);
            }
        }
        if vals_errors(nodes, vs, inst, path, fuel).len() == 0 {
            assert forall|i: int| 0 <= i < vs.len() implies val_valid(
                nodes,
                #[trigger] vs[i],
                inst,
                fuel,
            ) by {
                if i > 0 {
                    assert(vs.drop_first()[i - 1] == vs[i]);
                }
            }
        }
    }
}

/// A property list yields no error exactly when each present listed property
/// satisfies its subvalidators.
proof fn lemma_props_errors_empty(
    nodes: Seq<Vec<Validator>>,
    props: Seq<(String, Vec<Validator>)>,
    inst: JsonValue,
    path: Seq<GChunk>,
    fuel: nat,
)
    ensures
        (props_errors(nodes, props, inst, path, fuel).len() == 0) <==> (match inst {
            JsonValue::Object(f) => forall|i: int|
                0 <= i < props.len() ==> match spec_lookup(f@, (#[trigger] props[i]).0@) {
                    Some(w) => vals_valid(nodes, props[i].1@, w, nodes.len()),
                    None => true,
                },
            _ => true,
        }),
    decreases inst, fuel, props, 0int,
{
    if props.len() > 0 {
        lemma_props_errors_empty(nodes, props.drop_first(), inst, path, fuel);
        if let JsonValue::Object(f) = inst {
            match spec_lookup(f@, props[0].0@) {
                Some(w) => {
                    lemma_lookup_member(f@, props[0].0@);
                    let j = choose|j: int| 0 <= j < f@.len() && #[trigger] f@[j].1 == w;
                    assert(decreases_to!(inst => inst->Object_0));
                    assert(decreases_to!(f => f@));
                    assert(decreases_to!(f@ => f@[j]));
                    assert(decreases_to!(f@[j] => f@[j].1));
                    lemma_vals_errors_empty(
                        nodes,
                        props[0].1@,
                        w,
                        path.push(GChunk::Prop(props[0].0@)),
                        nodes.len(),
                    );
                },
                None => {},
            }
            if props_errors(nodes, props, inst, path, fuel).len() == 0 {
                assert forall|i: int|
                    0 <= i < props.len() implies match spec_lookup(
                    f@,
                    (#[trigger] props[i]).0@,
                ) {
                    Some(w) => vals_valid(nodes, props[i].1@, w, nodes.len()),
                    None => true,
                } by {
                    if i > 0 {
                        assert(props.drop_first()[i - 1] == props[i]);
                    }
                }
            }
            if (forall|i: int|
                0 <= i < props.len() ==> match spec_lookup(f@, (#[trigger] props[i]).0@) {
                    Some(w) => vals_valid(nodes, props[i].1@, w, nodes.len()),
                    None => true,
                }) {
                assert forall|i: int|
                    0 <= i < props.drop_first().len() implies match spec_lookup(
                    f@,
                    (#[trigger] props.drop_first()[i]).0@,
                ) {
                    Some(w) => vals_valid(nodes, props.drop_first()[i].1@, w, nodes.len()),
                    None => true,
                } by {
                    assert(props.drop_first()[i] == props[i + 1]);
                }
            }
        }
    }
}

/// Addressing one more step descends from the value the path addresses.
proof fn lemma_json_at_snoc(root: JsonValue, path: Seq<GChunk>, c: GChunk)
    ensures
        crate::paths::json_at(root, path.push(c)) == (match crate::paths::json_at(root, path) {
            Some(v) => crate::paths::json_at(v, seq![c]),
            None => None,
        }),
    decreases path.len(),
{
    if path.len() == 0 {
        assert(path.push(c).drop_first() =~= Seq::<GChunk>::empty());
        assert(path.push(c)[0] == c);
        match root {
            JsonValue::Object(fields) => {
                if let GChunk::Prop(name) = c {
                    match spec_lookup(fields@, name) {
                        Some(w) => {
                            assert(seq![c].drop_first() =~= Seq::<GChunk>::empty());
                        },
                        None => {},
                    }
                }
            },
            JsonValue::Array(items) => {
                if let GChunk::Idx(i) = c {
                    assert(seq![c].drop_first() =~= Seq::<GChunk>::empty());
                }
            },
            _ => {},
        }
    } else {
        assert(path.push(c)[0] == path[0]);
        assert(path.push(c).drop_first() =~= path.drop_first().push(c));
        match root {
            JsonValue::Object(fields) => {
                if let GChunk::Prop(name) = path[0] {
                    match spec_lookup(fields@, name) {
                        Some(w) => {
                            lemma_json_at_snoc(w, path.drop_first(), c);
                        },
                        None => {},
                    }
                }
            },
            JsonValue::Array(items) => {
                if let GChunk::Idx(i) = path[0] {
                    if 0 <= i < items@.len() {
                        lemma_json_at_snoc(items@[i], path.drop_first(), c);
                    }
                }
            },
            _ => {},
        }
    }
}

/// Every error produced for the value a path addresses carries a path that
/// addresses, inside the root instance, exactly the error's own value.
pub proof fn lemma_val_errors_addressed(
    nodes: Seq<Vec<Validator>>,
    v: Validator,
    root: JsonValue,
    inst: JsonValue,
    path: Seq<GChunk>,
    fuel: nat,
)
    requires
        crate::paths::json_at(root, path) == Some(inst),
    ensures
        forall|k: int|
            0 <= k < val_errors(nodes, v, inst, path, fuel).len() ==> crate::paths::json_at(
                root,
                (#[trigger] val_errors(nodes, v, inst, path, fuel)[k]).path,
            ) == Some(val_errors(nodes, v, inst, path, fuel)[k].value),
    decreases inst, fuel, v, 1int,
{
    match v {
        Validator::Properties(p) => {
            assert(decreases_to!(v => v->Properties_0));
            assert(decreases_to!(p => p.properties));
            assert(decreases_to!(p.properties => p.properties@));
            lemma_props_errors_addressed(nodes, p.properties@, root, inst, path, fuel);
        },
        Validator::Ref(r) => {
            if fuel > 0 && r.target < nodes.len() {
                lemma_vals_errors_addressed(
                    nodes,
                    nodes[r.target as int]@,
                    root,
                    inst,
                    path,
                    (fuel - 1) as nat,
                );
            }
        },
        _ => {},
    }
}

/// As `lemma_val_errors_addressed`, for a validator list.
pub proof fn lemma_vals_errors_addressed(
    nodes: Seq<Vec<Validator>>,
    vs: Seq<Validator>,
    root: JsonValue,
    inst: JsonValue,
    path: Seq<GChunk>,
    fuel: nat,
)
    requires
        crate::paths::json_at(root, path) == Some(inst),
    ensures
        forall|k: int|
            0 <= k < vals_errors(nodes, vs, inst, path, fuel).len() ==> crate::paths::json_at(
                root,
                (#[trigger] vals_errors(nodes, vs, inst, path, fuel)[k]).path,
            ) == Some(vals_errors(nodes, vs, inst, path, fuel)[k].value),
    decreases inst, fuel, vs, 0int,
{
    if vs.len() > 0 {
        assert(decreases_to!(vs => vs[0]));
        lemma_val_errors_addressed(nodes, vs[0], root, inst, path, fuel);
        lemma_vals_errors_addressed(nodes, vs.drop_first(), root, inst, path, fuel);
        let head = val_errors(nodes, vs[0], inst, path, fuel);
        let rest = vals_errors(nodes, vs.drop_first(), inst, path, fuel);
        assert forall|k: int|
            0 <= k < vals_errors(nodes, vs, inst, path, fuel).len() implies crate::paths::json_at(
            root,
            (#[trigger] vals_errors(nodes, vs, inst, path, fuel)[k]).path,
        ) == Some(vals_errors(nodes, vs, inst, path, fuel)[k].value) by {
            if k < head.len() {
                assert((head + rest)[k] == head[k]);
            } else {
                assert((head + rest)[k] == rest[k - head.len()]);
            }
        }
    }
}

/// As `lemma_val_errors_addressed`, for a property list over an object.
proof fn lemma_props_errors_addressed(
    nodes: Seq<Vec<Validator>>,
    props: Seq<(String, Vec<Validator>)>,
    root: JsonValue,
    inst: JsonValue,
    path: Seq<GChunk>,
    fuel: nat,
)
    requires
        crate::paths::json_at(root, path) == Some(inst),
    ensures
        forall|k: int|
            0 <= k < props_errors(nodes, props, inst, path, fuel).len()
                ==> crate::paths::json_at(
                root,
                (#[trigger] props_errors(nodes, props, inst, path, fuel)[k]).path,
            ) == Some(props_errors(nodes, props, inst, path, fuel)[k].value),
    decreases inst, fuel, props, 0int,
{
    if props.len() > 0 {
        lemma_props_errors_addressed(nodes, props.drop_first(), root, inst, path, fuel);
        let head: Seq<GError> = match inst {
            JsonValue::Object(f) => match spec_lookup(f@, props[0].0@) {
                Some(w) => vals_errors(
                    nodes,
                    props[0].1@,
                    w,
                    path.push(GChunk::Prop(props[0].0@)),
                    nodes.len(),
                ),
                None => Seq::empty(),
            },
            _ => Seq::empty(),
        };
        if let JsonValue::Object(f) = inst {
            if let Some(w) = spec_lookup(f@, props[0].0@) {
                lemma_lookup_member(f@, props[0].0@);
                let j = choose|j: int| 0 <= j < f@.len() && #[trigger] f@[j].1 == w;
                assert(decreases_to!(inst => inst->Object_0));
                assert(decreases_to!(f => f@));
                assert(decreases_to!(f@ => f@[j]));
                assert(decreases_to!(f@[j] => f@[j].1));
                let c = GChunk::Prop(props[0].0@);
                lemma_json_at_snoc(root, path, c);
                assert(seq![c].drop_first() =~= Seq::<GChunk>::empty());
                assert(seq![c][0] == c);
                assert(crate::paths::json_at(w, Seq::<GChunk>::empty()) == Some(w));
                assert(crate::paths::json_at(inst, seq![c]) == Some(w));
                assert(crate::paths::json_at(root, path.push(c)) == Some(w));
                lemma_vals_errors_addressed(
                    nodes,
                    props[0].1@,
                    root,
                    w,
                    path.push(c),
                    nodes.len(),
                );
            }
        }
        let rest = props_errors(nodes, props.drop_first(), inst, path, fuel);
        assert forall|k: int|
            0 <= k < props_errors(nodes, props, inst, path, fuel).len()
                implies crate::paths::json_at(
            root,
            (#[trigger] props_errors(nodes, props, inst, path, fuel)[k]).path,
        ) == Some(props_errors(nodes, props, inst, path, fuel)[k].value) by {
            if k < head.len() {
                assert((head + rest)[k] == head[k]);
            } else {
                assert((head + rest)[k] == rest[k - head.len()]);
            }
        }
    }
}

/// Whether an instance is of the given primitive type.
pub fn check_type(t: PrimitiveType, inst: &JsonValue) -> (r: bool)
    requires
        json_wf(*inst),
    ensures
        r == type_match(t, *inst),
{
    match t {
        PrimitiveType::Null => match inst {
            JsonValue::Null => true,
            _ => false,
        },
        PrimitiveType::Boolean => match inst {
            JsonValue::Bool(_) => true,
            _ => false,
        },
        PrimitiveType::Integer => match inst {
            JsonValue::Number(n) => n.integral(),
            _ => false,
        },
        PrimitiveType::Number => match inst {
            JsonValue::Number(_) => true,
            _ => false,
        },
        PrimitiveType::Str => match inst {
            JsonValue::Str(_) => true,
            _ => false,
        },
        PrimitiveType::Array => match inst {
            JsonValue::Array(_) => true,
            _ => false,
        },
        PrimitiveType::Object => match inst {
            JsonValue::Object(_) => true,
            _ => false,
        },
    }
}

/// Whether the instance satisfies every validator in the list (the
/// short-circuit evaluation mode).
pub fn all_valid_of(
    nodes: &Vec<Vec<Validator>>,
    vs: &Vec<Validator>,
    inst: &JsonValue,
    fuel: usize,
) -> (r: bool)
    requires
        json_wf(*inst),
        validators_wf(vs@),
        nodes_wf(nodes@),
    ensures
        r == vals_valid(nodes@, vs@, *inst, fuel as nat),
    decreases *inst, fuel, vs@, 0int,
{
    let mut i: usize = 0;
    while i < vs.len()
        invariant
            i <= vs@.len(),
            json_wf(*inst),
            validators_wf(vs@),
            nodes_wf(nodes@),
            forall|k: int| 0 <= k < i ==> val_valid(nodes@, #[trigger] vs@[k], *inst, fuel as nat),
        decreases vs@.len() - i,
    {
        proof {
            assert(decreases_to!(vs@ => vs@[i as int]));
        }
        if !is_valid_of(nodes, &vs[i], inst, fuel) {
            return false;
        }
        i += 1;
    }
    true
}

/// How many elements of an array instance satisfy every validator in the
/// list.
pub fn count_matches_of(
    nodes: &Vec<Vec<Validator>>,
    vs: &Vec<Validator>,
    inst: &JsonValue,
    fuel: usize,
) -> (r: u64)
    requires
        json_wf(*inst),
        validators_wf(vs@),
        nodes_wf(nodes@),
        *inst is Array,
    ensures
        r == matches_upto(nodes@, vs@, *inst, (*inst)->Array_0@.len() as int, fuel as nat),
    decreases *inst, fuel, vs@, 0int,
{
    match inst {
        JsonValue::Array(items) => {
            let mut m: u64 = 0;
            let mut i: usize = 0;
            while i < items.len()
                invariant
                    i <= items@.len(),
                    m <= i,
                    *inst == JsonValue::Array(*items),
                    json_wf(*inst),
                    validators_wf(vs@),
                    nodes_wf(nodes@),
                    forall|k: int| 0 <= k < items@.len() ==> json_wf(#[trigger] items@[k]),
                    m == matches_upto(nodes@, vs@, *inst, i as int, fuel as nat),
                decreases items@.len() - i,
            {
                proof {
                    assert(decreases_to!(*inst => (*inst)->Array_0));
                    assert(decreases_to!(*items => items@));
                    assert(decreases_to!(items@ => items@[i as int]));
                }
                if all_valid_of(nodes, vs, &items[i], nodes.len()) {
                    m = m + 1;
                }
                i += 1;
            }
            m
        },
        _ => {
            proof {
                assert(false);
            }
            0
        },
    }
}

/// Whether the instance satisfies one validator (the short-circuit
/// evaluation mode).
#[verifier::loop_isolation(false)]
pub fn is_valid_of(
    nodes: &Vec<Vec<Validator>>,
    v: &Validator,
    inst: &JsonValue,
    fuel: usize,
) -> (r: bool)
    requires
        json_wf(*inst),
        validator_wf(*v),
        nodes_wf(nodes@),
    ensures
        r == val_valid(nodes@, *v, *inst, fuel as nat),
    decreases *inst, fuel, *v, 1int,
{
    match v {
        Validator::AlwaysValid => true,
        Validator::AlwaysInvalid => false,
        Validator::MultipleTypes(t) => {
            let mut i: usize = 0;
            while i < t.types.len()
                invariant
                    i <= t.types@.len(),
                    json_wf(*inst),
                    *v == Validator::MultipleTypes(*t),
                    forall|k: int| 0 <= k < i ==> !type_match(#[trigger] t.types@[k], *inst),
                decreases t.types@.len() - i,
            {
                if check_type(t.types[i], inst) {
                    return true;
                }
                i += 1;
            }
            false
        },
        Validator::IntegerType(_) => check_type(PrimitiveType::Integer, inst),
        Validator::SingleType(t) => check_type(t.typ, inst),
        Validator::Enum(e) => {
            let mut i: usize = 0;
            while i < e.items.len()
                invariant
                    i <= e.items@.len(),
                    json_wf(*inst),
                    *v == Validator::Enum(*e),
                    forall|k: int| 0 <= k < e.items@.len() ==> json_wf(#[trigger] e.items@[k]),
                    forall|k: int| 0 <= k < i ==> !jeq(*inst, #[trigger] e.items@[k]),
                decreases e.items@.len() - i,
            {
                if json_eq(inst, &e.items[i]) {
                    return true;
                }
                i += 1;
            }
            false
        },
        Validator::Minimum(m) => match inst {
            JsonValue::Number(n) => m.limit.num_le(n),
            _ => true,
        },
        Validator::Maximum(m) => match inst {
            JsonValue::Number(n) => n.num_le(&m.limit),
            _ => true,
        },
        Validator::ExclusiveMinimum(m) => match inst {
            JsonValue::Number(n) => m.limit.num_lt(n),
            _ => true,
        },
        Validator::ExclusiveMaximum(m) => match inst {
            JsonValue::Number(n) => n.num_lt(&m.limit),
            _ => true,
        },
        Validator::MaxItems(m) => match inst {
            JsonValue::Array(items) => items.len() as u64 <= m.limit,
            _ => true,
        },
        Validator::MinItems(m) => match inst {
            JsonValue::Array(items) => items.len() as u64 >= m.limit,
            _ => true,
        },
        Validator::MaxLength(m) => match inst {
            JsonValue::Str(s) => s.as_str().unicode_len() as u64 <= m.limit,
            _ => true,
        },
        Validator::MinLength(m) => match inst {
            JsonValue::Str(s) => s.as_str().unicode_len() as u64 >= m.limit,
            _ => true,
        },
        Validator::MaxProperties(m) => match inst {
            JsonValue::Object(f) => f.len() as u64 <= m.limit,
            _ => true,
        },
        Validator::MinProperties(m) => match inst {
            JsonValue::Object(f) => f.len() as u64 >= m.limit,
            _ => true,
        },
        Validator::Required(r) => match inst {
            JsonValue::Object(f) => {
                let mut i: usize = 0;
                while i < r.required.len()
                    invariant
                        i <= r.required@.len(),
                        *inst == JsonValue::Object(*f),
                        *v == Validator::Required(*r),
                        forall|k: int|
                            0 <= k < i ==> spec_lookup(f@, (#[trigger] r.required@[k])@) is Some,
                    decreases r.required@.len() - i,
                {
                    if !crate::json::obj_contains_key(f, &r.required[i]) {
                        return false;
                    }
                    i += 1;
                }
                true
            },
            _ => true,
        },
        Validator::DependentRequired(d) => match inst {
            JsonValue::Object(f) => {
                let mut i: usize = 0;
                while i < d.dependent.len()
                    invariant
                        i <= d.dependent@.len(),
                        *inst == JsonValue::Object(*f),
                        *v == Validator::DependentRequired(*d),
                        forall|k: int, j: int|
                            #![trigger d.dependent@[k].1@[j]]
                            0 <= k < i && 0 <= j < d.dependent@[k].1@.len() && spec_lookup(
                                f@,
                                d.dependent@[k].0@,
                            ) is Some ==> spec_lookup(f@, d.dependent@[k].1@[j]@) is Some,
                    decreases d.dependent@.len() - i,
                {
                    if crate::json::obj_contains_key(f, &d.dependent[i].0) {
                        let names = &d.dependent[i].1;
                        let mut j: usize = 0;
                        while j < names.len()
                            invariant
                                j <= names@.len(),
                                i < d.dependent@.len(),
                                *names == d.dependent@[i as int].1,
                                *inst == JsonValue::Object(*f),
                                *v == Validator::DependentRequired(*d),
                                spec_lookup(f@, d.dependent@[i as int].0@) is Some,
                                forall|k: int, jj: int|
                                    #![trigger d.dependent@[k].1@[jj]]
                                    0 <= k < i && 0 <= jj < d.dependent@[k].1@.len()
                                        && spec_lookup(f@, d.dependent@[k].0@) is Some
                                        ==> spec_lookup(f@, d.dependent@[k].1@[jj]@) is Some,
                                forall|jj: int|
                                    0 <= jj < j ==> spec_lookup(
                                        f@,
                                        (#[trigger] d.dependent@[i as int].1@[jj])@,
                                    ) is Some,
                            decreases names@.len() - j,
                        {
                            if !crate::json::obj_contains_key(f, &names[j]) {
                                return false;
                            }
                            j += 1;
                        }
                    }
                    i += 1;
                }
                true
            },
            _ => true,
        },
        Validator::Properties(p) => match inst {
            JsonValue::Object(f) => {
                let mut i: usize = 0;
                while i < p.properties.len()
                    invariant
                        i <= p.properties@.len(),
                        *inst == JsonValue::Object(*f),
                        *v == Validator::Properties(*p),
                        json_wf(*inst),
                        nodes_wf(nodes@),
                        forall|k: int| 0 <= k < f@.len() ==> json_wf((#[trigger] f@[k]).1),
                        forall|k: int|
                            0 <= k < p.properties@.len() ==> validators_wf(
                                (#[trigger] p.properties@[k]).1@,
                            ),
                        forall|k: int|
                            0 <= k < i ==> match spec_lookup(
                                f@,
                                (#[trigger] p.properties@[k]).0@,
                            ) {
                                Some(w) => vals_valid(
                                    nodes@,
                                    p.properties@[k].1@,
                                    w,
                                    nodes@.len(),
                                ),
                                None => true,
                            },
                    decreases p.properties@.len() - i,
                {
                    match crate::json::obj_lookup(f, &p.properties[i].0) {
                        Some(w) => {
                            proof {
                                crate::json::lemma_lookup_wf(f@, p.properties@[i as int].0@);
                                lemma_lookup_member(f@, p.properties@[i as int].0@);
                                let j = choose|j: int|
                                    0 <= j < f@.len() && #[trigger] f@[j].1 == *w;
                                assert(decreases_to!(*inst => (*inst)->Object_0));
                                assert(decreases_to!(*f => f@));
                                assert(decreases_to!(f@ => f@[j]));
                                assert(decreases_to!(f@[j] => f@[j].1));
                            }
                            if !all_valid_of(nodes, &p.properties[i].1, w, nodes.len()) {
                                return false;
                            }
                        },
                        None => {},
                    }
                    i += 1;
                }
                true
            },
            _ => true,
        },
        Validator::Contains(c) => match inst {
            JsonValue::Array(items) => {
                let mut i: usize = 0;
                while i < items.len()
                    invariant
                        i <= items@.len(),
                        *inst == JsonValue::Array(*items),
                        *v == Validator::Contains(*c),
                        json_wf(*inst),
                        nodes_wf(nodes@),
                        validators_wf(c.validators@),
                        forall|k: int| 0 <= k < items@.len() ==> json_wf(#[trigger] items@[k]),
                        forall|k: int|
                            0 <= k < i ==> !vals_valid(
                                nodes@,
                                c.validators@,
                                #[trigger] items@[k],
                                nodes@.len(),
                            ),
                    decreases items@.len() - i,
                {
                    proof {
                        assert(decreases_to!(*inst => (*inst)->Array_0));
                        assert(decreases_to!(*items => items@));
                        assert(decreases_to!(items@ => items@[i as int]));
                    }
                    if all_valid_of(nodes, &c.validators, &items[i], nodes.len()) {
                        return true;
                    }
                    i += 1;
                }
                false
            },
            _ => true,
        },
        Validator::MinContains(c) => match inst {
            JsonValue::Array(_) => {
                proof {
                    assert(decreases_to!(*v => (*v)->MinContains_0));
                    assert(decreases_to!(*c => c.validators));
                    assert(decreases_to!(c.validators => c.validators@));
                }
                let m = count_matches_of(nodes, &c.validators, inst, fuel);
                c.min_contains == 0 || m >= c.min_contains
            },
            _ => true,
        },
        Validator::MaxContains(c) => match inst {
            JsonValue::Array(_) => {
                proof {
                    assert(decreases_to!(*v => (*v)->MaxContains_0));
                    assert(decreases_to!(*c => c.validators));
                    assert(decreases_to!(c.validators => c.validators@));
                }
                let m = count_matches_of(nodes, &c.validators, inst, fuel);
                1 <= m && m <= c.max_contains
            },
            _ => true,
        },
        Validator::MinMaxContains(c) => match inst {
            JsonValue::Array(_) => {
                proof {
                    assert(decreases_to!(*v => (*v)->MinMaxContains_0));
                    assert(decreases_to!(*c => c.validators));
                    assert(decreases_to!(c.validators => c.validators@));
                }
                let m = count_matches_of(nodes, &c.validators, inst, fuel);
                c.min_contains <= m && m <= c.max_contains
            },
            _ => true,
        },
        Validator::Ref(r) => {
            if fuel == 0 {
                false
            } else if r.target >= nodes.len() {
                false
            } else {
                all_valid_of(nodes, &nodes[r.target], inst, fuel - 1)
            }
        },
    }
}

/// Names already found present do not change which name is missing first.
proof fn lemma_first_missing_skip(
    fields: Seq<(String, JsonValue)>,
    names: Seq<String>,
    i: int,
)
    requires
        0 <= i <= names.len(),
        forall|k: int| 0 <= k < i ==> spec_lookup(fields, (#[trigger] names[k])@) is Some,
    ensures
        first_missing(fields, names) == first_missing(fields, names.skip(i)),
    decreases i,
{
    if i > 0 {
        lemma_first_missing_skip(fields, names, i - 1);
        assert(names.skip(i - 1).drop_first() =~= names.skip(i));
        assert(names.skip(i - 1)[0] == names[i - 1]);
    } else {
        assert(names.skip(0) =~= names);
    }
}

/// Dependency rows already found satisfied do not change which name is owed
/// first.
proof fn lemma_dep_skip(
    fields: Seq<(String, JsonValue)>,
    deps: Seq<(String, Vec<String>)>,
    i: int,
)
    requires
        0 <= i <= deps.len(),
        forall|k: int|
            0 <= k < i ==> (spec_lookup(fields, (#[trigger] deps[k]).0@) is None || first_missing(
                fields,
                deps[k].1@,
            ) is None),
    ensures
        dep_first_missing(fields, deps) == dep_first_missing(fields, deps.skip(i)),
    decreases i,
{
    if i > 0 {
        lemma_dep_skip(fields, deps, i - 1);
        assert(deps.skip(i - 1).drop_first() =~= deps.skip(i));
        assert(deps.skip(i - 1)[0] == deps[i - 1]);
    } else {
        assert(deps.skip(0) =~= deps);
    }
}

/// Error sequences of validator lists concatenate.
proof fn lemma_vals_errors_app(
    nodes: Seq<Vec<Validator>>,
    u: Seq<Validator>,
    w: Seq<Validator>,
    inst: JsonValue,
    path: Seq<GChunk>,
    fuel: nat,
)
    ensures
        vals_errors(nodes, u + w, inst, path, fuel) == vals_errors(nodes, u, inst, path, fuel)
            + vals_errors(nodes, w, inst, path, fuel),
    decreases u.len(),
{
    if u.len() == 0 {
        assert(u + w =~= w);
        assert(vals_errors(nodes, u, inst, path, fuel) + vals_errors(nodes, w, inst, path, fuel)
            =~= vals_errors(nodes, w, inst, path, fuel));
    } else {
        lemma_vals_errors_app(nodes, u.drop_first(), w, inst, path, fuel);
        assert((u + w).drop_first() =~= u.drop_first() + w);
        assert((u + w)[0] == u[0]);
        assert(val_errors(nodes, u[0], inst, path, fuel) + (vals_errors(
            nodes,
            u.drop_first(),
            inst,
            path,
            fuel,
        ) + vals_errors(nodes, w, inst, path, fuel)) =~= (val_errors(nodes, u[0], inst, path, fuel)
            + vals_errors(nodes, u.drop_first(), inst, path, fuel)) + vals_errors(
            nodes,
            w,
            inst,
            path,
            fuel,
        ));
    }
}

/// Error sequences of property lists concatenate.
proof fn lemma_props_errors_app(
    nodes: Seq<Vec<Validator>>,
    u: Seq<(String, Vec<Validator>)>,
    w: Seq<(String, Vec<Validator>)>,
    inst: JsonValue,
    path: Seq<GChunk>,
    fuel: nat,
)
    ensures
        props_errors(nodes, u + w, inst, path, fuel) == props_errors(nodes, u, inst, path, fuel)
            + props_errors(nodes, w, inst, path, fuel),
    decreases u.len(),
{
    if u.len() == 0 {
        assert(u + w =~= w);
        assert(props_errors(nodes, u, inst, path, fuel) + props_errors(nodes, w, inst, path, fuel)
            =~= props_errors(nodes, w, inst, path, fuel));
    } else {
        lemma_props_errors_app(nodes, u.drop_first(), w, inst, path, fuel);
        assert((u + w).drop_first() =~= u.drop_first() + w);
        assert((u + w)[0] == u[0]);
        let head = match inst {
            JsonValue::Object(f) => match spec_lookup(f@, u[0].0@) {
                Some(v2) => vals_errors(
                    nodes,
                    u[0].1@,
                    v2,
                    path.push(GChunk::Prop(u[0].0@)),
                    nodes.len(),
                ),
                None => Seq::<GError>::empty(),
            },
            _ => Seq::<GError>::empty(),
        };
        assert(head + (props_errors(nodes, u.drop_first(), inst, path, fuel) + props_errors(
            nodes,
            w,
            inst,
            path,
            fuel,
        )) =~= (head + props_errors(nodes, u.drop_first(), inst, path, fuel)) + props_errors(
            nodes,
            w,
            inst,
            path,
            fuel,
        ));
    }
}

/// Matching error lists concatenate.
proof fn lemma_errs_match_app(
    a: Seq<crate::errors::ValidationError>,
    b: Seq<crate::errors::ValidationError>,
    x: Seq<GError>,
    y: Seq<GError>,
)
    requires
        crate::errors::errs_match(a, x),
        crate::errors::errs_match(b, y),
    ensures
        crate::errors::errs_match(a + b, x + y),
{
    assert forall|i: int| 0 <= i < (a + b).len() implies crate::errors::gerr_match(
        ((a + b)[i])@,
        (x + y)[i],
    ) by {
        if i < a.len() {
            assert((a + b)[i] == a[i]);
            assert((x + y)[i] == x[i]);
        } else {
            assert((a + b)[i] == b[i - a.len()]);
            assert((x + y)[i] == y[i - a.len()]);
        }
    }
}

/// The error kind a non-compound validator reports, as a value.
fn leaf_kind_of(v: &Validator) -> (r: crate::errors::ErrorKind)
    ensures
        r@ == leaf_kind(*v),
{
    match v {
        Validator::AlwaysInvalid => crate::errors::ErrorKind::FalseSchema,
        Validator::MultipleTypes(_) => crate::errors::ErrorKind::Type,
        Validator::IntegerType(_) => crate::errors::ErrorKind::Type,
        Validator::SingleType(_) => crate::errors::ErrorKind::Type,
        Validator::Enum(_) => crate::errors::ErrorKind::Enum,
        Validator::Minimum(_) => crate::errors::ErrorKind::Minimum,
        Validator::Maximum(_) => crate::errors::ErrorKind::Maximum,
        Validator::ExclusiveMinimum(_) => crate::errors::ErrorKind::ExclusiveMinimum,
        Validator::ExclusiveMaximum(_) => crate::errors::ErrorKind::ExclusiveMaximum,
        Validator::MaxItems(_) => crate::errors::ErrorKind::MaxItems,
        Validator::MinItems(_) => crate::errors::ErrorKind::MinItems,
        Validator::MaxLength(_) => crate::errors::ErrorKind::MaxLength,
        Validator::MinLength(_) => crate::errors::ErrorKind::MinLength,
        Validator::MaxProperties(_) => crate::errors::ErrorKind::MaxProperties,
        Validator::MinProperties(_) => crate::errors::ErrorKind::MinProperties,
        Validator::Contains(_) => crate::errors::ErrorKind::Contains,
        Validator::MinContains(_) => crate::errors::ErrorKind::Contains,
        Validator::MaxContains(_) => crate::errors::ErrorKind::Contains,
        Validator::MinMaxContains(_) => crate::errors::ErrorKind::Contains,
        _ => crate::errors::ErrorKind::Type,
    }
}

/// The errors the instance earns from a validator list, in order (the lazy,
/// error-producing evaluation mode, materialized).
#[verifier::loop_isolation(false)]
pub fn all_errors_of(
    nodes: &Vec<Vec<Validator>>,
    vs: &Vec<Validator>,
    inst: &JsonValue,
    path: &crate::paths::InstancePath,
    fuel: usize,
) -> (r: Vec<crate::errors::ValidationError>)
    requires
        json_wf(*inst),
        validators_wf(vs@),
        nodes_wf(nodes@),
    ensures
        crate::errors::errs_match(r@, vals_errors(nodes@, vs@, *inst, path@, fuel as nat)),
    decreases *inst, fuel, vs@, 0int,
{
    let mut out: Vec<crate::errors::ValidationError> = Vec::new();
    let mut i: usize = 0;
    proof {
        assert(vs@.take(0) =~= Seq::<Validator>::empty());
    }
    while i < vs.len()
        invariant
            i <= vs@.len(),
            crate::errors::errs_match(
                out@,
                vals_errors(nodes@, vs@.take(i as int), *inst, path@, fuel as nat),
            ),
        decreases vs@.len() - i,
    {
        proof {
            assert(decreases_to!(vs@ => vs@[i as int]));
        }
        let ghost prefix = out@;
        let mut part = validate_of(nodes, &vs[i], inst, path, fuel);
        let ghost part_view = part@;
        out.append(&mut part);
        proof {
            let one = seq![vs@[i as int]];
            assert(vs@.take(i + 1 as int) =~= vs@.take(i as int) + one);
            lemma_vals_errors_app(
                nodes@,
                vs@.take(i as int),
                one,
                *inst,
                path@,
                fuel as nat,
            );
            assert(one.drop_first() =~= Seq::<Validator>::empty());
            assert(vals_errors(nodes@, Seq::<Validator>::empty(), *inst, path@, fuel as nat)
                =~= Seq::<GError>::empty());
            assert(vals_errors(nodes@, one, *inst, path@, fuel as nat) =~= val_errors(
                nodes@,
                vs@[i as int],
                *inst,
                path@,
                fuel as nat,
            ));
            lemma_errs_match_app(
                prefix,
                part_view,
                vals_errors(nodes@, vs@.take(i as int), *inst, path@, fuel as nat),
                val_errors(nodes@, vs@[i as int], *inst, path@, fuel as nat),
            );
        }
        i += 1;
    }
    proof {
        assert(vs@.take(vs@.len() as int) =~= vs@);
    }
    out
}

/// The errors the instance earns from one validator, in order (the lazy,
/// error-producing evaluation mode, materialized).
#[verifier::loop_isolation(false)]
pub fn validate_of(
    nodes: &Vec<Vec<Validator>>,
    v: &Validator,
    inst: &JsonValue,
    path: &crate::paths::InstancePath,
    fuel: usize,
) -> (r: Vec<crate::errors::ValidationError>)
    requires
        json_wf(*inst),
        validator_wf(*v),
        nodes_wf(nodes@),
    ensures
        crate::errors::errs_match(r@, val_errors(nodes@, *v, *inst, path@, fuel as nat)),
    decreases *inst, fuel, *v, 1int,
{
    match v {
        Validator::Properties(p) => match inst {
            JsonValue::Object(f) => {
                let mut out: Vec<crate::errors::ValidationError> = Vec::new();
                let mut i: usize = 0;
                proof {
                    assert(p.properties@.take(0) =~= Seq::<(String, Vec<Validator>)>::empty());
                }
                while i < p.properties.len()
                    invariant
                        i <= p.properties@.len(),
                        crate::errors::errs_match(
                            out@,
                            props_errors(
                                nodes@,
                                p.properties@.take(i as int),
                                *inst,
                                path@,
                                fuel as nat,
                            ),
                        ),
                    decreases p.properties@.len() - i,
                {
                    let ghost prefix = out@;
                    let ghost entry = p.properties@[i as int];
                    let ghost head_errs = match spec_lookup(f@, entry.0@) {
                        Some(w) => vals_errors(
                            nodes@,
                            entry.1@,
                            w,
                            path@.push(GChunk::Prop(entry.0@)),
                            nodes@.len(),
                        ),
                        None => Seq::<GError>::empty(),
                    };
                    match crate::json::obj_lookup(f, &p.properties[i].0) {
                        Some(w) => {
                            proof {
                                crate::json::lemma_lookup_wf(f@, entry.0@);
                                lemma_lookup_member(f@, entry.0@);
                                let j = choose|j: int|
                                    0 <= j < f@.len() && #[trigger] f@[j].1 == *w;
                                assert(decreases_to!(*inst => (*inst)->Object_0));
                                assert(decreases_to!(*f => f@));
                                assert(decreases_to!(f@ => f@[j]));
                                assert(decreases_to!(f@[j] => f@[j].1));
                            }
                            let child_path = path.extended(
                                crate::paths::PathChunk::Property(p.properties[i].0.clone()),
                            );
                            let mut errs = all_errors_of(
                                nodes,
                                &p.properties[i].1,
                                w,
                                &child_path,
                                nodes.len(),
                            );
                            let ghost errs_view = errs@;
                            out.append(&mut errs);
                            proof {
                                lemma_errs_match_app(
                                    prefix,
                                    errs_view,
                                    props_errors(
                                        nodes@,
                                        p.properties@.take(i as int),
                                        *inst,
                                        path@,
                                        fuel as nat,
                                    ),
                                    head_errs,
                                );
                            }
                        },
                        None => {
                            proof {
                                assert(out@ =~= prefix + Seq::<
                                    crate::errors::ValidationError,
                                >::empty());
                                lemma_errs_match_app(
                                    prefix,
                                    Seq::<crate::errors::ValidationError>::empty(),
                                    props_errors(
                                        nodes@,
                                        p.properties@.take(i as int),
                                        *inst,
                                        path@,
                                        fuel as nat,
                                    ),
                                    head_errs,
                                );
                            }
                        },
                    }
                    proof {
                        let one = seq![entry];
                        assert(p.properties@.take(i + 1 as int) =~= p.properties@.take(i as int)
                            + one);
                        lemma_props_errors_app(
                            nodes@,
                            p.properties@.take(i as int),
                            one,
                            *inst,
                            path@,
                            fuel as nat,
                        );
                        assert(one.drop_first() =~= Seq::<(String, Vec<Validator>)>::empty());
                        assert(props_errors(
                            nodes@,
                            Seq::<(String, Vec<Validator>)>::empty(),
                            *inst,
                            path@,
                            fuel as nat,
                        ) =~= Seq::<GError>::empty());
                        assert(props_errors(nodes@, one, *inst, path@, fuel as nat) =~= head_errs);
                    }
                    i += 1;
                }
                proof {
                    assert(p.properties@.take(p.properties@.len() as int) =~= p.properties@);
                }
                out
            },
            _ => Vec::new(),
        },
        Validator::Ref(rf) => {
            if fuel == 0 || rf.target >= nodes.len() {
                let err = crate::errors::ValidationError {
                    kind: crate::errors::ErrorKind::Reference,
                    instance_path: path.dup(),
                    instance: inst.deep_clone(),
                };
                let mut out: Vec<crate::errors::ValidationError> = Vec::new();
                out.push(err);
                out
            } else {
                all_errors_of(nodes, &nodes[rf.target], inst, path, fuel - 1)
            }
        },
        Validator::Required(rq) => match inst {
            JsonValue::Object(f) => {
                let mut i: usize = 0;
                while i < rq.required.len()
                    invariant
                        i <= rq.required@.len(),
                        forall|k: int|
                            0 <= k < i ==> spec_lookup(f@, (#[trigger] rq.required@[k])@) is Some,
                    decreases rq.required@.len() - i,
                {
                    if !crate::json::obj_contains_key(f, &rq.required[i]) {
                        proof {
                            lemma_first_missing_skip(f@, rq.required@, i as int);
                            assert(rq.required@.skip(i as int)[0] == rq.required@[i as int]);
                        }
                        let err = crate::errors::ValidationError {
                            kind: crate::errors::ErrorKind::Required(rq.required[i].clone()),
                            instance_path: path.dup(),
                            instance: inst.deep_clone(),
                        };
                        let mut out: Vec<crate::errors::ValidationError> = Vec::new();
                        out.push(err);
                        return out;
                    }
                    i += 1;
                }
                proof {
                    lemma_first_missing_skip(f@, rq.required@, i as int);
                    assert(rq.required@.skip(i as int).len() == 0);
                }
                Vec::new()
            },
            _ => Vec::new(),
        },
        Validator::DependentRequired(d) => match inst {
            JsonValue::Object(f) => {
                let mut i: usize = 0;
                while i < d.dependent.len()
                    invariant
                        i <= d.dependent@.len(),
                        forall|k: int|
                            0 <= k < i ==> (spec_lookup(
                                f@,
                                (#[trigger] d.dependent@[k]).0@,
                            ) is None || first_missing(f@, d.dependent@[k].1@) is None),
                    decreases d.dependent@.len() - i,
                {
                    if crate::json::obj_contains_key(f, &d.dependent[i].0) {
                        let names = &d.dependent[i].1;
                        let mut j: usize = 0;
                        while j < names.len()
                            invariant
                                j <= names@.len(),
                                i < d.dependent@.len(),
                                *names == d.dependent@[i as int].1,
                                spec_lookup(f@, d.dependent@[i as int].0@) is Some,
                                forall|jj: int|
                                    0 <= jj < j ==> spec_lookup(
                                        f@,
                                        (#[trigger] d.dependent@[i as int].1@[jj])@,
                                    ) is Some,
                            decreases names@.len() - j,
                        {
                            if !crate::json::obj_contains_key(f, &names[j]) {
                                proof {
                                    lemma_dep_skip(f@, d.dependent@, i as int);
                                    assert(d.dependent@.skip(i as int)[0] == d.dependent@[i as int]);
                                    lemma_first_missing_skip(f@, names@, j as int);
                                    assert(names@.skip(j as int)[0] == names@[j as int]);
                                }
                                let err = crate::errors::ValidationError {
                                    kind: crate::errors::ErrorKind::Required(names[j].clone()),
                                    instance_path: path.dup(),
                                    instance: inst.deep_clone(),
                                };
                                let mut out: Vec<crate::errors::ValidationError> = Vec::new();
                                out.push(err);
                                return out;
                            }
                            j += 1;
                        }
                        proof {
                            lemma_first_missing_skip(f@, names@, j as int);
                            assert(names@.skip(j as int).len() == 0);
                        }
                    }
                    i += 1;
                }
                proof {
                    lemma_dep_skip(f@, d.dependent@, i as int);
                    assert(d.dependent@.skip(i as int).len() == 0);
                }
                Vec::new()
            },
            _ => Vec::new(),
        },
        _ => {
            if is_valid_of(nodes, v, inst, fuel) {
                Vec::new()
            } else {
                let err = crate::errors::ValidationError {
                    kind: leaf_kind_of(v),
                    instance_path: path.dup(),
                    instance: inst.deep_clone(),
                };
                let mut out: Vec<crate::errors::ValidationError> = Vec::new();
                out.push(err);
                out
            }
        },
    }
}

} // verus!
