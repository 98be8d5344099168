//! Determinism of compilation and validation: two compiled trees that agree
//! in mathematical content accept and reject exactly the same instances, and
//! compiling one schema can only ever yield trees that so agree.

use vstd::prelude::*;

use crate::json::jeq;
use crate::json::same_json;
use crate::json::spec_lookup;
use crate::json::JsonValue;
use crate::validator::Validator;

verus! {

/// Two validators agree in mathematical content: the same keyword with the
/// same limits, texts compared by their characters, documents by structural
/// identity, and subvalidators recursively.
pub open spec fn similar_validator(a: Validator, b: Validator) -> bool
    decreases a, 1int,
        via similar_validator_decreases
{
    match (a, b) {
        (Validator::AlwaysValid, Validator::AlwaysValid) => true,
        (Validator::AlwaysInvalid, Validator::AlwaysInvalid) => true,
        (Validator::MultipleTypes(x), Validator::MultipleTypes(y)) => x.types@ == y.types@,
        (Validator::IntegerType(_), Validator::IntegerType(_)) => true,
        (Validator::SingleType(x), Validator::SingleType(y)) => x.typ == y.typ,
        (Validator::Enum(x), Validator::Enum(y)) => x.items@.len() == y.items@.len() && (forall|
            i: int,
        |
            0 <= i < x.items@.len() ==> same_json(#[trigger] x.items@[i], y.items@[i])),
        (Validator::Minimum(x), Validator::Minimum(y)) => x.limit == y.limit,
        (Validator::Maximum(x), Validator::Maximum(y)) => x.limit == y.limit,
        (Validator::ExclusiveMinimum(x), Validator::ExclusiveMinimum(y)) => x.limit == y.limit,
        (Validator::ExclusiveMaximum(x), Validator::ExclusiveMaximum(y)) => x.limit == y.limit,
        (Validator::MaxItems(x), Validator::MaxItems(y)) => x.limit == y.limit,
        (Validator::MinItems(x), Validator::MinItems(y)) => x.limit == y.limit,
        (Validator::MaxLength(x), Validator::MaxLength(y)) => x.limit == y.limit,
        (Validator::MinLength(x), Validator::MinLength(y)) => x.limit == y.limit,
        (Validator::MaxProperties(x), Validator::MaxProperties(y)) => x.limit == y.limit,
        (Validator::MinProperties(x), Validator::MinProperties(y)) => x.limit == y.limit,
        (Validator::Required(x), Validator::Required(y)) => x.required@.len()
            == y.required@.len() && (forall|i: int|
            0 <= i < x.required@.len() ==> (#[trigger] x.required@[i])@ == y.required@[i]@),
        (Validator::DependentRequired(x), Validator::DependentRequired(y)) => x.dependent@.len()
            == y.dependent@.len() && (forall|i: int|
            0 <= i < x.dependent@.len() ==> (#[trigger] x.dependent@[i]).0@
                == y.dependent@[i].0@ && x.dependent@[i].1@.len() == y.dependent@[i].1@.len() && (
            forall|j: int|
                0 <= j < x.dependent@[i].1@.len() ==> (#[trigger] x.dependent@[i].1@[j])@
                    == y.dependent@[i].1@[j]@)),
        (Validator::Properties(x), Validator::Properties(y)) => x.properties@.len()
            == y.properties@.len() && (forall|i: int|
            0 <= i < x.properties@.len() ==> (#[trigger] x.properties@[i]).0@
                == y.properties@[i].0@ && similar_validators(
                x.properties@[i].1@,
                y.properties@[i].1@,
            )),
        (Validator::Contains(x), Validator::Contains(y)) => similar_validators(
            x.validators@,
            y.validators@,
        ),
        (Validator::MinContains(x), Validator::MinContains(y)) => x.min_contains
            == y.min_contains && similar_validators(x.validators@, y.validators@),
        (Validator::MaxContains(x), Validator::MaxContains(y)) => x.max_contains
            == y.max_contains && similar_validators(x.validators@, y.validators@),
        (Validator::MinMaxContains(x), Validator::MinMaxContains(y)) => x.min_contains
            == y.min_contains && x.max_contains == y.max_contains && similar_validators(
            x.validators@,
            y.validators@,
        ),
        (Validator::Ref(x), Validator::Ref(y)) => x.target == y.target,
        _ => false,
    }
}

/// Two validator lists agree in content, validator for validator.
pub open spec fn similar_validators(a: Seq<Validator>, b: Seq<Validator>) -> bool
    decreases a, 0int,
{
    a.len() == b.len() && (forall|i: int|
        0 <= i < a.len() ==> similar_validator(#[trigger] a[i], b[i]))
}

/// Two node tables agree in content, node for node.
pub open spec fn similar_nodes(a: Seq<Vec<Validator>>, b: Seq<Vec<Validator>>) -> bool {
    a.len() == b.len() && (forall|i: int|
        0 <= i < a.len() ==> similar_validators((#[trigger] a[i])@, b[i]@))
}

#[via_fn]
proof fn similar_validator_decreases(a: Validator, b: Validator) {
    match a {
        Validator::Properties(x) => {
            assert forall|i: int|
                0 <= i < x.properties@.len() implies decreases_to!(
                a => (#[trigger] x.properties@[i]).1@) by {
                assert(decreases_to!(a => a->Properties_0));
                assert(decreases_to!(x => x.properties));
                assert(decreases_to!(x.properties => x.properties@));
                assert(decreases_to!(x.properties@ => x.properties@[i]));
                assert(decreases_to!(x.properties@[i] => x.properties@[i].1));
                assert(decreases_to!(x.properties@[i].1 => x.properties@[i].1@));
            }
        },
        Validator::Contains(x) => {
            assert(decreases_to!(a => a->Contains_0));
            assert(decreases_to!(x => x.validators));
            assert(decreases_to!(x.validators => x.validators@));
        },
        Validator::MinContains(x) => {
            assert(decreases_to!(a => a->MinContains_0));
            assert(decreases_to!(x => x.validators));
            assert(decreases_to!(x.validators => x.validators@));
        },
        Validator::MaxContains(x) => {
            assert(decreases_to!(a => a->MaxContains_0));
            assert(decreases_to!(x => x.validators));
            assert(decreases_to!(x.validators => x.validators@));
        },
        Validator::MinMaxContains(x) => {
            assert(decreases_to!(a => a->MinMaxContains_0));
            assert(decreases_to!(x => x.validators));
            assert(decreases_to!(x.validators => x.validators@));
        },
        _ => {},
    }
}

/// Error sequences respect content: validators, node tables and instances
/// that agree in mathematical content yield the same kinds at the same
/// paths, over structurally identical offending values.
pub proof fn lemma_val_errors_congruent(
    nodes1: Seq<Vec<Validator>>,
    nodes2: Seq<Vec<Validator>>,
    v1: Validator,
    v2: Validator,
    inst1: JsonValue,
    inst2: JsonValue,
    path: Seq<crate::paths::GChunk>,
    fuel: nat,
)
    requires
        similar_nodes(nodes1, nodes2),
        similar_validator(v1, v2),
        same_json(inst1, inst2),
    ensures
        gerrs_similar(
            crate::validator::val_errors(nodes1, v1, inst1, path, fuel),
            crate::validator::val_errors(nodes2, v2, inst2, path, fuel),
        ),
    decreases inst1, fuel, v1, 1int,
{
    match (v1, v2) {
        (Validator::Properties(p1), Validator::Properties(p2)) => {
            assert(decreases_to!(v1 => v1->Properties_0));
            assert(decreases_to!(p1 => p1.properties));
            assert(decreases_to!(p1.properties => p1.properties@));
            lemma_props_errors_congruent(
                nodes1,
                nodes2,
                p1.properties@,
                p2.properties@,
                inst1,
                inst2,
                path,
                fuel,
            );
        },
        (Validator::Ref(r1), Validator::Ref(r2)) => {
            if fuel > 0 && r1.target < nodes1.len() {
                lemma_vals_errors_congruent(
                    nodes1,
                    nodes2,
                    nodes1[r1.target as int]@,
                    nodes2[r2.target as int]@,
                    inst1,
                    inst2,
                    path,
                    (fuel - 1) as nat,
                );
            }
        },
        (Validator::Required(x), Validator::Required(y)) => {
            if let (JsonValue::Object(f1), JsonValue::Object(f2)) = (inst1, inst2) {
                lemma_first_missing_congruent(f1@, f2@, x.required@, y.required@);
            }
        },
        (Validator::DependentRequired(x), Validator::DependentRequired(y)) => {
            if let (JsonValue::Object(f1), JsonValue::Object(f2)) = (inst1, inst2) {
                lemma_dep_congruent(f1@, f2@, x.dependent@, y.dependent@);
            }
        },
        _ => {
            lemma_val_valid_congruent(nodes1, nodes2, v1, v2, inst1, inst2, fuel);
        },
    }
}

/// As `lemma_val_errors_congruent`, for validator lists.
pub proof fn lemma_vals_errors_congruent(
    nodes1: Seq<Vec<Validator>>,
    nodes2: Seq<Vec<Validator>>,
    vs1: Seq<Validator>,
    vs2: Seq<Validator>,
    inst1: JsonValue,
    inst2: JsonValue,
    path: Seq<crate::paths::GChunk>,
    fuel: nat,
)
    requires
        similar_nodes(nodes1, nodes2),
        similar_validators(vs1, vs2),
        same_json(inst1, inst2),
    ensures
        gerrs_similar(
            crate::validator::vals_errors(nodes1, vs1, inst1, path, fuel),
            crate::validator::vals_errors(nodes2, vs2, inst2, path, fuel),
        ),
    decreases inst1, fuel, vs1, 0int,
{
    if vs1.len() > 0 {
        assert(decreases_to!(vs1 => vs1[0]));
        lemma_val_errors_congruent(nodes1, nodes2, vs1[0], vs2[0], inst1, inst2, path, fuel);
        assert forall|i: int|
            #![trigger vs1.drop_first()[i]]
            #![trigger vs2.drop_first()[i]]
            0 <= i < vs1.drop_first().len() implies similar_validator(
            vs1.drop_first()[i],
            vs2.drop_first()[i],
        ) by {
            assert(vs1.drop_first()[i] == vs1[i + 1]);
            assert(vs2.drop_first()[i] == vs2[i + 1]);
        }
        lemma_vals_errors_congruent(
            nodes1,
            nodes2,
            vs1.drop_first(),
            vs2.drop_first(),
            inst1,
            inst2,
            path,
            fuel,
        );
        lemma_gerrs_similar_app(
            crate::validator::val_errors(nodes1, vs1[0], inst1, path, fuel),
            crate::validator::vals_errors(nodes1, vs1.drop_first(), inst1, path, fuel),
            crate::validator::val_errors(nodes2, vs2[0], inst2, path, fuel),
            crate::validator::vals_errors(nodes2, vs2.drop_first(), inst2, path, fuel),
        );
    }
}

/// As `lemma_val_errors_congruent`, for property lists over objects.
proof fn lemma_props_errors_congruent(
    nodes1: Seq<Vec<Validator>>,
    nodes2: Seq<Vec<Validator>>,
    props1: Seq<(String, Vec<Validator>)>,
    props2: Seq<(String, Vec<Validator>)>,
    inst1: JsonValue,
    inst2: JsonValue,
    path: Seq<crate::paths::GChunk>,
    fuel: nat,
)
    requires
        similar_nodes(nodes1, nodes2),
        props1.len() == props2.len(),
        forall|i: int|
            0 <= i < props1.len() ==> (#[trigger] props1[i]).0@ == props2[i].0@
                && similar_validators(props1[i].1@, props2[i].1@),
        same_json(inst1, inst2),
    ensures
        gerrs_similar(
            crate::validator::props_errors(nodes1, props1, inst1, path, fuel),
            crate::validator::props_errors(nodes2, props2, inst2, path, fuel),
        ),
    decreases inst1, fuel, props1, 0int,
{
    if props1.len() > 0 {
        let head1: Seq<crate::errors::GError> = match inst1 {
            JsonValue::Object(f) => match spec_lookup(f@, props1[0].0@) {
                Some(w) => crate::validator::vals_errors(
                    nodes1,
                    props1[0].1@,
                    w,
                    path.push(crate::paths::GChunk::Prop(props1[0].0@)),
                    nodes1.len(),
                ),
                None => Seq::empty(),
            },
            _ => Seq::empty(),
        };
        let head2: Seq<crate::errors::GError> = match inst2 {
            JsonValue::Object(f) => match spec_lookup(f@, props2[0].0@) {
                Some(w) => crate::validator::vals_errors(
                    nodes2,
                    props2[0].1@,
                    w,
                    path.push(crate::paths::GChunk::Prop(props2[0].0@)),
                    nodes2.len(),
                ),
                None => Seq::empty(),
            },
            _ => Seq::empty(),
        };
        if let (JsonValue::Object(f1), JsonValue::Object(f2)) = (inst1, inst2) {
            lemma_lookup_congruent(f1@, f2@, props1[0].0@);
            match (spec_lookup(f1@, props1[0].0@), spec_lookup(f2@, props2[0].0@)) {
                (Some(w1), Some(w2)) => {
                    crate::json::lemma_lookup_member(f1@, props1[0].0@);
                    let j = choose|j: int| 0 <= j < f1@.len() && #[trigger] f1@[j].1 == w1;
                    assert(decreases_to!(inst1 => inst1->Object_0));
                    assert(decreases_to!(f1 => f1@));
                    assert(decreases_to!(f1@ => f1@[j]));
                    assert(decreases_to!(f1@[j] => f1@[j].1));
                    lemma_vals_errors_congruent(
                        nodes1,
                        nodes2,
                        props1[0].1@,
                        props2[0].1@,
                        w1,
                        w2,
                        path.push(crate::paths::GChunk::Prop(props1[0].0@)),
                        nodes1.len() as nat,
                    );
                },
                _ => {},
            }
        }
        assert forall|i: int|
            #![trigger props1.drop_first()[i]]
            #![trigger props2.drop_first()[i]]
            0 <= i < props1.drop_first().len() implies (props1.drop_first()[i]).0@
            == props2.drop_first()[i].0@ && similar_validators(
            props1.drop_first()[i].1@,
            props2.drop_first()[i].1@,
        ) by {
            assert(props1.drop_first()[i] == props1[i + 1]);
            assert(props2.drop_first()[i] == props2[i + 1]);
        }
        lemma_props_errors_congruent(
            nodes1,
            nodes2,
            props1.drop_first(),
            props2.drop_first(),
            inst1,
            inst2,
            path,
            fuel,
        );
        lemma_gerrs_similar_app(
            head1,
            crate::validator::props_errors(nodes1, props1.drop_first(), inst1, path, fuel),
            head2,
            crate::validator::props_errors(nodes2, props2.drop_first(), inst2, path, fuel),
        );
    }
}

/// Two structurally identical documents look up each key alike: the found
/// values, where present, are structurally identical too.
proof fn lemma_lookup_congruent(
    f1: Seq<(String, JsonValue)>,
    f2: Seq<(String, JsonValue)>,
    key: Seq<char>,
)
    requires
        f1.len() == f2.len(),
        forall|i: int|
            0 <= i < f1.len() ==> (#[trigger] f1[i]).0@ == f2[i].0@ && same_json(
                f1[i].1,
                f2[i].1,
            ),
    ensures
        match (spec_lookup(f1, key), spec_lookup(f2, key)) {
            (None, None) => true,
            (Some(w1), Some(w2)) => same_json(w1, w2),
            _ => false,
        },
    decreases f1.len(),
{
    if f1.len() > 0 {
        if f1[0].0@ != key {
            assert forall|i: int|
                0 <= i < f1.drop_first().len() implies (#[trigger] f1.drop_first()[i]).0@
                == f2.drop_first()[i].0@ && same_json(
                f1.drop_first()[i].1,
                f2.drop_first()[i].1,
            ) by {
                assert(f1.drop_first()[i] == f1[i + 1]);
                assert(f2.drop_first()[i] == f2[i + 1]);
            }
            lemma_lookup_congruent(f1.drop_first(), f2.drop_first(), key);
        }
    }
}

/// JSON equality respects structural identity on both sides.
proof fn lemma_jeq_congruent(a1: JsonValue, b1: JsonValue, a2: JsonValue, b2: JsonValue)
    requires
        same_json(a1, a2),
        same_json(b1, b2),
    ensures
        jeq(a1, b1) == jeq(a2, b2),
    decreases a1,
{
    match (a1, a2) {
        (JsonValue::Bool(u1), JsonValue::Bool(u2)) => {
            assert(u1 == u2);
        },
        (JsonValue::Number(u1), JsonValue::Number(u2)) => {
            assert(u1 == u2);
        },
        (JsonValue::Str(u1), JsonValue::Str(u2)) => {
            assert(u1@ == u2@);
        },
        _ => {},
    }
    match (b1, b2) {
        (JsonValue::Bool(u1), JsonValue::Bool(u2)) => {
            assert(u1 == u2);
        },
        (JsonValue::Number(u1), JsonValue::Number(u2)) => {
            assert(u1 == u2);
        },
        (JsonValue::Str(u1), JsonValue::Str(u2)) => {
            assert(u1@ == u2@);
        },
        _ => {},
    }
    match (a1, b1) {
        (JsonValue::Array(x1), JsonValue::Array(y1)) => {
            if let (JsonValue::Array(x2), JsonValue::Array(y2)) = (a2, b2) {
                if x1@.len() == y1@.len() {
                assert forall|i: int|
                    #![trigger x1@[i]]
                    #![trigger x2@[i]]
                    0 <= i < x1@.len() implies jeq(x1@[i], y1@[i]) == jeq(x2@[i], y2@[i]) by {
                    lemma_jeq_congruent(x1@[i], y1@[i], x2@[i], y2@[i]);
                }
                }
            }
        },
        (JsonValue::Object(x1), JsonValue::Object(y1)) => {
            if let (JsonValue::Object(x2), JsonValue::Object(y2)) = (a2, b2) {
                if x1@.len() == y1@.len() {
                assert forall|i: int|
                    #![trigger x1@[i]]
                    #![trigger x2@[i]]
                    0 <= i < x1@.len() implies (match spec_lookup(y1@, x1@[i].0@) {
                    Some(w) => jeq(x1@[i].1, w),
                    None => false,
                }) == (match spec_lookup(y2@, x2@[i].0@) {
                    Some(w) => jeq(x2@[i].1, w),
                    None => false,
                }) by {
                    lemma_lookup_congruent(y1@, y2@, x1@[i].0@);
                    assert(x1@[i].0@ == x2@[i].0@);
                    match (spec_lookup(y1@, x1@[i].0@), spec_lookup(y2@, x2@[i].0@)) {
                        (Some(w1), Some(w2)) => {
                            lemma_jeq_congruent(x1@[i].1, w1, x2@[i].1, w2);
                        },
                        _ => {},
                    }
                }
                }
            }
        },
        (JsonValue::Null, JsonValue::Null) => {
            assert(a2 == a1 && b2 == b1);
        },
        (JsonValue::Bool(_), JsonValue::Bool(_)) => {
            assert(a2 == a1 && b2 == b1);
        },
        (JsonValue::Number(_), JsonValue::Number(_)) => {
            assert(a2 == a1 && b2 == b1);
        },
        (JsonValue::Str(x1), JsonValue::Str(y1)) => {
            if let (JsonValue::Str(x2), JsonValue::Str(y2)) = (a2, b2) {
                assert(jeq(a1, b1) == (x1@ == y1@));
                assert(jeq(a2, b2) == (x2@ == y2@));
            }
        },
        _ => {},
    }
}

/// Structurally identical instances are of the same primitive types.
proof fn lemma_type_match_congruent(inst1: JsonValue, inst2: JsonValue)
    requires
        same_json(inst1, inst2),
    ensures
        forall|t: crate::keywords::PrimitiveType|
            crate::validator::type_match(t, inst1) == crate::validator::type_match(t, inst2),
{
}

/// Validation verdicts respect content: validators, node tables and
/// instances that agree in mathematical content are satisfied together.
pub proof fn lemma_val_valid_congruent(
    nodes1: Seq<Vec<Validator>>,
    nodes2: Seq<Vec<Validator>>,
    v1: Validator,
    v2: Validator,
    inst1: JsonValue,
    inst2: JsonValue,
    fuel: nat,
)
    requires
        similar_nodes(nodes1, nodes2),
        similar_validator(v1, v2),
        same_json(inst1, inst2),
    ensures
        crate::validator::val_valid(nodes1, v1, inst1, fuel) == crate::validator::val_valid(
            nodes2,
            v2,
            inst2,
            fuel,
        ),
    decreases inst1, fuel, v1, 1int,
{
    lemma_type_match_congruent(inst1, inst2);
    match (inst1, inst2) {
        (JsonValue::Number(u1), JsonValue::Number(u2)) => {
            assert(u1 == u2);
        },
        (JsonValue::Str(u1), JsonValue::Str(u2)) => {
            assert(u1@ == u2@);
        },
        _ => {},
    }
    match (v1, v2) {
        (Validator::Enum(x), Validator::Enum(y)) => {
            assert forall|i: int|
                #![trigger x.items@[i]]
                #![trigger y.items@[i]]
                0 <= i < x.items@.len() implies jeq(inst1, x.items@[i]) == jeq(
                inst2,
                y.items@[i],
            ) by {
                lemma_jeq_congruent(inst1, x.items@[i], inst2, y.items@[i]);
            }
        },
        (Validator::Required(x), Validator::Required(y)) => {
            if let (JsonValue::Object(f1), JsonValue::Object(f2)) = (inst1, inst2) {
                assert forall|i: int|
                    #![trigger x.required@[i]]
                    #![trigger y.required@[i]]
                    0 <= i < x.required@.len() implies (spec_lookup(
                    f1@,
                    x.required@[i]@,
                ) is Some) == (spec_lookup(f2@, y.required@[i]@) is Some) by {
                    lemma_lookup_congruent(f1@, f2@, x.required@[i]@);
                }
            }
        },
        (Validator::DependentRequired(x), Validator::DependentRequired(y)) => {
            if let (JsonValue::Object(f1), JsonValue::Object(f2)) = (inst1, inst2) {
                assert forall|i: int, j: int|
                    #![trigger x.dependent@[i].1@[j]]
                    #![trigger y.dependent@[i].1@[j]]
                    0 <= i < x.dependent@.len() && 0 <= j
                        < x.dependent@[i].1@.len() implies ((spec_lookup(
                    f1@,
                    x.dependent@[i].0@,
                ) is Some) == (spec_lookup(f2@, y.dependent@[i].0@) is Some) && (spec_lookup(
                    f1@,
                    x.dependent@[i].1@[j]@,
                ) is Some) == (spec_lookup(f2@, y.dependent@[i].1@[j]@) is Some)) by {
                    lemma_lookup_congruent(f1@, f2@, x.dependent@[i].0@);
                    lemma_lookup_congruent(f1@, f2@, x.dependent@[i].1@[j]@);
                }
            }
        },
        (Validator::Properties(x), Validator::Properties(y)) => {
            if let (JsonValue::Object(f1), JsonValue::Object(f2)) = (inst1, inst2) {
                assert forall|i: int|
                    #![trigger x.properties@[i]]
                    #![trigger y.properties@[i]]
                    0 <= i < x.properties@.len() implies (match spec_lookup(
                    f1@,
                    x.properties@[i].0@,
                ) {
                    Some(w) => crate::validator::vals_valid(
                        nodes1,
                        x.properties@[i].1@,
                        w,
                        nodes1.len(),
                    ),
                    None => true,
                }) == (match spec_lookup(f2@, y.properties@[i].0@) {
                    Some(w) => crate::validator::vals_valid(
                        nodes2,
                        y.properties@[i].1@,
                        w,
                        nodes2.len(),
                    ),
                    None => true,
                }) by {
                    lemma_lookup_congruent(f1@, f2@, x.properties@[i].0@);
                    match (spec_lookup(f1@, x.properties@[i].0@), spec_lookup(
                        f2@,
                        y.properties@[i].0@,
                    )) {
                        (Some(w1), Some(w2)) => {
                            crate::json::lemma_lookup_member(f1@, x.properties@[i].0@);
                            let j = choose|j: int|
                                0 <= j < f1@.len() && #[trigger] f1@[j].1 == w1;
                            assert(decreases_to!(inst1 => inst1->Object_0));
                            assert(decreases_to!(f1 => f1@));
                            assert(decreases_to!(f1@ => f1@[j]));
                            assert(decreases_to!(f1@[j] => f1@[j].1));
                            lemma_vals_valid_congruent(
                                nodes1,
                                nodes2,
                                x.properties@[i].1@,
                                y.properties@[i].1@,
                                w1,
                                w2,
                                nodes1.len() as nat,
                            );
                        },
                        _ => {},
                    }
                }
            }
        },
        (Validator::Contains(x), Validator::Contains(y)) => {
            if let (JsonValue::Array(a1), JsonValue::Array(a2)) = (inst1, inst2) {
                assert forall|i: int|
                    #![trigger a1@[i]]
                    #![trigger a2@[i]]
                    0 <= i < a1@.len() implies crate::validator::vals_valid(
                    nodes1,
                    x.validators@,
                    a1@[i],
                    nodes1.len(),
                ) == crate::validator::vals_valid(
                    nodes2,
                    y.validators@,
                    a2@[i],
                    nodes2.len(),
                ) by {
                    assert(decreases_to!(inst1 => inst1->Array_0));
                    assert(decreases_to!(a1 => a1@));
                    assert(decreases_to!(a1@ => a1@[i]));
                    lemma_vals_valid_congruent(
                        nodes1,
                        nodes2,
                        x.validators@,
                        y.validators@,
                        a1@[i],
                        a2@[i],
                        nodes1.len() as nat,
                    );
                }
            }
        },
        (Validator::MinContains(x), Validator::MinContains(y)) => {
            if inst1 is Array {
                lemma_matches_congruent(
                    nodes1,
                    nodes2,
                    x.validators@,
                    y.validators@,
                    inst1,
                    inst2,
                    inst1->Array_0@.len() as int,
                    fuel,
                );
            }
        },
        (Validator::MaxContains(x), Validator::MaxContains(y)) => {
            if inst1 is Array {
                lemma_matches_congruent(
                    nodes1,
                    nodes2,
                    x.validators@,
                    y.validators@,
                    inst1,
                    inst2,
                    inst1->Array_0@.len() as int,
                    fuel,
                );
            }
        },
        (Validator::MinMaxContains(x), Validator::MinMaxContains(y)) => {
            if inst1 is Array {
                lemma_matches_congruent(
                    nodes1,
                    nodes2,
                    x.validators@,
                    y.validators@,
                    inst1,
                    inst2,
                    inst1->Array_0@.len() as int,
                    fuel,
                );
            }
        },
        (Validator::Ref(x), Validator::Ref(y)) => {
            if fuel > 0 && x.target < nodes1.len() {
                lemma_vals_valid_congruent(
                    nodes1,
                    nodes2,
                    nodes1[x.target as int]@,
                    nodes2[y.target as int]@,
                    inst1,
                    inst2,
                    (fuel - 1) as nat,
                );
            }
        },
        _ => {},
    }
}

/// As `lemma_val_valid_congruent`, for validator lists.
pub proof fn lemma_vals_valid_congruent(
    nodes1: Seq<Vec<Validator>>,
    nodes2: Seq<Vec<Validator>>,
    vs1: Seq<Validator>,
    vs2: Seq<Validator>,
    inst1: JsonValue,
    inst2: JsonValue,
    fuel: nat,
)
    requires
        similar_nodes(nodes1, nodes2),
        similar_validators(vs1, vs2),
        same_json(inst1, inst2),
    ensures
        crate::validator::vals_valid(nodes1, vs1, inst1, fuel) == crate::validator::vals_valid(
            nodes2,
            vs2,
            inst2,
            fuel,
        ),
    decreases inst1, fuel, vs1, 0int,
{
    assert forall|i: int|
        #![trigger vs1[i]]
        #![trigger vs2[i]]
        0 <= i < vs1.len() implies crate::validator::val_valid(nodes1, vs1[i], inst1, fuel)
        == crate::validator::val_valid(nodes2, vs2[i], inst2, fuel) by {
        assert(decreases_to!(vs1 => vs1[i]));
        lemma_val_valid_congruent(nodes1, nodes2, vs1[i], vs2[i], inst1, inst2, fuel);
    }
}

/// As `lemma_val_valid_congruent`, for the match count of an array prefix.
proof fn lemma_matches_congruent(
    nodes1: Seq<Vec<Validator>>,
    nodes2: Seq<Vec<Validator>>,
    vs1: Seq<Validator>,
    vs2: Seq<Validator>,
    arr1: JsonValue,
    arr2: JsonValue,
    upto: int,
    fuel: nat,
)
    requires
        similar_nodes(nodes1, nodes2),
        similar_validators(vs1, vs2),
        same_json(arr1, arr2),
    ensures
        crate::validator::matches_upto(nodes1, vs1, arr1, upto, fuel)
            == crate::validator::matches_upto(nodes2, vs2, arr2, upto, fuel),
    decreases arr1, fuel, vs1, upto,
{
    if let (JsonValue::Array(a1), JsonValue::Array(a2)) = (arr1, arr2) {
        if 0 < upto <= a1@.len() {
            lemma_matches_congruent(nodes1, nodes2, vs1, vs2, arr1, arr2, upto - 1, fuel);
            assert(decreases_to!(arr1 => arr1->Array_0));
            assert(decreases_to!(a1 => a1@));
            assert(decreases_to!(a1@ => a1@[upto - 1]));
            lemma_vals_valid_congruent(
                nodes1,
                nodes2,
                vs1,
                vs2,
                a1@[upto - 1],
                a2@[upto - 1],
                nodes1.len() as nat,
            );
        }
    }
}

/// Two error sequences agree in mathematical content: the same kinds at the
/// same paths, over structurally identical offending values.
pub open spec fn gerrs_similar(
    a: Seq<crate::errors::GError>,
    b: Seq<crate::errors::GError>,
) -> bool {
    a.len() == b.len() && (forall|i: int|
        0 <= i < a.len() ==> crate::errors::gerr_match(#[trigger] a[i], b[i]))
}

/// Similar error sequences concatenate.
proof fn lemma_gerrs_similar_app(
    a: Seq<crate::errors::GError>,
    b: Seq<crate::errors::GError>,
    x: Seq<crate::errors::GError>,
    y: Seq<crate::errors::GError>,
)
    requires
        gerrs_similar(a, x),
        gerrs_similar(b, y),
    ensures
        gerrs_similar(a + b, x + y),
{
    assert forall|i: int| 0 <= i < (a + b).len() implies crate::errors::gerr_match(
        #[trigger] (a + b)[i],
        (x + y)[i],
    ) by {
        if i < a.len() {
            assert((a + b)[i] == a[i]);
            assert((x + y)[i] == x[i]);
        } else {
            assert((a + b)[i] == b[i - a.len()]);
            assert((x + y)[i] == y[i - a.len()]);
        }
    }
}

/// The presence check finds the same first missing name over structurally
/// identical objects and content-equal name lists.
proof fn lemma_first_missing_congruent(
    f1: Seq<(String, JsonValue)>,
    f2: Seq<(String, JsonValue)>,
    ns1: Seq<String>,
    ns2: Seq<String>,
)
    requires
        f1.len() == f2.len(),
        forall|i: int|
            0 <= i < f1.len() ==> (#[trigger] f1[i]).0@ == f2[i].0@ && same_json(
                f1[i].1,
                f2[i].1,
            ),
        ns1.len() == ns2.len(),
        forall|i: int| 0 <= i < ns1.len() ==> (#[trigger] ns1[i])@ == ns2[i]@,
    ensures
        crate::validator::first_missing(f1, ns1) == crate::validator::first_missing(f2, ns2),
    decreases ns1.len(),
{
    if ns1.len() > 0 {
        lemma_lookup_congruent(f1, f2, ns1[0]@);
        assert forall|i: int|
            0 <= i < ns1.drop_first().len() implies (#[trigger] ns1.drop_first()[i])@
            == ns2.drop_first()[i]@ by {
            assert(ns1.drop_first()[i] == ns1[i + 1]);
            assert(ns2.drop_first()[i] == ns2[i + 1]);
        }
        lemma_first_missing_congruent(f1, f2, ns1.drop_first(), ns2.drop_first());
    }
}

/// The dependency table finds the same first owed-and-missing name over
/// structurally identical objects and content-equal tables.
proof fn lemma_dep_congruent(
    f1: Seq<(String, JsonValue)>,
    f2: Seq<(String, JsonValue)>,
    d1: Seq<(String, Vec<String>)>,
    d2: Seq<(String, Vec<String>)>,
)
    requires
        f1.len() == f2.len(),
        forall|i: int|
            0 <= i < f1.len() ==> (#[trigger] f1[i]).0@ == f2[i].0@ && same_json(
                f1[i].1,
                f2[i].1,
            ),
        d1.len() == d2.len(),
        forall|i: int|
            0 <= i < d1.len() ==> (#[trigger] d1[i]).0@ == d2[i].0@ && d1[i].1@.len()
                == d2[i].1@.len() && (forall|j: int|
                0 <= j < d1[i].1@.len() ==> (#[trigger] d1[i].1@[j])@ == d2[i].1@[j]@),
    ensures
        crate::validator::dep_first_missing(f1, d1) == crate::validator::dep_first_missing(
            f2,
            d2,
        ),
    decreases d1.len(),
{
    if d1.len() > 0 {
        lemma_lookup_congruent(f1, f2, d1[0].0@);
        lemma_first_missing_congruent(f1, f2, d1[0].1@, d2[0].1@);
        assert forall|i: int|
            0 <= i < d1.drop_first().len() implies (#[trigger] d1.drop_first()[i]).0@
            == d2.drop_first()[i].0@ && d1.drop_first()[i].1@.len()
            == d2.drop_first()[i].1@.len() && (forall|j: int|
            0 <= j < d1.drop_first()[i].1@.len() ==> (#[trigger] d1.drop_first()[i].1@[j])@
                == d2.drop_first()[i].1@[j]@) by {
            assert(d1.drop_first()[i] == d1[i + 1]);
            assert(d2.drop_first()[i] == d2[i + 1]);
        }
        lemma_dep_congruent(f1, f2, d1.drop_first(), d2.drop_first());
    }
}

/// Two structural copies of one document are structural copies of each
/// other.
proof fn lemma_same_json_joins(a: JsonValue, b: JsonValue, c: JsonValue)
    requires
        same_json(a, c),
        same_json(b, c),
    ensures
        same_json(a, b),
    decreases a,
{
    match (a, b) {
        (JsonValue::Array(x), JsonValue::Array(y)) => {
            if let JsonValue::Array(z) = c {
                assert forall|i: int| 0 <= i < x@.len() implies same_json(
                    #[trigger] x@[i],
                    y@[i],
                ) by {
                    lemma_same_json_joins(x@[i], y@[i], z@[i]);
                }
            }
        },
        (JsonValue::Object(x), JsonValue::Object(y)) => {
            if let JsonValue::Object(z) = c {
                assert forall|i: int|
                    0 <= i < x@.len() implies (#[trigger] x@[i]).0@ == y@[i].0@ && same_json(
                    x@[i].1,
                    y@[i].1,
                ) by {
                    lemma_same_json_joins(x@[i].1, y@[i].1, z@[i].1);
                }
            }
        },
        _ => {},
    }
}

/// One keyword's compiler can only produce one validator for a given
/// keyword value, up to content.
#[verifier::rlimit(100)]
proof fn lemma_kw_matches_unique(
    draft: crate::compiler::Draft,
    parent: Seq<(String, JsonValue)>,
    key: Seq<char>,
    value: JsonValue,
    v1: Validator,
    v2: Validator,
)
    requires
        crate::compiler::kw_matches(draft, parent, key, value, v1),
        crate::compiler::kw_matches(draft, parent, key, value, v2),
    ensures
        similar_validator(v1, v2),
    decreases value, 3int, 0int,
{
    reveal_strlit("type");
    reveal_strlit("enum");
    reveal_strlit("minimum");
    reveal_strlit("maximum");
    reveal_strlit("exclusiveMinimum");
    reveal_strlit("exclusiveMaximum");
    reveal_strlit("maxItems");
    reveal_strlit("minItems");
    reveal_strlit("maxLength");
    reveal_strlit("minLength");
    reveal_strlit("maxProperties");
    reveal_strlit("minProperties");
    reveal_strlit("required");
    reveal_strlit("dependentRequired");
    reveal_strlit("properties");
    reveal_strlit("contains");
    reveal_strlit("$ref");
    // Mentioning two lengths lets the revealed keyword literals be told
    // apart wherever this proof splits on the key.
    assert("type"@.len() == 4);
    assert("properties"@.len() == 10);
    if key == "enum"@ {
        if let JsonValue::Array(items) = value {
            if let (Validator::Enum(x), Validator::Enum(y)) = (v1, v2) {
                assert forall|i: int|
                    0 <= i < x.items@.len() implies same_json(
                    #[trigger] x.items@[i],
                    y.items@[i],
                ) by {
                    lemma_same_json_joins(x.items@[i], y.items@[i], items@[i]);
                }
            }
        }
        assert(similar_validator(v1, v2));
    } else if key == "properties"@ {
        match value {
            JsonValue::Object(pf) => {
                match (v1, v2) {
                    (Validator::Properties(x), Validator::Properties(y)) => {
                        assert forall|i: int|
                            #![trigger x.properties@[i]]
                            #![trigger y.properties@[i]]
                            0 <= i < x.properties@.len() implies (x.properties@[i]).0@
                            == y.properties@[i].0@ && similar_validators(
                            x.properties@[i].1@,
                            y.properties@[i].1@,
                        ) by {
                            assert(decreases_to!(value => value->Object_0));
                            assert(decreases_to!(pf => pf@));
                            assert(decreases_to!(pf@ => pf@[i]));
                            assert(decreases_to!(pf@[i] => pf@[i].1));
                            lemma_node_matches_unique(
                                draft,
                                pf@[i].1,
                                x.properties@[i].1@,
                                y.properties@[i].1@,
                            );
                        }
                        assert(x.properties@.len() == y.properties@.len());
                        assert(similar_validator(v1, v2));
                    },
                    _ => {
                        assert(false);
                    },
                }
            },
            _ => {
                assert(false);
            },
        }
    } else if key == "required"@ {
        if let JsonValue::Array(items) = value {
            if let (Validator::Required(x), Validator::Required(y)) = (v1, v2) {
                assert forall|i: int|
                    #![trigger x.required@[i]]
                    #![trigger y.required@[i]]
                    0 <= i < x.required@.len() implies x.required@[i]@ == y.required@[i]@ by {
                    assert(items@[i] is Str);
                }
            }
        }
        assert(similar_validator(v1, v2));
    } else if key == "dependentRequired"@ {
        if let JsonValue::Object(rows) = value {
            if let (Validator::DependentRequired(x), Validator::DependentRequired(y)) = (
                v1,
                v2,
            ) {
                assert forall|i: int|
                    #![trigger x.dependent@[i]]
                    #![trigger y.dependent@[i]]
                    0 <= i < x.dependent@.len() implies (x.dependent@[i].0@ == y.dependent@[i].0@
                    && x.dependent@[i].1@.len() == y.dependent@[i].1@.len() && (forall|j: int|
                    #![trigger x.dependent@[i].1@[j]]
                    #![trigger y.dependent@[i].1@[j]]
                    0 <= j < x.dependent@[i].1@.len() ==> x.dependent@[i].1@[j]@
                        == y.dependent@[i].1@[j]@)) by {
                    assert(crate::compiler::names_match(x.dependent@[i].1@, rows@[i].1));
                    assert(crate::compiler::names_match(y.dependent@[i].1@, rows@[i].1));
                    if let JsonValue::Array(nm) = rows@[i].1 {
                        assert forall|j: int|
                            #![trigger x.dependent@[i].1@[j]]
                            #![trigger y.dependent@[i].1@[j]]
                            0 <= j < x.dependent@[i].1@.len() implies x.dependent@[i].1@[j]@
                            == y.dependent@[i].1@[j]@ by {
                            assert(nm@[j] is Str);
                        }
                    }
                }
            }
        }
        assert(similar_validator(v1, v2));
    } else if key == "contains"@ {
        if draft == crate::compiler::Draft::Draft201909 {
            match spec_lookup(parent, "minContains"@) {
                Some(mn) => match spec_lookup(parent, "maxContains"@) {
                    Some(mx) => {
                        if let (Validator::MinMaxContains(c1), Validator::MinMaxContains(c2)) = (
                            v1,
                            v2,
                        ) {
                            lemma_node_matches_unique(
                                draft,
                                value,
                                c1.validators@,
                                c2.validators@,
                            );
                            assert(similar_validator(v1, v2));
                        }
                    },
                    None => {
                        if let (Validator::MinContains(c1), Validator::MinContains(c2)) = (
                            v1,
                            v2,
                        ) {
                            lemma_node_matches_unique(
                                draft,
                                value,
                                c1.validators@,
                                c2.validators@,
                            );
                            assert(similar_validator(v1, v2));
                        }
                    },
                },
                None => match spec_lookup(parent, "maxContains"@) {
                    Some(mx) => {
                        if let (Validator::MaxContains(c1), Validator::MaxContains(c2)) = (
                            v1,
                            v2,
                        ) {
                            lemma_node_matches_unique(
                                draft,
                                value,
                                c1.validators@,
                                c2.validators@,
                            );
                            assert(similar_validator(v1, v2));
                        }
                    },
                    None => {
                        if let (Validator::Contains(c1), Validator::Contains(c2)) = (v1, v2) {
                            lemma_node_matches_unique(
                                draft,
                                value,
                                c1.validators@,
                                c2.validators@,
                            );
                            assert(similar_validator(v1, v2));
                        }
                    },
                },
            }
        } else {
            if let (Validator::Contains(c1), Validator::Contains(c2)) = (v1, v2) {
                lemma_node_matches_unique(draft, value, c1.validators@, c2.validators@);
            }
        }
        assert(similar_validator(v1, v2));
    } else if key == "type"@ {
        assert(similar_validator(v1, v2));
    } else if key == "minimum"@ || key == "maximum"@ || key == "exclusiveMinimum"@ || key
        == "exclusiveMaximum"@ {
        assert(similar_validator(v1, v2));
    } else if key == "maxItems"@ || key == "minItems"@ || key == "maxLength"@ || key
        == "minLength"@ || key == "maxProperties"@ || key == "minProperties"@ {
        assert(similar_validator(v1, v2));
    } else if key == "$ref"@ {
        assert(similar_validator(v1, v2));
    } else {
        assert(similar_validator(v1, v2));
    }
    assert(similar_validator(v1, v2));
}

/// Compiling one schema node can only produce one validator list, up to
/// content.
pub proof fn lemma_node_matches_unique(
    draft: crate::compiler::Draft,
    schema: JsonValue,
    vs1: Seq<Validator>,
    vs2: Seq<Validator>,
)
    requires
        crate::compiler::node_matches(draft, schema, vs1),
        crate::compiler::node_matches(draft, schema, vs2),
    ensures
        similar_validators(vs1, vs2),
    decreases schema, 2int, 0int,
{
    match schema {
        JsonValue::Bool(b) => {
            assert(vs1 == vs2);
            assert forall|i: int| 0 <= i < vs1.len() implies similar_validator(
                #[trigger] vs1[i],
                vs2[i],
            ) by {
                assert(vs1[0] == if b {
                    Validator::AlwaysValid
                } else {
                    Validator::AlwaysInvalid
                });
            }
        },
        JsonValue::Object(fields) => {
            lemma_prefix_matches_unique(draft, fields@, fields@.len() as int, vs1, vs2);
        },
        _ => {},
    }
}

/// Compiling a prefix of a schema object's keywords can only produce one
/// validator list, up to content.
proof fn lemma_prefix_matches_unique(
    draft: crate::compiler::Draft,
    fields: Seq<(String, JsonValue)>,
    upto: int,
    vs1: Seq<Validator>,
    vs2: Seq<Validator>,
)
    requires
        crate::compiler::prefix_matches(draft, fields, upto, vs1),
        crate::compiler::prefix_matches(draft, fields, upto, vs2),
    ensures
        similar_validators(vs1, vs2),
    decreases fields, 1int, upto,
{
    if upto <= 0 {
    } else if upto > fields.len() {
    } else {
        match crate::compiler::kw_outcome(
            draft,
            fields,
            fields[upto - 1].0@,
            fields[upto - 1].1,
        ) {
            crate::compiler::GDisp::Skip => {
                lemma_prefix_matches_unique(draft, fields, upto - 1, vs1, vs2);
            },
            crate::compiler::GDisp::Fail => {},
            crate::compiler::GDisp::Emit => {
                lemma_prefix_matches_unique(
                    draft,
                    fields,
                    upto - 1,
                    vs1.drop_last(),
                    vs2.drop_last(),
                );
                assert(decreases_to!(fields => fields[upto - 1]));
                assert(decreases_to!(fields[upto - 1] => fields[upto - 1].1));
                lemma_kw_matches_unique(
                    draft,
                    fields,
                    fields[upto - 1].0@,
                    fields[upto - 1].1,
                    vs1.last(),
                    vs2.last(),
                );
                assert forall|i: int| 0 <= i < vs1.len() implies similar_validator(
                    #[trigger] vs1[i],
                    vs2[i],
                ) by {
                    if i < vs1.len() - 1 {
                        assert(vs1.drop_last()[i] == vs1[i]);
                        assert(vs2.drop_last()[i] == vs2[i]);
                        assert(similar_validator(vs1.drop_last()[i], vs2.drop_last()[i]));
                    } else {
                        assert(vs1[i] == vs1.last());
                        assert(vs2[i] == vs2.last());
                    }
                }
            },
        }
    }
}

} // verus!
