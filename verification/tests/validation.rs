use jsonschema::CompilationError;
use jsonschema::Draft;
use jsonschema::ErrorKind;
use jsonschema::JsonNumber;
use jsonschema::JsonValue;
use jsonschema::JSONSchema;

fn whole(i: i64) -> JsonValue {
    JsonValue::Number(JsonNumber { units: i as i128, nanos: 0 })
}

fn dec(units: i128, nanos: u32) -> JsonValue {
    JsonValue::Number(JsonNumber { units, nanos })
}

fn text(t: &str) -> JsonValue {
    JsonValue::Str(t.to_string())
}

fn arr(v: Vec<JsonValue>) -> JsonValue {
    JsonValue::Array(v)
}

fn obj(v: Vec<(&str, JsonValue)>) -> JsonValue {
    JsonValue::Object(v.into_iter().map(|(k, x)| (k.to_string(), x)).collect())
}

fn compiled(draft: Draft, schema: &JsonValue) -> JSONSchema {
    JSONSchema::options().with_draft(draft).compile(schema).unwrap()
}

/// The verdict and the error stream must always agree.
fn check_both(c: &JSONSchema, instance: &JsonValue, expect_valid: bool) {
    assert!(instance.check_wf());
    assert_eq!(c.is_valid(instance), expect_valid);
    match c.validate(instance) {
        Ok(()) => assert!(expect_valid),
        Err(mut it) => {
            assert!(!expect_valid);
            assert!(it.remaining_len() > 0);
            assert!(it.next().is_some());
        }
    }
}

#[test]
fn integer_accepts_integer() {
    let schema = obj(vec![("type", text("integer"))]);
    let c = compiled(Draft::Draft7, &schema);
    check_both(&c, &whole(42), true);
}

#[test]
fn integer_rejects_fractional() {
    let schema = obj(vec![("type", text("integer"))]);
    let c = compiled(Draft::Draft7, &schema);
    let inst = dec(42, 500_000_000);
    check_both(&c, &inst, false);
    let mut it = c.validate(&inst).unwrap_err();
    let e = it.next().unwrap();
    assert_eq!(e.kind, ErrorKind::Type);
    assert_eq!(e.instance_path.to_pointer(), "");
    assert_eq!(e.instance, dec(42, 500_000_000));
    assert!(it.next().is_none());
}

#[test]
fn integer_accepts_integral_float_form() {
    // 1.0 holds the same mathematical value as 1.
    let schema = obj(vec![("type", text("integer"))]);
    let c = compiled(Draft::Draft7, &schema);
    check_both(&c, &dec(1, 0), true);
}

#[test]
fn enum_numeric_equality_across_forms() {
    // enum: [1] accepts the number written as 1.0.
    let schema = obj(vec![("enum", arr(vec![whole(1)]))]);
    let c = compiled(Draft::Draft7, &schema);
    check_both(&c, &dec(1, 0), true);
    check_both(&c, &dec(1, 1), false);
}

#[test]
fn required_reports_first_missing() {
    let schema = obj(vec![("required", arr(vec![text("a"), text("b")]))]);
    let c = compiled(Draft::Draft7, &schema);
    let inst = obj(vec![("a", whole(1))]);
    check_both(&c, &inst, false);
    let mut it = c.validate(&inst).unwrap_err();
    let e = it.next().unwrap();
    assert_eq!(e.kind, ErrorKind::Required("b".to_string()));
    assert_eq!(e.instance_path.to_pointer(), "");
    assert!(it.next().is_none());
}

#[test]
fn properties_descend_with_path() {
    let schema = obj(vec![("properties", obj(vec![("n", obj(vec![("minimum", whole(0))]))]))]);
    let c = compiled(Draft::Draft7, &schema);
    let inst = obj(vec![("n", whole(-1))]);
    check_both(&c, &inst, false);
    let mut it = c.validate(&inst).unwrap_err();
    let e = it.next().unwrap();
    assert_eq!(e.kind, ErrorKind::Minimum);
    assert_eq!(e.instance_path.to_pointer(), "/n");
    // The error's value is exactly the sub-document its path addresses.
    assert_eq!(e.instance, whole(-1));
    assert!(it.next().is_none());
}

#[test]
fn properties_ignore_absent_names() {
    let schema = obj(vec![("properties", obj(vec![("n", obj(vec![("minimum", whole(0))]))]))]);
    let c = compiled(Draft::Draft7, &schema);
    check_both(&c, &obj(vec![("m", whole(-5))]), true);
    check_both(&c, &text("not an object"), true);
}

#[test]
fn min_contains_satisfied() {
    let schema = obj(vec![
        ("contains", obj(vec![("type", text("string"))])),
        ("minContains", whole(2)),
    ]);
    let c = compiled(Draft::Draft201909, &schema);
    check_both(&c, &arr(vec![text("a"), whole(1), text("b")]), true);
}

#[test]
fn min_contains_unsatisfied() {
    let schema = obj(vec![
        ("contains", obj(vec![("type", text("string"))])),
        ("minContains", whole(2)),
    ]);
    let c = compiled(Draft::Draft201909, &schema);
    let inst = arr(vec![text("a"), whole(1), whole(2)]);
    check_both(&c, &inst, false);
    let mut it = c.validate(&inst).unwrap_err();
    let e = it.next().unwrap();
    assert_eq!(e.kind, ErrorKind::Contains);
    assert_eq!(e.instance_path.to_pointer(), "");
}

#[test]
fn min_contains_zero_accepts_empty_array() {
    let schema = obj(vec![
        ("contains", obj(vec![("type", text("string"))])),
        ("minContains", whole(0)),
    ]);
    let c = compiled(Draft::Draft201909, &schema);
    check_both(&c, &arr(vec![]), true);
    check_both(&c, &arr(vec![whole(1)]), true);
}

#[test]
fn max_contains_rejects_zero_matches() {
    // With no qualifying element the match count is zero, which maxContains
    // alone already rejects.
    let schema = obj(vec![
        ("contains", obj(vec![("type", text("string"))])),
        ("maxContains", whole(3)),
    ]);
    let c = compiled(Draft::Draft201909, &schema);
    check_both(&c, &arr(vec![]), false);
    check_both(&c, &arr(vec![whole(1)]), false);
    check_both(&c, &arr(vec![text("a")]), true);
}

#[test]
fn min_max_contains_window() {
    let schema = obj(vec![
        ("contains", obj(vec![("type", text("string"))])),
        ("minContains", whole(1)),
        ("maxContains", whole(2)),
    ]);
    let c = compiled(Draft::Draft201909, &schema);
    check_both(&c, &arr(vec![text("a")]), true);
    check_both(&c, &arr(vec![text("a"), text("b")]), true);
    check_both(&c, &arr(vec![text("a"), text("b"), text("c")]), false);
    check_both(&c, &arr(vec![]), false);
}

#[test]
fn plain_contains_needs_one_match() {
    let schema = obj(vec![("contains", obj(vec![("type", text("string"))]))]);
    let c = compiled(Draft::Draft7, &schema);
    check_both(&c, &arr(vec![whole(1), text("x")]), true);
    check_both(&c, &arr(vec![whole(1)]), false);
    check_both(&c, &whole(3), true);
}

#[test]
fn dependent_required_both_ways() {
    let schema = obj(vec![("dependentRequired", obj(vec![("a", arr(vec![text("b")]))]))]);
    let c = compiled(Draft::Draft201909, &schema);
    check_both(&c, &obj(vec![("a", whole(1)), ("b", whole(2))]), true);
    let inst = obj(vec![("a", whole(1))]);
    check_both(&c, &inst, false);
    let mut it = c.validate(&inst).unwrap_err();
    let e = it.next().unwrap();
    assert_eq!(e.kind, ErrorKind::Required("b".to_string()));
}

#[test]
fn dependent_required_ignored_before_its_draft() {
    let schema = obj(vec![("dependentRequired", obj(vec![("a", arr(vec![text("b")]))]))]);
    let c = compiled(Draft::Draft7, &schema);
    check_both(&c, &obj(vec![("a", whole(1))]), true);
}

#[test]
fn min_length_counts_code_points() {
    let schema = obj(vec![("minLength", whole(3))]);
    let c = compiled(Draft::Draft7, &schema);
    // Three code points though seven UTF-8 bytes.
    check_both(&c, &text("a\u{e9}\u{1f600}"), true);
    check_both(&c, &text("ab"), false);
    check_both(&c, &whole(1), true);
}

#[test]
fn length_and_size_bounds() {
    let c = compiled(Draft::Draft7, &obj(vec![("maxLength", whole(2))]));
    check_both(&c, &text("ab"), true);
    check_both(&c, &text("abc"), false);
    let c = compiled(Draft::Draft7, &obj(vec![("maxItems", whole(1))]));
    check_both(&c, &arr(vec![whole(1)]), true);
    check_both(&c, &arr(vec![whole(1), whole(2)]), false);
    let c = compiled(Draft::Draft7, &obj(vec![("minItems", whole(2))]));
    check_both(&c, &arr(vec![whole(1)]), false);
    let c = compiled(Draft::Draft7, &obj(vec![("maxProperties", whole(1))]));
    check_both(&c, &obj(vec![("a", whole(1)), ("b", whole(2))]), false);
    let c = compiled(Draft::Draft7, &obj(vec![("minProperties", whole(1))]));
    check_both(&c, &obj(vec![]), false);
    check_both(&c, &obj(vec![("a", whole(1))]), true);
}

#[test]
fn numeric_bounds() {
    let c = compiled(Draft::Draft7, &obj(vec![("minimum", dec(2, 500_000_000))]));
    check_both(&c, &dec(2, 500_000_000), true);
    check_both(&c, &dec(2, 499_999_999), false);
    let c = compiled(Draft::Draft7, &obj(vec![("maximum", whole(3))]));
    check_both(&c, &whole(3), true);
    check_both(&c, &dec(3, 1), false);
    let c = compiled(Draft::Draft7, &obj(vec![("exclusiveMinimum", whole(3))]));
    check_both(&c, &whole(3), false);
    check_both(&c, &dec(3, 1), true);
    let c = compiled(Draft::Draft7, &obj(vec![("exclusiveMaximum", whole(3))]));
    check_both(&c, &whole(3), false);
    check_both(&c, &dec(2, 999_999_999), true);
}

#[test]
fn exclusive_bounds_skipped_in_oldest_draft() {
    let schema = obj(vec![("exclusiveMinimum", whole(3))]);
    let c = compiled(Draft::Draft4, &schema);
    check_both(&c, &whole(0), true);
}

#[test]
fn type_union() {
    let schema = obj(vec![("type", arr(vec![text("string"), text("null")]))]);
    let c = compiled(Draft::Draft7, &schema);
    check_both(&c, &text("x"), true);
    check_both(&c, &JsonValue::Null, true);
    check_both(&c, &whole(1), false);
}

#[test]
fn boolean_schemas() {
    let c = compiled(Draft::Draft7, &JsonValue::Bool(true));
    check_both(&c, &whole(1), true);
    let c = compiled(Draft::Draft7, &JsonValue::Bool(false));
    let inst = whole(1);
    check_both(&c, &inst, false);
    let mut it = c.validate(&inst).unwrap_err();
    assert_eq!(it.next().unwrap().kind, ErrorKind::FalseSchema);
}

#[test]
fn unknown_keywords_are_ignored() {
    let schema = obj(vec![("format", text("email")), ("title", text("x"))]);
    let c = compiled(Draft::Draft7, &schema);
    check_both(&c, &text("not an email"), true);
}

#[test]
fn errors_come_in_keyword_order() {
    let schema = obj(vec![
        ("type", text("string")),
        ("enum", arr(vec![text("a")])),
    ]);
    let c = compiled(Draft::Draft7, &schema);
    let inst = whole(5);
    let mut it = c.validate(&inst).unwrap_err();
    assert_eq!(it.remaining_len(), 2);
    assert_eq!(it.next().unwrap().kind, ErrorKind::Type);
    assert_eq!(it.next().unwrap().kind, ErrorKind::Enum);
    assert!(it.next().is_none());
}

#[test]
fn self_reference_descends_the_instance() {
    let schema = obj(vec![
        ("type", text("object")),
        ("properties", obj(vec![("next", obj(vec![("$ref", text("#"))]))])),
    ]);
    let c = compiled(Draft::Draft7, &schema);
    check_both(&c, &obj(vec![("next", obj(vec![]))]), true);
    check_both(&c, &obj(vec![("next", obj(vec![("next", obj(vec![]))]))]), true);
    check_both(&c, &obj(vec![("next", whole(1))]), false);
}

#[test]
fn pure_reference_cycle_is_reported() {
    let schema = obj(vec![("$ref", text("#"))]);
    let c = compiled(Draft::Draft7, &schema);
    let inst = whole(1);
    assert!(!c.is_valid(&inst));
    let mut it = c.validate(&inst).unwrap_err();
    assert_eq!(it.next().unwrap().kind, ErrorKind::Reference);
}

#[test]
fn compile_errors() {
    let bad = |schema: JsonValue| {
        match JSONSchema::options().with_draft(Draft::Draft201909).compile(&schema) {
            Err(e) => e,
            Ok(_) => panic!("expected a compilation error"),
        }
    };
    assert!(matches!(bad(obj(vec![("required", arr(vec![whole(1)]))])), CompilationError::SchemaError(_)));
    assert!(matches!(bad(obj(vec![("enum", whole(1))])), CompilationError::SchemaError(_)));
    assert!(matches!(bad(obj(vec![("minLength", text("x"))])), CompilationError::SchemaError(_)));
    assert!(matches!(bad(obj(vec![("minLength", dec(1, 5))])), CompilationError::SchemaError(_)));
    assert!(matches!(bad(obj(vec![("type", text("float"))])), CompilationError::SchemaError(_)));
    assert!(matches!(bad(whole(1)), CompilationError::SchemaError(_)));
    assert!(matches!(
        bad(obj(vec![(
            "dependentRequired",
            obj(vec![("a", arr(vec![text("b"), text("b")]))])
        )])),
        CompilationError::SchemaError(_)
    ));
    assert!(matches!(
        bad(obj(vec![("$ref", text("http://example.com/schema"))])),
        CompilationError::ResolutionError(_)
    ));
}

#[test]
fn number_model() {
    assert!(JsonNumber::from_parts(1, 1_000_000_000).is_none());
    let n = JsonNumber::from_parts(-2, 500_000_000).unwrap();
    // -1.5 is held as floor and fraction.
    assert_eq!(n.units, -2);
    assert_eq!(n.nanos, 500_000_000);
    assert!(JsonNumber::from_i64(7).integral());
    assert!(!n.integral());
    assert!(JsonNumber::from_u64(1).num_eq(&JsonNumber { units: 1, nanos: 0 }));
    assert!(n.num_lt(&JsonNumber::from_i64(-1)));
}

#[test]
fn wf_checker_spots_flaws() {
    assert!(obj(vec![("a", whole(1))]).check_wf());
    assert!(!obj(vec![("a", whole(1)), ("a", whole(2))]).check_wf());
    assert!(!arr(vec![JsonValue::Number(JsonNumber { units: 0, nanos: 2_000_000_000 })]).check_wf());
}

#[test]
fn recompiling_gives_the_same_verdicts() {
    let schema = obj(vec![
        ("type", arr(vec![text("object"), text("integer")])),
        ("properties", obj(vec![("n", obj(vec![("minimum", whole(0))]))])),
        ("required", arr(vec![text("n")])),
    ]);
    let c1 = compiled(Draft::Draft7, &schema);
    let c2 = compiled(Draft::Draft7, &schema);
    let instances = vec![
        whole(3),
        dec(3, 7),
        obj(vec![("n", whole(5))]),
        obj(vec![("n", whole(-5))]),
        obj(vec![("m", whole(5))]),
        text("x"),
    ];
    for inst in &instances {
        assert_eq!(c1.is_valid(inst), c2.is_valid(inst));
        match (c1.validate(inst), c2.validate(inst)) {
            (Ok(()), Ok(())) => {}
            (Err(mut e1), Err(mut e2)) => {
                // The error streams agree too: same kinds at the same paths.
                assert_eq!(e1.remaining_len(), e2.remaining_len());
                loop {
                    match (e1.next(), e2.next()) {
                        (Some(a), Some(b)) => {
                            assert_eq!(a.kind, b.kind);
                            assert_eq!(
                                a.instance_path.to_pointer(),
                                b.instance_path.to_pointer()
                            );
                            assert_eq!(a.instance, b.instance);
                        }
                        (None, None) => break,
                        _ => panic!("streams of different lengths"),
                    }
                }
            }
            _ => panic!("verdicts disagree"),
        }
    }
}

#[test]
fn error_stream_is_single_pass() {
    let schema = obj(vec![("type", text("string"))]);
    let c = compiled(Draft::Draft7, &schema);
    let mut it = c.validate(&whole(1)).unwrap_err();
    assert_eq!(it.remaining_len(), 1);
    assert!(it.next().is_some());
    assert_eq!(it.remaining_len(), 0);
    assert!(it.next().is_none());
    assert!(it.next().is_none());
}

#[test]
fn each_keyword_reports_its_own_kind() {
    let cases = vec![
        (obj(vec![("maximum", whole(1))]), whole(2), ErrorKind::Maximum),
        (obj(vec![("exclusiveMinimum", whole(1))]), whole(1), ErrorKind::ExclusiveMinimum),
        (obj(vec![("exclusiveMaximum", whole(1))]), whole(1), ErrorKind::ExclusiveMaximum),
        (obj(vec![("maxItems", whole(0))]), arr(vec![whole(1)]), ErrorKind::MaxItems),
        (obj(vec![("minItems", whole(2))]), arr(vec![whole(1)]), ErrorKind::MinItems),
        (obj(vec![("maxLength", whole(1))]), text("ab"), ErrorKind::MaxLength),
        (obj(vec![("minLength", whole(3))]), text("ab"), ErrorKind::MinLength),
        (
            obj(vec![("maxProperties", whole(0))]),
            obj(vec![("a", whole(1))]),
            ErrorKind::MaxProperties,
        ),
        (obj(vec![("minProperties", whole(1))]), obj(vec![]), ErrorKind::MinProperties),
        (obj(vec![("enum", arr(vec![whole(1)]))]), whole(2), ErrorKind::Enum),
    ];
    for (schema, inst, kind) in cases {
        let c = compiled(Draft::Draft7, &schema);
        let mut it = c.validate(&inst).unwrap_err();
        assert_eq!(it.next().unwrap().kind, kind);
    }
}

#[test]
fn failure_variant_follows_the_first_failure() {
    let bad = |schema: JsonValue| {
        match JSONSchema::options().with_draft(Draft::Draft201909).compile(&schema) {
            Err(e) => e,
            Ok(_) => panic!("expected a compilation error"),
        }
    };
    // A bad reference nested in a subschema propagates as a resolution error.
    assert!(matches!(
        bad(obj(vec![(
            "properties",
            obj(vec![("a", obj(vec![("$ref", text("http://example.com/s"))]))])
        )])),
        CompilationError::ResolutionError(_)
    ));
    assert!(matches!(
        bad(obj(vec![(
            "contains",
            obj(vec![("$ref", text("http://example.com/s"))])
        )])),
        CompilationError::ResolutionError(_)
    ));
    // The first rejected keyword, in key order, decides the variant.
    assert!(matches!(
        bad(obj(vec![
            ("enum", whole(1)),
            ("$ref", text("http://example.com/s")),
        ])),
        CompilationError::SchemaError(_)
    ));
    assert!(matches!(
        bad(obj(vec![
            ("$ref", text("http://example.com/s")),
            ("enum", whole(1)),
        ])),
        CompilationError::ResolutionError(_)
    ));
}
