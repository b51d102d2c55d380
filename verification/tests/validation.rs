use simdjson_schema::error::{ErrorKind, GetTypeId, SimdjsonSchemaError, ValidationError};
use simdjson_schema::json::{Json, Member, Number};
use simdjson_schema::schema::{SchemaError, ScopedSchema};
use simdjson_schema::scope::Scope;
use simdjson_schema::uri::Uri;
use simdjson_schema::validators::ValidationState;

fn num(x: f64) -> Json {
    let bits = x.to_bits() as i64;
    let order = bits ^ ((((bits >> 63) as u64) >> 1) as i64);
    let integer = if x.fract() == 0.0 && x.abs() < 1.0e30 {
        Some(x as i128)
    } else {
        None
    };
    Json::Number(Number { order, integer })
}

fn text(s: &str) -> Json {
    Json::String(s.to_string())
}

fn arr(items: Vec<Json>) -> Json {
    Json::Array(items)
}

fn obj(members: Vec<(&str, Json)>) -> Json {
    Json::Object(
        members.into_iter().map(|(k, v)| Member { key: k.to_string(), value: v }).collect(),
    )
}

fn compiled<'a>(scope: &'a mut Scope, schema: Json) -> ScopedSchema<'a, 'a> {
    match scope.compile_and_return(schema, false) {
        Ok(s) => s,
        Err(e) => panic!("the schema did not compile: {:?}", e),
    }
}

fn check(schema: Json, value: Json) -> ValidationState {
    let mut scope = Scope::new();
    let schema = compiled(&mut scope, schema);
    schema.validate(&value)
}

fn codes(state: &ValidationState) -> Vec<String> {
    state.errors.iter().map(|e| e.get_code().to_string()).collect()
}

fn paths(state: &ValidationState) -> Vec<String> {
    state.errors.iter().map(|e| e.get_path().to_string()).collect()
}

#[test]
fn true_and_empty_object_accept_everything() {
    for value in vec![Json::Null, num(1.0), text("x"), arr(vec![]), obj(vec![])] {
        let a = check(Json::Bool(true), value.clone());
        let b = check(obj(vec![]), value);
        assert!(a.is_valid());
        assert!(b.is_valid());
        assert_eq!(a.missing.len(), 0);
        assert_eq!(b.missing.len(), 0);
    }
}

#[test]
fn false_and_not_empty_reject_everything() {
    for value in vec![Json::Null, num(1.0), text("x"), arr(vec![]), obj(vec![])] {
        let a = check(Json::Bool(false), value.clone());
        let b = check(obj(vec![("not", obj(vec![]))]), value);
        assert_eq!(codes(&a), vec!["not".to_string()]);
        assert_eq!(codes(&b), vec!["not".to_string()]);
        assert_eq!(paths(&a), paths(&b));
    }
}

#[test]
fn required_reports_the_absent_member() {
    let schema = obj(vec![("required", arr(vec![text("a"), text("b")]))]);
    let state = check(schema, obj(vec![("a", num(1.0))]));
    assert_eq!(codes(&state), vec!["required".to_string()]);
    assert_eq!(paths(&state), vec!["/b".to_string()]);
    assert_eq!(state.errors[0].get_title(), "This property is required");
    assert_eq!(state.errors[0].get_detail(), None);
    assert!(state.errors[0].is(ErrorKind::Required));
    assert!(!state.errors[0].is(ErrorKind::Enum));
    assert_eq!(state.errors[0].typeid(), ErrorKind::Required);
    let any: &dyn SimdjsonSchemaError = &state.errors[0];
    assert!(any.is(ErrorKind::Required));
    assert!(!any.is(ErrorKind::Not));
}

#[test]
fn required_reports_every_absent_member_in_order() {
    let schema = obj(vec![("required", arr(vec![text("a"), text("b"), text("c")]))]);
    let state = check(schema, obj(vec![("b", Json::Null)]));
    assert_eq!(paths(&state), vec!["/a".to_string(), "/c".to_string()]);
}

#[test]
fn required_passes_over_what_is_no_object() {
    let schema = obj(vec![("required", arr(vec![text("a")]))]);
    assert!(check(schema, text("a")).is_valid());
}

#[test]
fn unique_items_finds_a_duplicate() {
    let schema = obj(vec![("uniqueItems", Json::Bool(true))]);
    let state = check(schema, arr(vec![num(1.0), text("a"), num(2.0), text("a")]));
    assert_eq!(codes(&state), vec!["unique_items".to_string()]);
    assert_eq!(paths(&state), vec!["".to_string()]);
}

#[test]
fn unique_items_accepts_distinct_elements() {
    let schema = obj(vec![("uniqueItems", Json::Bool(true))]);
    let state = check(schema, arr(vec![num(1.0), num(2.0), text("1"), Json::Null, Json::Bool(true)]));
    assert!(state.is_valid());
}

#[test]
fn unique_items_compares_numbers_by_value() {
    let schema = obj(vec![("uniqueItems", Json::Bool(true))]);
    let state = check(schema, arr(vec![num(1.5), num(2.5), num(1.5)]));
    assert_eq!(codes(&state), vec!["unique_items".to_string()]);
}

#[test]
fn unique_items_false_checks_nothing() {
    let schema = obj(vec![("uniqueItems", Json::Bool(false))]);
    assert!(check(schema, arr(vec![num(1.0), num(1.0)])).is_valid());
}

#[test]
fn any_of_passes_when_one_alternative_passes() {
    let schema = obj(vec![(
        "anyOf",
        arr(vec![
            obj(vec![("minimum", num(10.0))]),
            obj(vec![("maximum", num(3.0))]),
            obj(vec![("const", num(5.0))]),
        ]),
    )]);
    assert!(check(schema, num(2.0)).is_valid());
}

#[test]
fn any_of_reports_one_error_with_every_branch() {
    let schema = obj(vec![(
        "anyOf",
        arr(vec![
            obj(vec![("minimum", num(10.0))]),
            obj(vec![("maximum", num(3.0))]),
            obj(vec![("const", num(5.0))]),
        ]),
    )]);
    let state = check(schema, num(7.0));
    assert_eq!(codes(&state), vec!["any_of".to_string()]);
    match &state.errors[0] {
        ValidationError::AnyOf(e) => {
            assert_eq!(e.states.len(), 3);
            assert_eq!(codes(&e.states[0]), vec!["minimum".to_string()]);
            assert_eq!(codes(&e.states[1]), vec!["maximum".to_string()]);
            assert_eq!(codes(&e.states[2]), vec!["const".to_string()]);
        },
        other => panic!("another error: {:?}", other),
    }
    assert_eq!(state.errors[0].states().map(|s| s.len()), Some(3));
}

#[test]
fn one_of_passes_when_exactly_one_alternative_passes() {
    let schema = obj(vec![(
        "oneOf",
        arr(vec![obj(vec![("minimum", num(10.0))]), obj(vec![("maximum", num(3.0))])]),
    )]);
    assert!(check(schema, num(2.0)).is_valid());
}

#[test]
fn one_of_fails_when_no_alternative_passes() {
    let schema = obj(vec![(
        "oneOf",
        arr(vec![obj(vec![("minimum", num(10.0))]), obj(vec![("maximum", num(3.0))])]),
    )]);
    let state = check(schema, num(5.0));
    assert_eq!(codes(&state), vec!["one_of".to_string()]);
    assert_eq!(state.errors[0].states().map(|s| s.len()), Some(2));
}

#[test]
fn one_of_fails_when_two_alternatives_pass() {
    let schema = obj(vec![(
        "oneOf",
        arr(vec![obj(vec![("minimum", num(1.0))]), obj(vec![("maximum", num(30.0))])]),
    )]);
    let state = check(schema, num(5.0));
    assert_eq!(codes(&state), vec!["one_of".to_string()]);
}

#[test]
fn all_of_reports_what_every_alternative_finds() {
    let schema = obj(vec![(
        "allOf",
        arr(vec![
            obj(vec![("minimum", num(10.0))]),
            Json::Bool(true),
            obj(vec![("const", num(5.0))]),
        ]),
    )]);
    let state = check(schema, num(7.0));
    assert_eq!(codes(&state), vec!["minimum".to_string(), "const".to_string()]);
}

#[test]
fn not_rejects_what_its_schema_accepts() {
    let schema = obj(vec![("not", obj(vec![("const", num(1.0))]))]);
    assert_eq!(codes(&check(schema.clone(), num(1.0))), vec!["not".to_string()]);
    assert!(check(schema, num(2.0)).is_valid());
}

#[test]
fn unknown_reference_is_missing_and_no_error() {
    let schema = obj(vec![("$ref", text("urn:nowhere:at-all"))]);
    let state = check(schema, num(1.0));
    assert!(state.is_valid());
    assert_eq!(state.errors.len(), 0);
    assert_eq!(state.missing.len(), 1);
    assert_eq!(state.missing[0].as_str(), "urn:nowhere:at-all");
}

#[test]
fn reference_into_the_same_document_is_followed() {
    let schema = obj(vec![
        ("$id", text("urn:doc")),
        ("definitions", obj(vec![("small", obj(vec![("maximum", num(3.0))]))])),
        ("$ref", text("#/definitions/small")),
    ]);
    let state = check(schema.clone(), num(5.0));
    assert_eq!(codes(&state), vec!["maximum".to_string()]);
    assert!(check(schema, num(2.0)).is_valid());
}

#[test]
fn a_reference_that_goes_round_in_a_circle_is_given_up() {
    let schema = obj(vec![("$id", text("urn:loop")), ("$ref", text("#"))]);
    let mut scope = Scope::new();
    let compiled = compiled(&mut scope, schema);
    let state = compiled.validate(&num(1.0));
    assert!(state.exhausted);
    assert!(!state.is_valid());
    assert_eq!(state.errors.len(), 0);
    assert_eq!(state.missing.len(), 0);
    let two = obj(vec![
        ("$id", text("urn:two")),
        ("definitions", obj(vec![
            ("a", obj(vec![("allOf", arr(vec![obj(vec![("$ref", text("#/definitions/b"))])]))])),
            ("b", obj(vec![("not", obj(vec![("$ref", text("#/definitions/a"))]))])),
        ])),
        ("$ref", text("#/definitions/a")),
    ]);
    let compiled = compiled_in(&mut scope, two);
    let state = compiled.validate(&arr(vec![num(1.0), obj(vec![])]));
    assert!(state.exhausted);
    assert_eq!(state.missing.len(), 0);
}

fn compiled_in<'a>(scope: &'a mut Scope, schema: Json) -> ScopedSchema<'a, 'a> {
    compiled(scope, schema)
}

#[test]
fn a_reference_that_the_scope_resolves_is_never_missing() {
    let schema = obj(vec![
        ("$id", text("urn:held")),
        ("definitions", obj(vec![("small", obj(vec![("maximum", num(3.0))]))])),
        ("$ref", text("#/definitions/small")),
    ]);
    let mut scope = Scope::new();
    assert!(scope.compile_and_return(schema, false).is_ok());
    let compiled = scope.resolve(&Uri::parse("urn:held").unwrap()).unwrap();
    for depth in [0usize, 1, 2, 50] {
        let state = compiled.validate_within(&num(5.0), "/p", depth);
        assert_eq!(state.missing.len(), 0);
        assert_eq!(state.exhausted, depth == 0);
        if depth > 0 {
            assert_eq!(codes(&state), vec!["maximum".to_string()]);
            assert_eq!(paths(&state), vec!["/p".to_string()]);
        }
    }
    let target = compiled.schema().resolve_fragment("/definitions/small").unwrap();
    let alone = ScopedSchema::new(&scope, target).validate_in(&num(5.0), "/p");
    let through = compiled.validate_in(&num(5.0), "/p");
    assert_eq!(codes(&through), vec!["maximum".to_string()]);
    assert_eq!(codes(&alone), codes(&through));
    assert_eq!(paths(&alone), paths(&through));
    assert_eq!(alone.missing.len(), through.missing.len());
}

#[test]
fn a_reference_that_the_scope_lacks_is_missing_whatever_the_bound() {
    let schema = obj(vec![("$id", text("urn:lacks")), ("$ref", text("urn:nowhere"))]);
    let mut scope = Scope::new();
    let compiled = compiled(&mut scope, schema);
    for depth in [0usize, 1, 7] {
        let state = compiled.validate_within(&num(5.0), "", depth);
        assert_eq!(state.errors.len(), 0);
        assert!(!state.exhausted);
        assert_eq!(state.missing.len(), 1);
        assert_eq!(state.missing[0].as_str(), "urn:nowhere");
    }
}

#[test]
fn the_schema_false_accepts_nothing_whatever_the_bound() {
    let mut scope = Scope::new();
    let schema = compiled(&mut scope, Json::Bool(false));
    for value in [Json::Null, num(1.0), obj(vec![])] {
        assert!(!schema.validate_within(&value, "", 0).is_valid());
        assert!(!schema.validate_within(&value, "", 1).is_valid());
        assert!(!schema.validate(&value).is_valid());
        assert_eq!(codes(&schema.validate(&value)), vec!["not".to_string()]);
    }
}

#[test]
fn a_value_nested_deep_is_validated_to_its_end() {
    let schema = obj(vec![
        ("$id", text("urn:nest")),
        ("type", text("object")),
        ("properties", obj(vec![("next", obj(vec![("$ref", text("#"))]))])),
    ]);
    let mut scope = Scope::new();
    let compiled = compiled(&mut scope, schema);
    let mut value = num(1.0);
    let mut path = String::new();
    for _ in 0..300 {
        value = obj(vec![("next", value)]);
        path.push_str("/next");
    }
    let state = compiled.validate(&value);
    assert!(!state.exhausted);
    assert_eq!(state.missing.len(), 0);
    assert_eq!(codes(&state), vec!["wrong_type".to_string()]);
    assert_eq!(paths(&state), vec![path]);
}

#[test]
fn resolving_a_path_descends_the_tree() {
    let schema = obj(vec![
        ("$id", text("urn:x")),
        ("a", obj(vec![("b", obj(vec![("const", text("found"))]))])),
    ]);
    let mut scope = Scope::new();
    assert!(scope.compile_and_return(schema, false).is_ok());
    let id = Uri::parse("urn:x#/a/b").unwrap();
    let node = scope.resolve(&id).expect("the node is there");
    assert!(node.validate(&text("found")).is_valid());
    assert_eq!(codes(&node.validate(&text("other"))), vec!["const".to_string()]);
    assert!(scope.resolve(&Uri::parse("urn:x#/a/c").unwrap()).is_none());
    assert!(scope.resolve(&Uri::parse("urn:y#/a/b").unwrap()).is_none());
    let root = scope.resolve(&Uri::parse("urn:x").unwrap()).expect("the root is there");
    assert!(root.validate(&text("other")).is_valid());
}

#[test]
fn resolving_a_name_finds_the_node_that_declared_it() {
    let schema = obj(vec![
        ("$id", text("urn:x")),
        ("a", obj(vec![("$id", text("#frag")), ("const", text("found"))])),
    ]);
    let mut scope = Scope::new();
    assert!(scope.compile_and_return(schema, false).is_ok());
    let node = scope.resolve(&Uri::parse("urn:x#frag").unwrap()).expect("the node is there");
    assert_eq!(node.schema().id.as_ref().map(|u| u.as_str()), Some("urn:x#frag"));
    assert_eq!(codes(&node.validate(&text("other"))), vec!["const".to_string()]);
    assert!(scope.resolve(&Uri::parse("urn:x#other").unwrap()).is_none());
}

#[test]
fn compiling_twice_gives_the_same_checks() {
    let schema = obj(vec![
        ("$id", text("urn:twice")),
        ("required", arr(vec![text("a")])),
        ("maxProperties", num(1.0)),
        ("propertyNames", obj(vec![("maximum", num(3.0))])),
    ]);
    let values = vec![
        obj(vec![]),
        obj(vec![("a", num(1.0))]),
        obj(vec![("a", num(10.0)), ("b", num(1.0))]),
        text("x"),
    ];
    for value in values {
        let first = check(schema.clone(), value.clone());
        let second = check(schema.clone(), value);
        assert_eq!(codes(&first), codes(&second));
        assert_eq!(paths(&first), paths(&second));
    }
}

#[test]
fn keyword_value_of_the_wrong_kind_is_malformed() {
    let mut scope = Scope::new();
    let schema = obj(vec![("a", obj(vec![("required", text("a"))]))]);
    match scope.compile_and_return(schema, false) {
        Err(SchemaError::Malformed { path, detail }) => {
            assert_eq!(path, "a");
            assert_eq!(detail, "The value of this keyword must be an array.");
        },
        other => panic!("not malformed: {:?}", other.map(|_| ())),
    }
}

#[test]
fn every_keyword_refuses_a_value_of_the_wrong_kind() {
    let wrong = vec![
        ("required", arr(vec![num(1.0)])),
        ("enum", arr(vec![])),
        ("enum", text("a")),
        ("$ref", num(1.0)),
        ("allOf", arr(vec![])),
        ("anyOf", obj(vec![])),
        ("oneOf", arr(vec![num(1.0)])),
        ("not", num(1.0)),
        ("propertyNames", text("a")),
        ("uniqueItems", num(1.0)),
        ("maxLength", num(-1.0)),
        ("minLength", num(1.5)),
        ("maxItems", text("1")),
        ("minItems", Json::Null),
        ("maxProperties", num(0.5)),
        ("minProperties", Json::Bool(true)),
        ("maximum", text("1")),
        ("minimum", Json::Null),
        ("exclusiveMaximum", Json::Bool(true)),
        ("exclusiveMinimum", arr(vec![])),
        ("format", num(1.0)),
        ("type", num(1.0)),
        ("type", text("natural")),
        ("type", arr(vec![text("string"), num(1.0)])),
        ("pattern", num(1.0)),
        ("pattern", text("(")),
        ("contains", num(1.0)),
        ("dependencies", arr(vec![])),
        ("dependencies", obj(vec![("a", num(1.0))])),
        ("dependencies", obj(vec![("a", arr(vec![num(1.0)]))])),
        ("items", num(1.0)),
        ("items", arr(vec![num(1.0)])),
        ("properties", arr(vec![])),
        ("properties", obj(vec![("a", num(1.0))])),
        ("additionalProperties", num(1.0)),
        ("patternProperties", arr(vec![])),
        ("patternProperties", obj(vec![("(", obj(vec![]))])),
        ("patternProperties", obj(vec![("a", num(1.0))])),
    ];
    for (key, value) in wrong {
        let mut scope = Scope::new();
        let r = scope.compile_and_return(obj(vec![(key, value)]), false);
        assert!(matches!(r, Err(SchemaError::Malformed { .. })), "{}", key);
    }
}

#[test]
fn leaf_keywords_pass_over_values_of_another_kind() {
    assert!(check(obj(vec![("minimum", num(5.0))]), text("abc")).is_valid());
    assert!(check(obj(vec![("maximum", num(5.0))]), arr(vec![])).is_valid());
    assert!(check(obj(vec![("exclusiveMinimum", num(5.0))]), Json::Null).is_valid());
    assert!(check(obj(vec![("exclusiveMaximum", num(5.0))]), obj(vec![])).is_valid());
    assert!(check(obj(vec![("maxLength", num(1.0))]), num(12345.0)).is_valid());
    assert!(check(obj(vec![("minLength", num(9.0))]), arr(vec![])).is_valid());
    assert!(check(obj(vec![("maxItems", num(0.0))]), text("abc")).is_valid());
    assert!(check(obj(vec![("minItems", num(9.0))]), obj(vec![])).is_valid());
    assert!(check(obj(vec![("maxProperties", num(0.0))]), arr(vec![num(1.0)])).is_valid());
    assert!(check(obj(vec![("minProperties", num(9.0))]), num(1.0)).is_valid());
    assert!(check(obj(vec![("uniqueItems", Json::Bool(true))]), text("aa")).is_valid());
    assert!(check(obj(vec![("format", text("date-time"))]), num(1.0)).is_valid());
    assert!(check(obj(vec![("propertyNames", Json::Bool(false))]), num(1.0)).is_valid());
    assert!(check(obj(vec![("pattern", text("^a$"))]), num(1.0)).is_valid());
    assert!(check(obj(vec![("items", Json::Bool(false))]), obj(vec![("a", num(1.0))])).is_valid());
    assert!(check(obj(vec![("contains", Json::Bool(false))]), text("a")).is_valid());
    assert!(check(obj(vec![("additionalProperties", Json::Bool(false))]), arr(vec![num(1.0)])).is_valid());
    assert!(check(obj(vec![("dependencies", obj(vec![("a", arr(vec![text("b")]))]))]), text("a")).is_valid());
}

#[test]
fn number_bounds_compare_exactly() {
    assert!(check(obj(vec![("minimum", num(5.0))]), num(5.0)).is_valid());
    assert_eq!(codes(&check(obj(vec![("minimum", num(5.0))]), num(4.5))), vec!["minimum".to_string()]);
    assert_eq!(
        codes(&check(obj(vec![("exclusiveMinimum", num(5.0))]), num(5.0))),
        vec!["minimum".to_string()]
    );
    assert!(check(obj(vec![("exclusiveMinimum", num(5.0))]), num(5.5)).is_valid());
    assert!(check(obj(vec![("maximum", num(-2.0))]), num(-2.0)).is_valid());
    assert_eq!(codes(&check(obj(vec![("maximum", num(-2.0))]), num(-1.5))), vec!["maximum".to_string()]);
    assert_eq!(
        codes(&check(obj(vec![("exclusiveMaximum", num(0.0))]), num(0.0))),
        vec!["maximum".to_string()]
    );
    assert!(check(obj(vec![("exclusiveMaximum", num(0.0))]), num(-0.25)).is_valid());
}

#[test]
fn length_bounds_count_bytes() {
    assert!(check(obj(vec![("maxLength", num(3.0))]), text("abc")).is_valid());
    assert_eq!(codes(&check(obj(vec![("maxLength", num(3.0))]), text("abcd"))), vec!["max_length".to_string()]);
    assert_eq!(codes(&check(obj(vec![("maxLength", num(1.0))]), text("\u{e9}"))), vec!["max_length".to_string()]);
    assert!(check(obj(vec![("minLength", num(2.0))]), text("\u{e9}")).is_valid());
    assert_eq!(codes(&check(obj(vec![("minLength", num(2.0))]), text("a"))), vec!["min_length".to_string()]);
}

#[test]
fn item_and_member_bounds_count() {
    let two = arr(vec![num(1.0), num(2.0)]);
    assert!(check(obj(vec![("maxItems", num(2.0))]), two.clone()).is_valid());
    assert_eq!(codes(&check(obj(vec![("maxItems", num(1.0))]), two.clone())), vec!["max_items".to_string()]);
    assert!(check(obj(vec![("minItems", num(2.0))]), two.clone()).is_valid());
    assert_eq!(codes(&check(obj(vec![("minItems", num(3.0))]), two)), vec!["min_items".to_string()]);
    let one = obj(vec![("a", Json::Null)]);
    assert!(check(obj(vec![("maxProperties", num(1.0))]), one.clone()).is_valid());
    assert_eq!(
        codes(&check(obj(vec![("maxProperties", num(0.0))]), one.clone())),
        vec!["max_properties".to_string()]
    );
    assert!(check(obj(vec![("minProperties", num(1.0))]), one.clone()).is_valid());
    assert_eq!(codes(&check(obj(vec![("minProperties", num(2.0))]), one)), vec!["min_properties".to_string()]);
}

#[test]
fn enum_and_const_compare_whole_values() {
    let schema = obj(vec![("enum", arr(vec![num(1.0), text("a"), arr(vec![Json::Null])]))]);
    assert!(check(schema.clone(), text("a")).is_valid());
    assert!(check(schema.clone(), arr(vec![Json::Null])).is_valid());
    assert_eq!(codes(&check(schema.clone(), arr(vec![]))), vec!["enum".to_string()]);
    assert_eq!(codes(&check(schema, text("1"))), vec!["enum".to_string()]);
    let schema = obj(vec![("const", obj(vec![("k", num(1.0))]))]);
    assert!(check(schema.clone(), obj(vec![("k", num(1.0))])).is_valid());
    assert_eq!(codes(&check(schema, obj(vec![("k", num(2.0))]))), vec!["const".to_string()]);
}

#[test]
fn date_time_format_is_checked() {
    let schema = obj(vec![("format", text("date-time"))]);
    assert!(check(schema.clone(), text("1996-12-19T16:39:57-08:00")).is_valid());
    let state = check(schema, text("yesterday"));
    assert_eq!(codes(&state), vec!["format".to_string()]);
    assert_eq!(state.errors[0].get_detail(), Some("Malformed date time"));
    assert_eq!(state.errors[0].get_title(), "Format is wrong");
}

#[test]
fn unknown_format_checks_nothing() {
    let schema = obj(vec![("format", text("no-such-format"))]);
    assert!(check(schema, text("anything")).is_valid());
}

#[test]
fn property_names_checks_each_member_under_its_name() {
    let schema = obj(vec![("propertyNames", obj(vec![("maximum", num(3.0))]))]);
    let state = check(schema, obj(vec![("a", num(1.0)), ("b", num(5.0)), ("c", num(7.0))]));
    assert_eq!(codes(&state), vec!["maximum".to_string(), "maximum".to_string()]);
    assert_eq!(paths(&state), vec!["/[b]".to_string(), "/[c]".to_string()]);
}

#[test]
fn validate_in_starts_at_the_given_path() {
    let mut scope = Scope::new();
    let schema = compiled(&mut scope, obj(vec![("required", arr(vec![text("a")]))]));
    let state = schema.validate_in(&obj(vec![]), "/outer");
    assert_eq!(paths(&state), vec!["/outer/a".to_string()]);
}

#[test]
fn state_append_keeps_the_order() {
    let mut first = check(obj(vec![("const", num(1.0))]), num(2.0));
    let second = check(obj(vec![("$ref", text("urn:gone"))]), num(2.0));
    let third = check(obj(vec![("enum", arr(vec![num(1.0)]))]), num(2.0));
    first.append(second);
    first.append(third);
    assert_eq!(codes(&first), vec!["const".to_string(), "enum".to_string()]);
    assert_eq!(first.missing.len(), 1);
    assert!(!first.is_valid());
    assert!(ValidationState::new().is_valid());
}

#[test]
fn type_names_the_kinds_it_asked_for() {
    let schema = obj(vec![("type", text("string"))]);
    assert!(check(schema.clone(), text("a")).is_valid());
    let state = check(schema, num(1.0));
    assert_eq!(codes(&state), vec!["wrong_type".to_string()]);
    assert_eq!(state.errors[0].get_detail(), Some("The value must be string"));
    let schema = obj(vec![("type", arr(vec![text("integer"), text("null")]))]);
    assert!(check(schema.clone(), num(-3.0)).is_valid());
    assert!(check(schema.clone(), Json::Null).is_valid());
    let state = check(schema, num(1.5));
    assert_eq!(state.errors[0].get_detail(), Some("The value must be any of: integer, null"));
}

#[test]
fn type_tells_every_kind_apart() {
    let values = vec![
        ("array", arr(vec![])),
        ("boolean", Json::Bool(false)),
        ("integer", num(2.0)),
        ("number", num(2.5)),
        ("null", Json::Null),
        ("object", obj(vec![])),
        ("string", text("")),
    ];
    for (name, _) in values.iter() {
        for (kind, value) in values.iter() {
            let state = check(obj(vec![("type", text(name))]), value.clone());
            let expected = name == kind || (*name == "number" && *kind == "integer");
            assert_eq!(state.is_valid(), expected, "{} against {}", name, kind);
        }
    }
}

#[test]
fn pattern_matches_anywhere_in_the_string() {
    let schema = obj(vec![("pattern", text("b+c"))]);
    assert!(check(schema.clone(), text("aabbbcd")).is_valid());
    let state = check(schema, text("abd"));
    assert_eq!(codes(&state), vec!["pattern".to_string()]);
    assert_eq!(paths(&state), vec!["".to_string()]);
}

#[test]
fn items_with_one_schema_checks_every_element() {
    let schema = obj(vec![("items", obj(vec![("maximum", num(3.0))]))]);
    let state = check(schema, arr(vec![num(1.0), num(5.0), num(2.0), num(9.0)]));
    assert_eq!(codes(&state), vec!["maximum".to_string(), "maximum".to_string()]);
    assert_eq!(paths(&state), vec!["/1".to_string(), "/3".to_string()]);
}

#[test]
fn items_with_a_list_checks_each_place() {
    let schema = obj(vec![
        ("items", arr(vec![obj(vec![("const", num(1.0))]), obj(vec![("const", num(2.0))])])),
    ]);
    assert!(check(schema.clone(), arr(vec![num(1.0), num(2.0), num(3.0)])).is_valid());
    let state = check(schema.clone(), arr(vec![num(2.0), num(2.0)]));
    assert_eq!(paths(&state), vec!["/0".to_string()]);
    assert!(check(schema, arr(vec![num(1.0)])).is_valid());
}

#[test]
fn additional_items_are_refused_or_checked() {
    let refused = obj(vec![
        ("items", arr(vec![Json::Bool(true)])),
        ("additionalItems", Json::Bool(false)),
    ]);
    assert!(check(refused.clone(), arr(vec![num(1.0)])).is_valid());
    let state = check(refused, arr(vec![num(1.0), num(2.0)]));
    assert_eq!(codes(&state), vec!["items".to_string()]);
    assert_eq!(state.errors[0].get_detail(), Some("Additional items are not allowed"));
    let checked = obj(vec![
        ("items", arr(vec![Json::Bool(true)])),
        ("additionalItems", obj(vec![("maximum", num(3.0))])),
    ]);
    let state = check(checked, arr(vec![num(9.0), num(2.0), num(9.0)]));
    assert_eq!(paths(&state), vec!["/2".to_string()]);
}

#[test]
fn properties_check_members_by_name() {
    let schema = obj(vec![(
        "properties",
        obj(vec![("a", obj(vec![("maximum", num(3.0))])), ("b", obj(vec![("type", text("string"))]))]),
    )]);
    let state = check(schema, obj(vec![("a", num(5.0)), ("b", num(1.0)), ("c", num(1.0))]));
    assert_eq!(codes(&state), vec!["maximum".to_string(), "wrong_type".to_string()]);
    assert_eq!(paths(&state), vec!["/a".to_string(), "/b".to_string()]);
}

#[test]
fn additional_properties_are_refused_or_checked() {
    let refused = obj(vec![
        ("properties", obj(vec![("a", Json::Bool(true))])),
        ("additionalProperties", Json::Bool(false)),
    ]);
    assert!(check(refused.clone(), obj(vec![("a", num(1.0))])).is_valid());
    let state = check(refused, obj(vec![("a", num(1.0)), ("b", num(2.0))]));
    assert_eq!(codes(&state), vec!["properties".to_string()]);
    assert_eq!(state.errors[0].get_detail(), Some("Additional properties are not allowed"));
    assert_eq!(state.errors[0].get_title(), "Property conditions are not met");
    let checked = obj(vec![("additionalProperties", obj(vec![("maximum", num(3.0))]))]);
    let state = check(checked, obj(vec![("x", num(1.0)), ("y", num(7.0))]));
    assert_eq!(paths(&state), vec!["/y".to_string()]);
}

#[test]
fn pattern_properties_check_members_whose_names_match() {
    let schema = obj(vec![
        ("patternProperties", obj(vec![("^n_", obj(vec![("type", text("number"))]))])),
        ("additionalProperties", Json::Bool(false)),
    ]);
    assert!(check(schema.clone(), obj(vec![("n_a", num(1.0))])).is_valid());
    let state = check(schema, obj(vec![("n_a", text("x")), ("other", num(1.0))]));
    assert_eq!(codes(&state), vec!["wrong_type".to_string(), "properties".to_string()]);
    assert_eq!(paths(&state), vec!["/n_a".to_string(), "".to_string()]);
}

#[test]
fn contains_asks_for_one_matching_element() {
    let schema = obj(vec![("contains", obj(vec![("const", num(7.0))]))]);
    assert!(check(schema.clone(), arr(vec![num(1.0), num(7.0)])).is_valid());
    let state = check(schema.clone(), arr(vec![num(1.0), num(2.0)]));
    assert_eq!(codes(&state), vec!["contains".to_string()]);
    assert_eq!(codes(&check(schema, arr(vec![]))), vec!["contains".to_string()]);
}

#[test]
fn dependencies_ask_for_members_or_a_schema() {
    let schema = obj(vec![(
        "dependencies",
        obj(vec![
            ("card", arr(vec![text("name"), text("address")])),
            ("age", obj(vec![("required", arr(vec![text("born")]))])),
        ]),
    )]);
    assert!(check(schema.clone(), obj(vec![("name", text("x"))])).is_valid());
    let state = check(schema.clone(), obj(vec![("card", num(1.0)), ("name", text("x"))]));
    assert_eq!(codes(&state), vec!["required".to_string()]);
    assert_eq!(paths(&state), vec!["/address".to_string()]);
    let state = check(schema, obj(vec![("age", num(1.0))]));
    assert_eq!(paths(&state), vec!["/born".to_string()]);
}

#[test]
fn nested_schemas_report_nested_paths() {
    let schema = obj(vec![(
        "properties",
        obj(vec![(
            "list",
            obj(vec![("items", obj(vec![("required", arr(vec![text("id")]))]))]),
        )]),
    )]);
    let value = obj(vec![("list", arr(vec![obj(vec![("id", num(1.0))]), obj(vec![])]))]);
    let state = check(schema, value);
    assert_eq!(paths(&state), vec!["/list/1/id".to_string()]);
}

#[test]
fn a_member_named_like_a_keyword_is_still_a_schema() {
    let schema = obj(vec![(
        "properties",
        obj(vec![("required", obj(vec![("type", text("string"))]))]),
    )]);
    let state = check(schema, obj(vec![("required", num(1.0))]));
    assert_eq!(codes(&state), vec!["wrong_type".to_string()]);
    assert_eq!(paths(&state), vec!["/required".to_string()]);
}

#[test]
fn a_loop_of_references_ends_and_says_so() {
    let schema = obj(vec![
        ("$id", text("urn:round")),
        ("allOf", arr(vec![obj(vec![("$ref", text("urn:round"))])])),
    ]);
    let state = check(schema, num(1.0));
    assert!(state.exhausted);
    assert!(!state.is_valid());
    assert_eq!(state.errors.len(), 0);
    assert_eq!(state.missing.len(), 0);
}

#[test]
fn deeply_nested_values_are_validated() {
    let schema = obj(vec![
        ("$id", text("urn:nest")),
        ("type", arr(vec![text("array"), text("null")])),
        ("items", obj(vec![("$ref", text("urn:nest"))])),
    ]);
    let mut value = Json::Null;
    for _ in 0..50 {
        value = arr(vec![value]);
    }
    assert!(check(schema.clone(), value).is_valid());
    let mut value = num(1.0);
    for _ in 0..3 {
        value = arr(vec![value]);
    }
    let state = check(schema, value);
    assert_eq!(codes(&state), vec!["wrong_type".to_string()]);
    assert_eq!(paths(&state), vec!["/0/0/0".to_string()]);
}

#[test]
fn multiple_of_checks_whole_numbers() {
    let schema = obj(vec![("multipleOf", num(3.0))]);
    assert!(check(schema.clone(), num(9.0)).is_valid());
    assert!(check(schema.clone(), num(0.0)).is_valid());
    assert!(check(schema.clone(), num(-9.0)).is_valid());
    let state = check(schema.clone(), num(10.0));
    assert_eq!(codes(&state), vec!["multiple_of".to_string()]);
    assert_eq!(paths(&state), vec!["".to_string()]);
    assert_eq!(state.errors[0].get_title(), "Wrong number of the value");
    assert!(state.errors[0].is(ErrorKind::MultipleOf));
    assert_eq!(codes(&check(schema.clone(), num(-10.0))), vec!["multiple_of".to_string()]);
    assert_eq!(codes(&check(schema, num(1.0))), vec!["multiple_of".to_string()]);
}

#[test]
fn multiple_of_passes_what_is_no_number() {
    let schema = obj(vec![("multipleOf", num(3.0))]);
    for value in vec![Json::Null, text("10"), arr(vec![num(10.0)]), obj(vec![]), Json::Bool(true)] {
        assert!(check(schema.clone(), value).is_valid());
    }
}

#[test]
fn multiple_of_says_nothing_of_fractions() {
    assert!(check(obj(vec![("multipleOf", num(0.5))]), num(3.0)).is_valid());
    assert!(check(obj(vec![("multipleOf", num(2.0))]), num(2.5)).is_valid());
}

#[test]
fn multiple_of_one_accepts_every_whole_number() {
    let schema = obj(vec![("multipleOf", num(1.0))]);
    for x in [0.0, 1.0, -1.0, 7.0, 1.0e15] {
        assert!(check(schema.clone(), num(x)).is_valid());
    }
}

#[test]
fn objects_are_the_same_whatever_the_order_of_their_members() {
    let a = obj(vec![("x", num(1.0)), ("y", arr(vec![text("s")]))]);
    let b = obj(vec![("y", arr(vec![text("s")])), ("x", num(1.0))]);
    assert!(a.same(&b));
    assert!(b.same(&a));
    assert!(!a.same(&obj(vec![("x", num(1.0))])));
    assert!(!obj(vec![("x", num(1.0))]).same(&a));
    assert!(!a.same(&obj(vec![("x", num(1.0)), ("y", arr(vec![text("t")]))])));
    assert!(!a.same(&obj(vec![("x", num(1.0)), ("z", arr(vec![text("s")]))])));
    assert!(!arr(vec![num(1.0), num(2.0)]).same(&arr(vec![num(2.0), num(1.0)])));
    assert!(!arr(vec![num(1.0)]).same(&arr(vec![num(1.0), num(1.0)])));
    assert!(obj(vec![]).same(&obj(vec![])));
    assert!(!obj(vec![]).same(&arr(vec![])));
}

#[test]
fn const_and_enum_ignore_the_order_of_members() {
    let written = obj(vec![("a", num(1.0)), ("b", obj(vec![("c", Json::Null), ("d", text("e"))]))]);
    let given = obj(vec![("b", obj(vec![("d", text("e")), ("c", Json::Null)])), ("a", num(1.0))]);
    assert!(check(obj(vec![("const", written.clone())]), given.clone()).is_valid());
    assert!(check(obj(vec![("enum", arr(vec![num(0.0), written.clone()]))]), given.clone()).is_valid());
    let other = obj(vec![("b", obj(vec![("d", text("e"))])), ("a", num(1.0))]);
    assert_eq!(codes(&check(obj(vec![("const", written.clone())]), other.clone())), vec!["const".to_string()]);
    assert_eq!(codes(&check(obj(vec![("enum", arr(vec![written]))]), other)), vec!["enum".to_string()]);
}

#[test]
fn unique_items_ignores_the_order_of_members() {
    let schema = obj(vec![("uniqueItems", Json::Bool(true))]);
    let a = obj(vec![("x", num(1.0)), ("y", num(2.0))]);
    let b = obj(vec![("y", num(2.0)), ("x", num(1.0))]);
    assert_eq!(codes(&check(schema.clone(), arr(vec![a.clone(), b]))), vec!["unique_items".to_string()]);
    let c = obj(vec![("y", num(1.0)), ("x", num(2.0))]);
    assert!(check(schema, arr(vec![a, c])).is_valid());
}

#[test]
fn of_two_members_with_one_name_the_last_counts() {
    let twice = obj(vec![("a", num(1.0)), ("b", Json::Null), ("a", text("x"))]);
    assert_eq!(twice.index_of("a"), Some(2));
    assert_eq!(twice.index_of("b"), Some(1));
    assert_eq!(twice.index_of("c"), None);
    assert_eq!(twice.get("a"), Some(&text("x")));
    assert!(twice.same(&obj(vec![("b", Json::Null), ("a", text("x"))])));
    assert!(!twice.same(&obj(vec![("b", Json::Null), ("a", num(1.0))])));
    let schema = obj(vec![("minimum", num(100.0)), ("minimum", num(1.0))]);
    assert!(check(schema, num(5.0)).is_valid());
    let schema = obj(vec![("required", arr(vec![text("a")])), ("required", arr(vec![text("c")]))]);
    assert_eq!(codes(&check(schema, twice)), vec!["required".to_string()]);
}

struct Even;

impl simdjson_schema::validators::CustomValidator for Even {
    fn outcome(
        &self,
        _value: simdjson_schema::json::JsonValue,
        _path: vstd::seq::Seq<char>,
    ) -> simdjson_schema::validators::StateModel {
        unreachable!()
    }

    fn validate(&self, val: &Json, path: &str) -> ValidationState {
        match val {
            Json::Number(Number { integer: Some(i), .. }) if i % 2 != 0 => {
                ValidationState::of_error(ValidationError::MultipleOf(
                    simdjson_schema::error::MultipleOf { path: path.to_string() },
                ))
            },
            _ => ValidationState::new(),
        }
    }
}

struct EvenKeyword;

impl simdjson_schema::keywords::CustomKeyword for EvenKeyword {
    fn compiled(
        &self,
        _def: simdjson_schema::json::JsonValue,
        _ctx: simdjson_schema::schema::WalkModel,
    ) -> simdjson_schema::keywords::KeywordResultModel {
        unreachable!()
    }

    fn compile(
        &self,
        def: &Json,
        ctx: &simdjson_schema::schema::WalkContext<'_>,
    ) -> simdjson_schema::keywords::KeywordResult {
        match def.get("even") {
            None | Some(Json::Bool(false)) => Ok(None),
            Some(Json::Bool(true)) => {
                Ok(Some(simdjson_schema::validators::Validator::Custom(Box::new(Even))))
            },
            Some(_) => Err(ctx.malformed("The value of even MUST be a boolean")),
        }
    }
}

struct EvenFormat;

impl simdjson_schema::keywords::CustomKeyword for EvenFormat {
    fn compiled(
        &self,
        _def: simdjson_schema::json::JsonValue,
        _ctx: simdjson_schema::schema::WalkModel,
    ) -> simdjson_schema::keywords::KeywordResultModel {
        unreachable!()
    }

    fn compile(
        &self,
        _def: &Json,
        _ctx: &simdjson_schema::schema::WalkContext<'_>,
    ) -> simdjson_schema::keywords::KeywordResult {
        Ok(Some(simdjson_schema::validators::Validator::Custom(Box::new(Even))))
    }
}

#[test]
fn a_keyword_of_the_callers_own_is_compiled_and_run() {
    let mut scope = Scope::new();
    scope.add_keyword(
        vec!["even"],
        simdjson_schema::keywords::Keyword::Custom(Box::new(EvenKeyword)),
    );
    let doc = obj(vec![
        ("even", Json::Bool(true)),
        ("properties", obj(vec![("n", obj(vec![("even", Json::Bool(true))]))])),
    ]);
    let schema = match scope.compile_and_return(doc, true) {
        Ok(s) => s,
        Err(e) => panic!("the schema did not compile: {:?}", e),
    };
    assert!(schema.validate(&num(4.0)).is_valid());
    assert!(schema.validate(&text("three")).is_valid());
    let state = schema.validate(&num(3.0));
    assert_eq!(codes(&state), vec!["multiple_of".to_string()]);
    assert_eq!(paths(&state), vec!["".to_string()]);
    let state = schema.validate(&obj(vec![("n", num(5.0)), ("m", num(7.0))]));
    assert_eq!(codes(&state), vec!["multiple_of".to_string()]);
    assert_eq!(paths(&state), vec!["/n".to_string()]);
    assert!(check_in(&mut scope, obj(vec![("even", Json::Bool(false))]), num(3.0)).is_valid());
}

fn check_in(scope: &mut Scope, schema: Json, value: Json) -> ValidationState {
    compiled(scope, schema).validate(&value)
}

#[test]
fn a_keyword_of_the_callers_own_refuses_a_node() {
    let mut scope = Scope::new();
    scope.add_keyword(
        vec!["even"],
        simdjson_schema::keywords::Keyword::Custom(Box::new(EvenKeyword)),
    );
    let doc = obj(vec![("items", obj(vec![("even", num(1.0))]))]);
    match scope.compile_and_return(doc, false) {
        Err(SchemaError::Malformed { path, detail }) => {
            assert_eq!(path, "items");
            assert_eq!(detail, "The value of even MUST be a boolean");
        },
        other => panic!("not malformed: {:?}", other.map(|_| ())),
    }
    let mut plain = Scope::new();
    assert!(plain.compile_and_return(obj(vec![("even", num(1.0))]), false).is_ok());
    match plain.compile_and_return(obj(vec![("even", num(1.0))]), true) {
        Err(SchemaError::UnknownKey(key)) => assert_eq!(key, "even"),
        other => panic!("not refused: {:?}", other.map(|_| ())),
    }
}

#[test]
fn a_keyword_of_the_callers_own_can_be_exclusive() {
    let mut scope = Scope::new();
    scope.add_keyword(
        vec!["even"],
        simdjson_schema::keywords::Keyword::Exclusive(Box::new(
            simdjson_schema::keywords::Keyword::Custom(Box::new(EvenKeyword)),
        )),
    );
    let doc = obj(vec![("maximum", num(1.0)), ("even", Json::Bool(true))]);
    let schema = compiled(&mut scope, doc);
    assert!(schema.validate(&num(4.0)).is_valid());
    assert_eq!(codes(&schema.validate(&num(3.0))), vec!["multiple_of".to_string()]);
}

#[test]
fn a_format_of_the_callers_own_is_checked() {
    let mut scope = Scope::with_formats(vec![(
        "even".to_string(),
        simdjson_schema::keywords::format::FormatKind::Custom(Box::new(EvenFormat)),
    )]);
    let schema = compiled(&mut scope, obj(vec![("format", text("even"))]));
    assert!(schema.validate(&num(2.0)).is_valid());
    assert_eq!(codes(&schema.validate(&num(3.0))), vec!["multiple_of".to_string()]);
    let schema = compiled(&mut scope, obj(vec![("format", text("date-time"))]));
    assert!(schema.validate(&num(3.0)).is_valid());
    assert!(!schema.validate(&text("noon")).is_valid());
    let schema = compiled(&mut scope, obj(vec![("format", text("odd"))]));
    assert!(schema.validate(&num(3.0)).is_valid());
}

#[test]
fn later_formats_take_the_place_of_earlier_ones() {
    let mut scope = Scope::with_formats(vec![
        ("n".to_string(), simdjson_schema::keywords::format::FormatKind::Custom(Box::new(EvenFormat))),
        ("n".to_string(), simdjson_schema::keywords::format::FormatKind::DateTime),
        ("date-time".to_string(), simdjson_schema::keywords::format::FormatKind::Custom(Box::new(EvenFormat))),
    ]);
    let schema = compiled(&mut scope, obj(vec![("format", text("n"))]));
    assert!(schema.validate(&num(3.0)).is_valid());
    assert!(!schema.validate(&text("noon")).is_valid());
    let schema = compiled(&mut scope, obj(vec![("format", text("date-time"))]));
    assert!(schema.validate(&text("noon")).is_valid());
    assert_eq!(codes(&schema.validate(&num(3.0))), vec!["multiple_of".to_string()]);
}

#[test]
fn identifiers_lead_to_the_nodes_that_declare_them() {
    let mut scope = Scope::new();
    let doc = obj(vec![
        ("$id", text("http://example.com/root.json")),
        (
            "definitions",
            obj(vec![
                ("a", obj(vec![("$id", text("http://example.com/a.json")), ("minimum", num(3.0))])),
                (
                    "b",
                    obj(vec![(
                        "items",
                        arr(vec![
                            obj(vec![]),
                            obj(vec![("$id", text("http://example.com/deep.json"))]),
                        ]),
                    )]),
                ),
            ]),
        ),
    ]);
    let schema = compiled(&mut scope, doc);
    let root = schema.schema();
    for declared in ["http://example.com/a.json", "http://example.com/deep.json"] {
        let node = root.resolve(declared).expect(declared);
        assert_eq!(node.id().unwrap().as_str(), declared);
    }
    let deep = root.resolve("http://example.com/deep.json").unwrap();
    let by_path = root.resolve_fragment("/definitions/b/items/1").unwrap();
    assert!(deep.source().same(by_path.source()));
    assert!(root.resolve("http://example.com/none.json").is_none());
}

#[test]
fn additional_items_is_read_by_items_alone() {
    let mut scope = Scope::new();
    let both = obj(vec![("items", arr(vec![obj(vec![])])), ("additionalItems", text("no"))]);
    let r = scope.compile_and_return(both, false);
    assert!(matches!(r, Err(SchemaError::Malformed { .. })));
    let alone = obj(vec![("additionalItems", text("no"))]);
    assert!(scope.compile_and_return(alone.clone(), false).is_ok());
    match scope.compile_and_return(alone, true) {
        Err(SchemaError::UnknownKey(key)) => assert_eq!(key, "additionalItems"),
        other => panic!("not refused: {:?}", other.map(|_| ())),
    }
    let banned = obj(vec![("items", arr(vec![obj(vec![])])), ("additionalItems", Json::Bool(false))]);
    match scope.compile_and_return(banned.clone(), true) {
        Err(SchemaError::UnknownKey(key)) => assert_eq!(key, "additionalItems"),
        other => panic!("not refused: {:?}", other.map(|_| ())),
    }
    let schema = compiled(&mut scope, banned);
    assert!(schema.validate(&arr(vec![num(1.0)])).is_valid());
    assert_eq!(codes(&schema.validate(&arr(vec![num(1.0), num(2.0)]))), vec!["items".to_string()]);
}
