use simdjson_schema::helpers::{
    alter_fragment_path, connect, convert_boolean_schema, encode, generate_id, id_from_uuid,
    alter_fragment, is_named_once, parse_url_key, parse_url_key_with_base, serialize_schema_path,
    split_fragment,
};
use simdjson_schema::json::{Json, Member, Number};
use simdjson_schema::keywords::format::{Format, FormatKind};
use simdjson_schema::keywords::ref_::Ref;
use simdjson_schema::keywords::required::Required;
use simdjson_schema::keywords::{decouple_keyword, Keyword, KeywordMap};
use simdjson_schema::schema::{compile, CompilationSettings, Schema, SchemaError, WalkContext};
use simdjson_schema::scope::Scope;
use simdjson_schema::table::{KeySet, Table};
use simdjson_schema::text::{decimal, join, split, starts_with_char, str_eq};
use simdjson_schema::uri::Uri;
use simdjson_schema::error::SimdjsonSchemaError;

fn num(x: f64) -> Json {
    let bits = x.to_bits() as i64;
    let order = bits ^ ((((bits >> 63) as u64) >> 1) as i64);
    let integer = if x.fract() == 0.0 && x.abs() < 1.0e30 {
        Some(x as i128)
    } else {
        None
    };
    Json::Number(Number { order, integer })
}

fn text(s: &str) -> Json {
    Json::String(s.to_string())
}

fn arr(items: Vec<Json>) -> Json {
    Json::Array(items)
}

fn obj(members: Vec<(&str, Json)>) -> Json {
    Json::Object(
        members.into_iter().map(|(k, v)| Member { key: k.to_string(), value: v }).collect(),
    )
}

fn uri(s: &str) -> Uri {
    Uri::parse(s).unwrap()
}

fn strings(items: &[&str]) -> Vec<String> {
    items.iter().map(|s| s.to_string()).collect()
}

#[test]
fn encode_escapes_then_percent_encodes() {
    assert_eq!(encode("plain"), "plain");
    assert_eq!(encode("a/b"), "a~1b");
    assert_eq!(encode("a~b"), "a~0b");
    assert_eq!(encode("100%"), "100%25");
    assert_eq!(encode("a b"), "a%20b");
    assert_eq!(encode("a/b~c%d e"), "a~1b~0c%25d%20e");
    assert_eq!(encode("\"<#>\""), "%22%3C%23%3E%22");
    assert_eq!(encode("\u{e9}"), "%C3%A9");
    assert_eq!(encode(""), "");
}

#[test]
fn connect_joins_encoded_segments() {
    assert_eq!(connect(&["a", "b c", "d/e"]), "a/b%20c/d~1e");
    assert_eq!(connect(&["only"]), "only");
    assert_eq!(connect(&[]), "");
}

#[test]
fn text_helpers_split_join_and_count() {
    assert_eq!(split("a/b/c", '/'), strings(&["a", "b", "c"]));
    assert_eq!(split("", '/'), strings(&[""]));
    assert_eq!(split("/a/", '/'), strings(&["", "a", ""]));
    assert_eq!(split("abc", '/'), strings(&["abc"]));
    assert_eq!(join(&strings(&["a", "b", "c"]), "/"), "a/b/c");
    assert_eq!(join(&strings(&["a"]), ", "), "a");
    assert_eq!(join(&strings(&[]), "/"), "");
    assert_eq!(decimal(0), "0");
    assert_eq!(decimal(7), "7");
    assert_eq!(decimal(10), "10");
    assert_eq!(decimal(1234567890), "1234567890");
    assert!(starts_with_char("/a", '/'));
    assert!(!starts_with_char("a/", '/'));
    assert!(!starts_with_char("", '/'));
}

#[test]
fn identifiers_are_read_by_the_url_crate() {
    assert_eq!(uri("HTTP://Example.COM/a/../b").as_str(), "http://example.com/b");
    assert_eq!(uri("urn:x").as_str(), "urn:x");
    assert!(Uri::parse("not a url").is_err());
    assert!(Uri::parse("/relative/only").is_err());
    let base = uri("http://example.com/dir/doc.json");
    assert_eq!(base.join("other.json").unwrap().as_str(), "http://example.com/dir/other.json");
    assert_eq!(base.join("#/definitions/a").unwrap().as_str(), "http://example.com/dir/doc.json#/definitions/a");
    assert_eq!(base.join("urn:other").unwrap().as_str(), "urn:other");
    assert!(base.join("http://[bad").is_err());
    assert_eq!(uri("http://example.com/a#frag").fragment(), Some("frag".to_string()));
    assert_eq!(uri("http://example.com/a").fragment(), None);
    assert_eq!(uri("http://example.com/a#").fragment(), Some("".to_string()));
    assert_eq!(uri("http://example.com/a#frag").without_fragment().as_str(), "http://example.com/a");
    assert_eq!(uri("http://example.com/a#frag").with_fragment("/x y").as_str(), "http://example.com/a#/x y");
    assert!(uri("urn:a").same(&uri("urn:a")));
    assert!(!uri("urn:a").same(&uri("urn:b")));
}

#[test]
fn serialize_schema_path_splits_base_and_path() {
    assert_eq!(
        serialize_schema_path(&uri("http://example.com/doc.json")),
        ("http://example.com/doc.json".to_string(), None)
    );
    assert_eq!(
        serialize_schema_path(&uri("http://example.com/doc.json#")),
        ("http://example.com/doc.json".to_string(), None)
    );
    assert_eq!(
        serialize_schema_path(&uri("http://example.com/doc.json#/a/b")),
        ("http://example.com/doc.json".to_string(), Some("/a/b".to_string()))
    );
    assert_eq!(
        serialize_schema_path(&uri("http://example.com/doc.json#name")),
        ("http://example.com/doc.json#name".to_string(), None)
    );
    assert_eq!(
        serialize_schema_path(&uri("http://example.com/doc.json#name/a/b")),
        ("http://example.com/doc.json#name".to_string(), Some("/a/b".to_string()))
    );
    assert_eq!(
        serialize_schema_path(&uri("urn:x#/a/b")),
        ("urn:x".to_string(), Some("/a/b".to_string()))
    );
}

#[test]
fn alter_fragment_path_addresses_a_node_below() {
    assert_eq!(
        alter_fragment_path(uri("http://example.com/doc.json"), "properties/a".to_string()).as_str(),
        "http://example.com/doc.json#/properties/a"
    );
    assert_eq!(
        alter_fragment_path(uri("http://example.com/doc.json"), "/not".to_string()).as_str(),
        "http://example.com/doc.json#/not"
    );
    assert_eq!(
        alter_fragment_path(uri("http://example.com/doc.json#/old/path"), "new".to_string()).as_str(),
        "http://example.com/doc.json#/new"
    );
    assert_eq!(
        alter_fragment_path(uri("http://example.com/doc.json#name/old"), "a/b".to_string()).as_str(),
        "http://example.com/doc.json#name/a/b"
    );
}

#[test]
fn convert_boolean_schema_writes_booleans_as_objects() {
    assert!(convert_boolean_schema(Json::Bool(true)).same(&obj(vec![])));
    assert!(convert_boolean_schema(Json::Bool(false)).same(&obj(vec![("not", obj(vec![]))])));
    assert!(convert_boolean_schema(num(1.0)).same(&num(1.0)));
    assert!(convert_boolean_schema(obj(vec![("a", Json::Null)])).same(&obj(vec![("a", Json::Null)])));
}

#[test]
fn parse_url_key_reads_identifiers() {
    let doc = obj(vec![("$id", text("http://example.com/a")), ("n", num(1.0)), ("bad", text("::"))]);
    assert_eq!(parse_url_key("$id", &doc).unwrap().unwrap().as_str(), "http://example.com/a");
    assert!(parse_url_key("absent", &doc).unwrap().is_none());
    assert!(parse_url_key("n", &doc).unwrap().is_none());
    assert!(matches!(parse_url_key("bad", &doc), Err(SchemaError::UrlParseError(_))));
    assert!(parse_url_key("$id", &num(1.0)).unwrap().is_none());
    let base = uri("http://example.com/dir/");
    let doc = obj(vec![("$id", text("sub.json")), ("bad", text("http://[bad"))]);
    assert_eq!(
        parse_url_key_with_base("$id", &doc, &base).unwrap().unwrap().as_str(),
        "http://example.com/dir/sub.json"
    );
    assert!(parse_url_key_with_base("absent", &doc, &base).unwrap().is_none());
    assert!(matches!(parse_url_key_with_base("bad", &doc, &base), Err(SchemaError::UrlParseError(_))));
}

#[test]
fn generated_identifiers_are_fresh() {
    let a = generate_id().unwrap();
    let b = generate_id().unwrap();
    assert!(a.as_str().starts_with("json-schema://"));
    assert!(a.as_str().ends_with('/'));
    assert_eq!(a.as_str().len(), "json-schema://".len() + 36 + 1);
    assert_ne!(a.as_str(), b.as_str());
}

#[test]
fn a_document_without_identifier_gets_one() {
    let mut scope = Scope::new();
    let compiled = scope.compile_and_return(obj(vec![]), false).ok().unwrap();
    let id = compiled.schema().id.as_ref().unwrap().as_str().to_string();
    assert!(id.starts_with("json-schema://"));
    assert!(scope.resolve(&uri(&id)).is_some());
}

#[test]
fn compile_refuses_what_is_no_schema() {
    let mut scope = Scope::new();
    assert!(matches!(scope.compile_and_return(num(1.0), false), Err(SchemaError::NotAnObject)));
    assert!(matches!(scope.compile_and_return(arr(vec![]), false), Err(SchemaError::NotAnObject)));
    assert!(matches!(scope.compile_and_return(Json::Null, false), Err(SchemaError::NotAnObject)));
    assert!(scope.compile_and_return(Json::Bool(false), false).is_ok());
}

#[test]
fn compile_refuses_a_bad_identifier() {
    let mut scope = Scope::new();
    let r = scope.compile_and_return(obj(vec![("$id", text("relative/only"))]), false);
    assert!(matches!(r, Err(SchemaError::UrlParseError(_))));
    let r = scope.compile_and_return(obj(vec![("$schema", text("::"))]), false);
    assert!(matches!(r, Err(SchemaError::UrlParseError(_))));
    let r = scope.compile_and_return(
        obj(vec![("$id", text("urn:x")), ("a", obj(vec![("$id", text("http://[bad"))]))]),
        false,
    );
    assert!(matches!(r, Err(SchemaError::UrlParseError(_))));
}

#[test]
fn compile_refuses_an_identifier_with_a_path() {
    let mut scope = Scope::new();
    let r = scope.compile_and_return(obj(vec![("$id", text("urn:x#/a/b"))]), false);
    assert!(matches!(r, Err(SchemaError::WrongId)));
    assert!(scope.resolve(&uri("urn:x")).is_none());
}

#[test]
fn compile_refuses_an_identifier_that_is_taken() {
    let mut scope = Scope::new();
    assert!(scope.compile_and_return(obj(vec![("$id", text("urn:x"))]), false).is_ok());
    let r = scope.compile_and_return(obj(vec![("$id", text("urn:x")), ("minimum", num(1.0))]), false);
    assert!(matches!(r, Err(SchemaError::IdConflicts)));
    let kept = scope.resolve(&uri("urn:x")).unwrap();
    assert!(kept.validate(&num(0.0)).is_valid());
}

#[test]
fn compile_refuses_an_identifier_declared_twice_in_one_document() {
    let mut scope = Scope::new();
    let doc = obj(vec![
        ("$id", text("urn:x")),
        ("a", obj(vec![("$id", text("#same"))])),
        ("b", obj(vec![("$id", text("#same"))])),
    ]);
    assert!(matches!(scope.compile_and_return(doc, false), Err(SchemaError::IdConflicts)));
}

#[test]
fn unknown_keys_are_refused_only_where_banned() {
    let doc = obj(vec![("title", text("t")), ("frobnicate", num(1.0)), ("minimum", num(1.0))]);
    let mut scope = Scope::new();
    assert!(scope.compile_and_return(doc.clone(), false).is_ok());
    let mut scope = Scope::new();
    match scope.compile_and_return(doc, true) {
        Err(SchemaError::UnknownKey(key)) => assert_eq!(key, "frobnicate"),
        other => panic!("not refused: {:?}", other.map(|_| ())),
    }
    let mut scope = Scope::new();
    let benign = obj(vec![("title", text("t")), ("description", text("d")), ("$comment", text("c"))]);
    assert!(scope.compile_and_return(benign, true).is_ok());
}

#[test]
fn schema_errors_are_written_out() {
    assert_eq!(SchemaError::WrongId.message(), "wrong id");
    assert_eq!(SchemaError::IdConflicts.message(), "id conflicts");
    assert_eq!(SchemaError::NotAnObject.message(), "not an object");
    assert_eq!(SchemaError::UnknownKey("k".to_string()).message(), "unknown key: k");
    assert_eq!(
        SchemaError::Malformed { path: "a/b".to_string(), detail: "d".to_string() }.message(),
        "malformed path: `a/b`, details: d"
    );
    match Uri::parse("relative") {
        Err(e) => assert_eq!(
            SchemaError::UrlParseError(e).message(),
            "url parse error: relative URL without a base"
        ),
        Ok(_) => panic!("a relative URL was read"),
    }
}

#[test]
fn malformed_path_names_the_node() {
    let mut scope = Scope::new();
    let doc = obj(vec![(
        "properties",
        obj(vec![("a b", obj(vec![("items", arr(vec![obj(vec![("enum", arr(vec![]))])]))]))]),
    )]);
    match scope.compile_and_return(doc, false) {
        Err(SchemaError::Malformed { path, detail }) => {
            assert_eq!(path, "properties/a%20b/items/0");
            assert_eq!(detail, "This array must have at least one element.");
        },
        other => panic!("not malformed: {:?}", other.map(|_| ())),
    }
}

#[test]
fn data_under_enum_and_const_is_not_compiled() {
    let mut scope = Scope::new();
    let doc = obj(vec![
        ("$id", text("urn:data")),
        ("enum", arr(vec![obj(vec![("required", text("not a list"))])])),
        ("const", obj(vec![("enum", text("not a list"))])),
    ]);
    assert!(scope.compile_and_return(doc, false).is_ok());
    assert!(scope.resolve(&uri("urn:data#/enum/0")).is_none());
    assert!(scope.resolve(&uri("urn:data#/const")).is_none());
}

#[test]
fn walk_context_writes_its_path() {
    let base = uri("urn:x");
    let ctx = WalkContext { url: &base, fragment: strings(&["properties", "a%20b", "0"]) };
    assert_eq!(ctx.escaped_fragment(), "properties/a%20b/0");
    match ctx.malformed("why") {
        SchemaError::Malformed { path, detail } => {
            assert_eq!(path, "properties/a%20b/0");
            assert_eq!(detail, "why");
        },
        other => panic!("another error: {:?}", other),
    }
}

#[test]
fn compile_with_an_external_identifier_uses_it() {
    let keywords = simdjson_schema::keywords::default();
    let settings = || CompilationSettings::new(&keywords, false);
    let doc = obj(vec![("$id", text("urn:inner")), ("minimum", num(1.0))]);
    let schema = compile(doc.clone(), Some(uri("urn:outer")), settings()).unwrap();
    assert_eq!(schema.id.as_ref().unwrap().as_str(), "urn:outer");
    let schema = compile(doc.clone(), None, settings()).unwrap();
    assert_eq!(schema.id.as_ref().unwrap().as_str(), "urn:inner");
    let schema = Schema::compile_with_id(doc, uri("urn:given"), &settings()).unwrap();
    assert_eq!(schema.id().unwrap().as_str(), "urn:given");
    assert!(schema.source().get("minimum").is_some());
    assert!(schema.child("minimum").is_none());
}

#[test]
fn compiled_tree_mirrors_the_document() {
    let keywords = simdjson_schema::keywords::default();
    let settings = CompilationSettings::new(&keywords, false);
    let doc = obj(vec![
        ("properties", obj(vec![("a/b", obj(vec![])), ("c", Json::Bool(true))])),
        ("items", arr(vec![obj(vec![]), Json::Bool(false)])),
        ("other", arr(vec![obj(vec![]), num(1.0), Json::Bool(true)])),
        ("title", text("no schema")),
        ("enum", arr(vec![obj(vec![])])),
    ]);
    let schema = Schema::compile_with_id(doc, uri("urn:tree"), &settings).unwrap();
    let properties = schema.child("properties").expect("properties");
    assert!(properties.child("a~1b").is_some());
    assert!(properties.child("c").is_some());
    assert!(properties.child("a/b").is_none());
    let items = schema.child("items").expect("items");
    assert!(items.child("0").is_some());
    assert!(items.child("1").expect("false is a schema").child("not").is_some());
    assert!(items.child("2").is_none());
    let other = schema.child("other").expect("other");
    assert!(other.child("0").is_some());
    assert!(other.child("1").is_none());
    assert!(other.child("2").is_none());
    assert!(schema.child("title").is_none());
    assert!(schema.child("enum").is_none());
    assert!(schema.resolve_fragment("/properties/a~1b").is_some());
    assert!(schema.resolve_fragment("/properties/zz").is_none());
    assert!(schema.descend(&strings(&["items", "1", "not"])).is_some());
    assert!(schema.resolve("urn:tree#nothing").is_none());
}

#[test]
fn a_keyword_takes_all_its_keys() {
    let mut map: KeywordMap = Table::new();
    decouple_keyword((vec!["a", "b"], Keyword::Required(Required)), &mut map);
    let consumer = map.get("a").expect("bound");
    assert_eq!(consumer.keys, strings(&["a", "b"]));
    assert!(map.get("b").is_some());
    assert!(map.get("c").is_none());
    let mut set = KeySet::of(&strings(&["a", "b", "c"]));
    assert!(set.holds("a"));
    consumer.consume(&mut set);
    assert!(!set.holds("a"));
    assert!(!set.holds("b"));
    assert!(set.holds("c"));
    consumer.consume(&mut set);
    assert!(set.holds("c"));
}

#[test]
fn default_registry_knows_the_built_in_keys() {
    let map = simdjson_schema::keywords::default();
    for key in [
        "$ref", "allOf", "anyOf", "oneOf", "not", "required", "const", "enum",
        "exclusiveMaximum", "exclusiveMinimum", "maxItems", "maxLength", "maxProperties",
        "maximum", "minItems", "minLength", "minProperties", "minimum", "uniqueItems",
        "propertyNames", "type", "pattern", "contains", "dependencies", "multipleOf", "items",
        "properties", "additionalProperties", "patternProperties",
    ] {
        assert!(map.contains_key(key), "{}", key);
    }
    assert!(!map.contains_key("format"));
    assert!(!map.contains_key("title"));
    assert_eq!(
        map.get("additionalProperties").unwrap().keys,
        strings(&["properties", "additionalProperties", "patternProperties"])
    );
    assert_eq!(map.get("items").unwrap().keys, strings(&["items"]));
    assert!(!map.contains_key("additionalItems"));
}

#[test]
fn an_exclusive_keyword_replaces_the_others() {
    let mut scope = Scope::new();
    scope.add_keyword(vec!["$ref"], Keyword::Exclusive(Box::new(Keyword::Ref(Ref))));
    let doc = obj(vec![
        ("$id", text("urn:ex")),
        ("minimum", num(10.0)),
        ("$ref", text("#/definitions/any")),
        ("maximum", num(0.0)),
        ("definitions", obj(vec![("any", obj(vec![]))])),
    ]);
    let schema = scope.compile_and_return(doc, false).ok().unwrap();
    assert!(schema.validate(&num(5.0)).is_valid());
}

#[test]
fn a_keyword_can_be_bound_to_another_key() {
    let mut scope = Scope::new();
    scope.add_keyword(vec!["needs"], Keyword::Required(Required));
    let doc = obj(vec![("needs", num(1.0)), ("required", arr(vec![text("a")]))]);
    let schema = scope.compile_and_return(doc, true).ok().unwrap();
    let state = schema.validate(&obj(vec![]));
    assert_eq!(state.errors.len(), 2);
    assert_eq!(state.errors[0].get_code(), "required");
}

#[test]
fn formats_can_go_by_more_names() {
    let mut scope = Scope::with_formats(vec![("timestamp".to_string(), FormatKind::DateTime)]);
    let schema = scope.compile_and_return(obj(vec![("format", text("timestamp"))]), false).ok().unwrap();
    assert!(!schema.validate(&text("noon")).is_valid());
    assert!(schema.validate(&text("2001-02-03T04:05:06Z")).is_valid());
    let format = Format::with(vec![("t".to_string(), FormatKind::DateTime)]);
    assert!(format.formats.contains_key("t"));
    assert!(format.formats.contains_key("date-time"));
    assert!(Format::new().formats.contains_key("date-time"));
    assert!(!Format::new().formats.contains_key("t"));
}

#[test]
fn a_bound_that_is_reached_shows_in_the_state() {
    let mut scope = Scope::new();
    let doc = obj(vec![
        ("$id", text("urn:deep")),
        ("properties", obj(vec![("a", obj(vec![("properties", obj(vec![("b", obj(vec![("type", text("string"))]))]))]))])),
    ]);
    let schema = scope.compile_and_return(doc, false).ok().unwrap();
    let value = obj(vec![("a", obj(vec![("b", num(1.0))]))]);
    let state = schema.validate_within(&value, "", 1);
    assert_eq!(state.errors.len(), 0);
    assert_eq!(state.missing.len(), 0);
    assert!(state.exhausted);
    assert!(!state.is_valid());
    let state = schema.validate_within(&value, "", 0);
    assert!(state.exhausted);
    assert_eq!(state.missing.len(), 0);
    for depth in [2, 3, 100, usize::MAX] {
        let state = schema.validate_within(&value, "", depth);
        assert!(!state.exhausted);
        assert_eq!(state.missing.len(), 0);
        assert_eq!(state.errors.len(), 1);
        assert_eq!(state.errors[0].get_code(), "wrong_type");
        assert_eq!(state.errors[0].get_path(), "/a/b");
    }
    let state = schema.validate(&value);
    assert!(!state.exhausted);
    assert_eq!(state.errors.len(), 1);
    assert_eq!(state.errors[0].get_path(), "/a/b");
}

#[test]
fn the_bound_is_made_of_the_nodes_and_the_weight() {
    let mut scope = Scope::new();
    assert_eq!(scope.hops(), 1);
    assert_eq!(scope.bound_for(&Json::Null), 1);
    let doc = obj(vec![
        ("$id", text("urn:count")),
        ("properties", obj(vec![("a", obj(vec![])), ("b", obj(vec![("items", arr(vec![obj(vec![])]))]))])),
        ("title", text("no node")),
    ]);
    let nodes = scope.compile_and_return(doc, false).ok().unwrap().schema().node_count();
    assert_eq!(nodes, 6);
    assert_eq!(scope.hops(), 7);
    assert!(scope.compile_and_return(obj(vec![("$id", text("urn:one"))]), false).is_ok());
    assert_eq!(scope.hops(), 8);
    assert!(scope.compile_and_return(obj(vec![("$id", text("urn:one"))]), false).is_err());
    assert_eq!(scope.hops(), 8);
    assert_eq!(Json::Null.weight(), 1);
    assert_eq!(num(1.0).weight(), 1);
    assert_eq!(text("abc").weight(), 1);
    assert_eq!(Json::Bool(true).weight(), 3);
    assert_eq!(arr(vec![]).weight(), 1);
    assert_eq!(obj(vec![]).weight(), 1);
    let value = obj(vec![("a", arr(vec![num(1.0), arr(vec![Json::Null])])), ("b", text("x"))]);
    assert_eq!(value.weight(), 6);
    assert_eq!(scope.bound_for(&value), 48);
}

#[test]
fn table_binds_names_to_values() {
    let mut table: Table<u32> = Table::new();
    assert!(table.get("a").is_none());
    table.insert("a".to_string(), 1);
    table.insert("b".to_string(), 2);
    table.insert("a".to_string(), 3);
    assert_eq!(table.get("a"), Some(&3));
    assert_eq!(table.get("b"), Some(&2));
    assert!(table.contains_key("b"));
    assert!(!table.contains_key("c"));
    assert_eq!(table.values(), &vec![1, 2, 3]);
    let slot = table.push(9);
    assert_eq!(slot, 3);
    table.bind("c".to_string(), slot);
    table.bind("d".to_string(), slot);
    assert_eq!(table.get("c"), Some(&9));
    assert_eq!(table.get("d"), Some(&9));
}

#[test]
fn names_with_special_characters_are_found_again() {
    let mut scope = Scope::new();
    let doc = obj(vec![
        ("$id", text("urn:special")),
        (
            "properties",
            obj(vec![
                ("a b", obj(vec![("type", text("string"))])),
                ("c/d", obj(vec![("type", text("string"))])),
                ("e~f", obj(vec![("type", text("string"))])),
                ("100%", obj(vec![("type", text("string"))])),
                ("g#h", obj(vec![("type", text("string"))])),
                ("\u{e9}", obj(vec![("type", text("string"))])),
            ]),
        ),
    ]);
    let schema = scope.compile_and_return(doc, false).ok().unwrap();
    let value = obj(vec![
        ("a b", num(1.0)),
        ("c/d", num(1.0)),
        ("e~f", num(1.0)),
        ("100%", num(1.0)),
        ("g#h", num(1.0)),
        ("\u{e9}", num(1.0)),
    ]);
    let state = schema.validate(&value);
    assert_eq!(state.missing.len(), 0);
    assert_eq!(state.errors.len(), 6);
    assert_eq!(state.errors[0].get_path(), "/a b");
    assert_eq!(state.errors[1].get_path(), "/c/d");
    assert!(scope.resolve(&uri("urn:special#/properties/a%20b")).is_some());
    assert!(scope.resolve(&uri("urn:special#/properties/c~1d")).is_some());
    assert!(scope.resolve(&uri("urn:special#/properties/e~0f")).is_some());
    assert!(scope.resolve(&uri("urn:special#/properties/100%25")).is_some());
    assert!(scope.resolve(&uri("urn:special#/properties/g%23h")).is_some());
}

#[test]
fn a_declared_identifier_is_the_base_of_what_stands_below() {
    let mut scope = Scope::new();
    let doc = obj(vec![
        ("$id", text("http://example.com/root.json")),
        (
            "sub",
            obj(vec![
                ("$id", text("other.json")),
                ("definitions", obj(vec![("x", obj(vec![("type", text("string"))]))])),
                ("inner", obj(vec![("$ref", text("#/definitions/x"))])),
            ]),
        ),
    ]);
    assert!(scope.compile_and_return(doc, false).is_ok());
    let sub = scope.resolve(&uri("http://example.com/other.json")).expect("declared");
    assert_eq!(sub.schema().id().unwrap().as_str(), "http://example.com/other.json");
    let inner = scope.resolve(&uri("http://example.com/other.json#/inner")).expect("below");
    let state = inner.validate(&num(1.0));
    assert_eq!(state.missing.len(), 0);
    assert_eq!(state.errors.len(), 1);
    assert_eq!(state.errors[0].get_code(), "wrong_type");
    assert!(inner.validate(&text("s")).is_valid());
    assert!(scope.resolve(&uri("http://example.com/root.json#/sub/inner")).is_some());
}

#[test]
fn references_reach_other_documents_of_the_scope() {
    let mut scope = Scope::new();
    let first = obj(vec![
        ("$id", text("http://example.com/types.json")),
        ("definitions", obj(vec![("small", obj(vec![("maximum", num(3.0))]))])),
    ]);
    let second = obj(vec![
        ("$id", text("http://example.com/use.json")),
        ("$ref", text("types.json#/definitions/small")),
    ]);
    assert!(scope.compile_and_return(second, false).is_ok());
    let id = uri("http://example.com/use.json");
    let state = scope.resolve(&id).unwrap().validate(&num(9.0));
    assert!(state.is_valid());
    assert_eq!(state.missing.len(), 1);
    assert_eq!(state.missing[0].as_str(), "http://example.com/types.json#/definitions/small");
    assert!(scope.compile_and_return(first, false).is_ok());
    let state = scope.resolve(&id).unwrap().validate(&num(9.0));
    assert_eq!(state.missing.len(), 0);
    assert_eq!(state.errors.len(), 1);
    assert_eq!(state.errors[0].get_code(), "maximum");
}

#[test]
fn a_registry_answers_to_the_keys_of_its_keywords() {
    let mut map: KeywordMap = Table::new();
    decouple_keyword((vec!["a", "b"], Keyword::Required(Required)), &mut map);
    decouple_keyword((vec!["format"], Keyword::Format(Format::new())), &mut map);
    decouple_keyword((vec!["$ref"], Keyword::Exclusive(Box::new(Keyword::Ref(Ref)))), &mut map);
    assert_eq!(map.get("b").unwrap().keys, strings(&["a", "b"]));
    assert!(matches!(map.get("a").unwrap().keyword, Keyword::Required(_)));
    assert!(map.get("$ref").unwrap().keyword.is_exclusive());
    assert!(!map.get("a").unwrap().keyword.is_exclusive());
    match &map.get("format").unwrap().keyword {
        Keyword::Format(f) => assert!(f.formats.contains_key("date-time")),
        _ => panic!("another keyword"),
    }
    assert!(map.get("c").is_none());
}

#[test]
fn an_identifier_is_made_of_a_random_identifier() {
    let id = id_from_uuid("67e55044-10b1-426f-9247-bb680e5fe0c8").unwrap();
    assert_eq!(id.as_str(), "json-schema://67e55044-10b1-426f-9247-bb680e5fe0c8/");
    assert!(id_from_uuid("[").is_err());
}

#[test]
fn multiple_of_must_be_a_number_above_zero() {
    for (value, words) in [
        (num(0.0), "The value of multipleOf MUST be strictly greater than 0"),
        (num(-2.0), "The value of multipleOf MUST be strictly greater than 0"),
        (text("2"), "The value of multipleOf MUST be a number"),
        (Json::Null, "The value of multipleOf MUST be a number"),
    ] {
        let doc = obj(vec![("properties", obj(vec![("n", obj(vec![("multipleOf", value)]))]))]);
        let mut scope = Scope::new();
        match scope.compile_and_return(doc, false) {
            Err(SchemaError::Malformed { path, detail }) => {
                assert_eq!(path, "properties/n");
                assert_eq!(detail, words);
            },
            other => panic!("{:?}", other.map(|_| ())),
        }
    }
    let mut scope = Scope::new();
    assert!(scope.compile_and_return(obj(vec![("multipleOf", num(0.25))]), false).is_ok());
}

#[test]
fn strings_are_compared_by_their_characters() {
    assert!(str_eq("", ""));
    assert!(str_eq("minimum", "minimum"));
    assert!(!str_eq("minimum", "maximum"));
    assert!(!str_eq("min", "minimum"));
    assert!(!str_eq("minimum", "min"));
    assert!(str_eq("größe/é", "größe/é"));
    assert!(!str_eq("größe", "grösse"));
}

#[test]
fn the_node_under_not_is_looked_up_by_base_and_path() {
    let mut scope = Scope::new();
    let schema = scope.compile_and_return(Json::Bool(false), false).ok().unwrap();
    let id = schema.schema().id().unwrap().clone();
    let (base, none) = serialize_schema_path(&id);
    assert_eq!(none, None);
    let below = alter_fragment_path(id.clone(), "/not".to_string());
    assert_eq!(serialize_schema_path(&below), (base, Some("/not".to_string())));
    let node = schema.schema();
    assert!(node.child("not").is_some());
    assert!(node.child("not").unwrap().source().same(&obj(vec![])));
    for value in [Json::Null, num(0.0), text(""), arr(vec![]), obj(vec![])] {
        let state = schema.validate_in(&value, "/here");
        assert_eq!(state.errors.len(), 1);
        assert_eq!(state.errors[0].get_code(), "not");
        assert_eq!(state.errors[0].get_path(), "/here");
        assert_eq!(state.missing.len(), 0);
    }
}

#[test]
fn a_key_of_letters_and_digits_is_its_own_segment() {
    for key in ["not", "anyOf", "a1Z", "0", "properties"] {
        assert_eq!(encode(key), key);
    }
    assert_ne!(encode("a b"), "a b");
    assert_ne!(encode("a/b"), "a/b");
}

#[test]
fn no_segment_stands_twice_below_a_node() {
    let keywords = simdjson_schema::keywords::default();
    let settings = CompilationSettings::new(&keywords, false);
    let doc = obj(vec![
        ("definitions", obj(vec![("a", obj(vec![])), ("b", obj(vec![])), ("a b", obj(vec![]))])),
        ("items", arr(vec![obj(vec![]), obj(vec![]), Json::Bool(true)])),
    ]);
    let schema = Schema::compile_with_id(doc, uri("urn:once"), &settings).unwrap();
    let definitions = schema.child("definitions").unwrap();
    assert!(definitions.child("a").unwrap().source().same(&obj(vec![])));
    assert!(definitions.child("b").is_some());
    assert!(definitions.child("a%20b").is_some());
    let items = schema.child("items").unwrap();
    for segment in ["0", "1", "2"] {
        assert!(items.child(segment).is_some());
    }
    assert!(items.child("3").is_none());
    let twice = obj(vec![
        ("definitions", obj(vec![("a", obj(vec![("minimum", num(1.0))])), ("a", obj(vec![]))])),
    ]);
    let schema = Schema::compile_with_id(twice, uri("urn:twice"), &settings).unwrap();
    let last = schema.child("definitions").unwrap().child("a").unwrap();
    assert!(last.source().same(&obj(vec![])));
}

#[test]
fn a_document_is_named_once_where_no_object_holds_a_segment_twice() {
    assert!(is_named_once(&Json::Null));
    assert!(is_named_once(&Json::Bool(false)));
    assert!(is_named_once(&arr(vec![num(1.0), num(1.0)])));
    assert!(is_named_once(&obj(vec![])));
    assert!(is_named_once(&obj(vec![("a", num(1.0)), ("b", num(1.0)), ("a b", num(1.0))])));
    assert!(is_named_once(&obj(vec![("a b", Json::Null), ("a%20b", Json::Null)])));
    assert!(is_named_once(&obj(vec![("a", obj(vec![("a", Json::Null)]))])));
    assert!(!is_named_once(&obj(vec![("a", num(1.0)), ("b", num(1.0)), ("a", num(2.0))])));
    assert!(!is_named_once(&obj(vec![("a", Json::Null), ("a", Json::Null)])));
    assert!(!is_named_once(&arr(vec![
        obj(vec![]),
        obj(vec![("x", arr(vec![obj(vec![("k", Json::Null), ("k", Json::Null)])]))]),
    ])));
    assert!(!is_named_once(&obj(vec![
        ("fine", obj(vec![("a", Json::Null)])),
        ("twice", obj(vec![("b", Json::Null), ("c", Json::Null), ("b", Json::Null)])),
    ])));
}

#[test]
fn a_fragment_is_split_into_name_and_path() {
    let base = || "urn:x".to_string();
    assert_eq!(split_fragment(base(), None), ("urn:x".to_string(), None));
    assert_eq!(split_fragment(base(), Some(String::new())), ("urn:x".to_string(), None));
    assert_eq!(
        split_fragment(base(), Some("/a/b".to_string())),
        ("urn:x".to_string(), Some("/a/b".to_string()))
    );
    assert_eq!(split_fragment(base(), Some("/".to_string())), ("urn:x".to_string(), Some("/".to_string())));
    assert_eq!(split_fragment(base(), Some("frag".to_string())), ("urn:x#frag".to_string(), None));
    assert_eq!(
        split_fragment(base(), Some("frag/a/b".to_string())),
        ("urn:x#frag".to_string(), Some("/a/b".to_string()))
    );
    assert_eq!(
        split_fragment(base(), Some("frag/".to_string())),
        ("urn:x#frag".to_string(), Some("/".to_string()))
    );
}

#[test]
fn a_fragment_is_altered_behind_its_name() {
    assert_eq!(alter_fragment(None, "a/b"), "/a/b");
    assert_eq!(alter_fragment(None, "/a/b"), "/a/b");
    assert_eq!(alter_fragment(None, ""), "/");
    assert_eq!(alter_fragment(Some(String::new()), "a"), "/a");
    assert_eq!(alter_fragment(Some("/old/path".to_string()), "new"), "/new");
    assert_eq!(alter_fragment(Some("name".to_string()), "a/b"), "name/a/b");
    assert_eq!(alter_fragment(Some("name/old".to_string()), "/a"), "name/a");
}

#[test]
fn a_refused_document_leaves_the_scope_as_it_was() {
    let mut scope = Scope::new();
    let held = obj(vec![("$id", text("urn:held")), ("minimum", num(1.0))]);
    assert!(scope.compile_and_return(held, false).is_ok());
    let hops = scope.hops();
    for ban in [false, true] {
        for value in [text("a"), num(1.0), obj(vec![]), Json::Null, Json::Bool(true)] {
            let doc = obj(vec![("$id", text("urn:refused")), ("required", value)]);
            match scope.compile_and_return(doc, ban) {
                Err(SchemaError::Malformed { path, .. }) => assert_eq!(path, ""),
                other => panic!("not malformed: {:?}", other.map(|_| ())),
            }
            assert_eq!(scope.hops(), hops);
            assert!(scope.resolve(&uri("urn:refused")).is_none());
            assert!(scope.resolve(&uri("urn:held")).is_some());
        }
    }
    let fine = obj(vec![("$id", text("urn:refused")), ("required", arr(vec![text("a")]))]);
    assert!(scope.compile_and_return(fine, true).is_ok());
    assert!(scope.resolve(&uri("urn:refused")).is_some());
}
