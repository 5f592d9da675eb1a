use damascus::aat::AAT;
use damascus::constraints::extract_constraints_from_object;
use damascus::equality::types_are_structurally_equal;
use damascus::error::{ConstraintViolation, Error, Location, PathParameterShape};
use damascus::float::FloatBits;
use damascus::json::{Json, Number};
use damascus::naming::{is_valid_ts_identifier, primitive_to_ts, quote_if_needed, to_camel_case, to_pascal_case};
use damascus::schema::{schema_to_field_type, schema_to_type};
use damascus::spec::{HeaderValue, Method, PathSegment, Spec, Type, Upgrade};
use damascus::types::{
    Constraints, EnumType, EnumVariant, FieldType, HeaderValue as AatHeaderValue, LiteralType, NamedType, PrimitiveType,
    StringFormat, UnionTypeVariantMode,
};
use damascus::writer::CodeWriter;

fn text(x: &str) -> Json {
    Json::String(x.to_string())
}

fn float(f: f64) -> Json {
    Json::Number(Number::new(None, None, FloatBits::from_bits(f.to_bits())))
}

fn whole(i: i64) -> Json {
    let unsigned = if i >= 0 { Some(i as u64) } else { None };
    Json::Number(Number::new(Some(i), unsigned, FloatBits::from_bits((i as f64).to_bits())))
}

fn arr(items: Vec<Json>) -> Json {
    Json::Array(items)
}

fn obj(entries: Vec<(&str, Json)>) -> Json {
    Json::Object(entries.into_iter().map(|(k, v)| (k.to_string(), v)).collect())
}

fn bits(f: f64) -> FloatBits {
    FloatBits::from_bits(f.to_bits())
}

#[test]
fn pascal_case_joins_parts() {
    assert_eq!(to_pascal_case("hello_world-again"), "HelloWorldAgain");
    assert_eq!(to_pascal_case("__a"), "A");
    assert_eq!(to_pascal_case("ß"), "SS");
    assert_eq!(to_pascal_case(""), "");
}

#[test]
fn camel_case_lowers_the_first_part() {
    assert_eq!(to_camel_case("Hello-WORLD_x"), "helloWorldX");
    assert_eq!(to_camel_case("__"), "");
    assert_eq!(to_camel_case("ÉCOLE_name"), "écoleName");
}

#[test]
fn identifiers_and_quoting() {
    assert!(is_valid_ts_identifier("é1"));
    assert!(is_valid_ts_identifier("$x_1"));
    assert!(!is_valid_ts_identifier("1a"));
    assert!(!is_valid_ts_identifier("a-b"));
    assert!(!is_valid_ts_identifier(""));
    assert_eq!(quote_if_needed("a-b"), "\"a-b\"");
    assert_eq!(quote_if_needed("ab"), "ab");
}

#[test]
fn primitives_in_typescript() {
    assert_eq!(primitive_to_ts(&PrimitiveType::Bool), "boolean");
    assert_eq!(primitive_to_ts(&PrimitiveType::Int), "number");
    assert_eq!(primitive_to_ts(&PrimitiveType::Float), "number");
    assert_eq!(primitive_to_ts(&PrimitiveType::String(Some(StringFormat::Uuid))), "string");
}

#[test]
fn writer_indents_blocks() {
    let mut w = CodeWriter::new();
    w.line("a");
    w.block("b {", "}", |mut inner| {
        inner.line("c");
        inner
    });
    w.block_with_newline("d {", "}", |inner| inner);
    w.dedent();
    w.indent();
    w.line("e");
    w.empty_line();
    assert_eq!(w.into_string(), "a\nb {\n  c\n}\nd {\n}\n\n  e\n\n");
    let mut tabs = CodeWriter::with_indent("\t");
    tabs.indent();
    tabs.line("x");
    assert_eq!(tabs.into_string(), "\tx\n");
}

#[test]
fn field_type_shapes() {
    let uuid = schema_to_field_type(&obj(vec![("type", text("string")), ("format", text("uuid"))])).unwrap();
    assert!(matches!(uuid, FieldType::Primitive(PrimitiveType::String(Some(StringFormat::Uuid)))));
    let odd = schema_to_field_type(&obj(vec![("type", text("string")), ("format", text("weird"))])).unwrap();
    assert!(matches!(odd, FieldType::Primitive(PrimitiveType::String(None))));
    let list = schema_to_field_type(&obj(vec![("type", text("array"))])).unwrap();
    assert!(matches!(list, FieldType::List(inner) if matches!(*inner, FieldType::Any)));
    let map = schema_to_field_type(&obj(vec![("type", text("object")), ("additionalProperties", obj(vec![("type", text("number"))]))])).unwrap();
    assert!(matches!(map, FieldType::Dictionary(inner) if matches!(*inner, FieldType::Primitive(PrimitiveType::Float))));
    let open = schema_to_field_type(&obj(vec![("type", text("object")), ("additionalProperties", Json::Bool(true))])).unwrap();
    assert!(matches!(open, FieldType::Dictionary(inner) if matches!(*inner, FieldType::Any)));
    let plain = schema_to_field_type(&obj(vec![("type", text("object"))])).unwrap();
    assert!(matches!(plain, FieldType::Any));
    let nullable = schema_to_field_type(&obj(vec![("type", text("boolean")), ("nullable", Json::Bool(true))])).unwrap();
    assert!(matches!(nullable, FieldType::Optional(inner) if matches!(*inner, FieldType::Primitive(PrimitiveType::Bool))));
    let reference = schema_to_field_type(&obj(vec![("$ref", text("#/definitions/Foo"))])).unwrap();
    assert!(matches!(reference, FieldType::Reference(n) if n == "Foo"));
    let both = schema_to_field_type(&obj(vec![("allOf", arr(vec![obj(vec![("$ref", text("#/$defs/A"))]), Json::Bool(true)]))])).unwrap();
    match both {
        FieldType::Intersection(parts) => {
            assert_eq!(parts.len(), 2);
            assert!(matches!(&parts[0], FieldType::Reference(n) if n == "A"));
            assert!(matches!(&parts[1], FieldType::Any));
        },
        other => panic!("expected an intersection, got {:?}", other),
    }
    assert!(matches!(schema_to_field_type(&Json::Bool(true)), Ok(FieldType::Any)));
}

#[test]
fn field_type_errors() {
    assert!(matches!(schema_to_field_type(&Json::Bool(false)), Err(Error::FalseFieldType)));
    assert!(matches!(schema_to_field_type(&whole(3)), Err(Error::NotASchema)));
    assert!(matches!(
        schema_to_field_type(&obj(vec![("$ref", text("#/components/X"))])),
        Err(Error::UnsupportedReference(r)) if r == "#/components/X"
    ));
    assert!(matches!(
        schema_to_field_type(&obj(vec![("type", text("widget"))])),
        Err(Error::UnsupportedType(t)) if t == "widget"
    ));
    assert!(matches!(
        schema_to_field_type(&obj(vec![("type", text("object")), ("additionalProperties", Json::Bool(false))])),
        Err(Error::ClosedMap)
    ));
    assert!(matches!(
        schema_to_field_type(&obj(vec![("type", text("array")), ("items", whole(1))])),
        Err(Error::NotASchema)
    ));
}

#[test]
fn named_type_errors() {
    assert!(matches!(schema_to_type(&Json::Bool(true), "T"), Err(Error::NamedTypeFromBool(true))));
    assert!(matches!(schema_to_type(&Json::Bool(false), "T"), Err(Error::NamedTypeFromBool(false))));
    assert!(matches!(schema_to_type(&obj(vec![("enum", arr(vec![arr(vec![])]))]), "T"), Err(Error::UnsupportedEnumValue)));
    assert!(matches!(schema_to_type(&obj(vec![("oneOf", arr(vec![Json::Bool(true)]))]), "T"), Err(Error::BoolUnionVariant)));
    assert!(matches!(schema_to_type(&obj(vec![("oneOf", arr(vec![text("x")]))]), "T"), Err(Error::NotASchema)));
}

#[test]
fn enum_values_become_literals() {
    let t = schema_to_type(&obj(vec![("enum", arr(vec![text("a"), whole(-2), float(1.5), Json::Bool(false), Json::Null]))]), "E").unwrap();
    match t {
        NamedType::Enum(e) => {
            assert_eq!(e.name, "E");
            assert!(matches!(&e.variants[0].value, LiteralType::String(s) if s == "a"));
            assert!(matches!(e.variants[1].value, LiteralType::Int(-2)));
            assert!(matches!(e.variants[2].value, LiteralType::Float(f) if f == bits(1.5)));
            assert!(matches!(e.variants[3].value, LiteralType::Bool(false)));
            assert!(matches!(e.variants[4].value, LiteralType::Null));
            assert!(e.variants.iter().all(|v| v.description.is_none()));
        },
        other => panic!("expected an enum, got {:?}", other),
    }
}

#[test]
fn union_variants_are_named() {
    let union = obj(vec![
        (
            "oneOf",
            arr(vec![
                obj(vec![("title", text("Titled")), ("type", text("object"))]),
                obj(vec![("type", text("object")), ("required", arr(vec![text("only")])), ("properties", obj(vec![("only", obj(vec![("type", text("integer"))]))]))]),
                obj(vec![("enum", arr(vec![text("lit")]))]),
                obj(vec![("type", text("object"))]),
            ]),
        ),
        (
            "discriminator",
            obj(vec![("propertyName", text("kind")), ("mapping", obj(vec![("a", text("A")), ("b", whole(1))]))]),
        ),
    ]);
    match schema_to_type(&union, "U").unwrap() {
        NamedType::Union(u) => {
            let names: Vec<Option<&str>> = u.variants.iter().map(|v| v.name.as_deref()).collect();
            assert_eq!(names, vec![Some("Titled"), Some("only"), Some("Variant2"), Some("Variant3")]);
            assert!(matches!(&*u.variants[2].mode, UnionTypeVariantMode::Literal(LiteralType::String(s)) if s == "lit"));
            assert!(matches!(&*u.variants[1].mode, UnionTypeVariantMode::Object(o) if o.fields.len() == 1));
            let d = u.discriminator.expect("discriminator");
            assert_eq!(d.property_name, "kind");
            assert_eq!(d.mapping, Some(vec![("a".to_string(), "A".to_string())]));
        },
        other => panic!("expected a union, got {:?}", other),
    }
}

#[test]
fn optional_fields_are_wrapped() {
    let s = obj(vec![
        ("properties", obj(vec![("need", obj(vec![("type", text("integer"))])), ("may", obj(vec![("type", text("integer"))]))])),
        ("required", arr(vec![text("need")])),
    ]);
    match schema_to_type(&s, "O").unwrap() {
        NamedType::Object(o) => {
            assert!(matches!(*o.fields[0].ty, FieldType::Primitive(PrimitiveType::Int)));
            assert!(matches!(&*o.fields[1].ty, FieldType::Optional(_)));
        },
        other => panic!("expected an object, got {:?}", other),
    }
}

#[test]
fn constraint_violations() {
    let cases = vec![
        (obj(vec![("exclusiveMinimum", whole(5)), ("exclusiveMaximum", whole(5))]), ConstraintViolation::EmptyExclusiveRange),
        (obj(vec![("minimum", whole(5)), ("exclusiveMaximum", whole(5))]), ConstraintViolation::MinimumReachesExclusiveMaximum),
        (obj(vec![("exclusiveMinimum", whole(5)), ("maximum", whole(5))]), ConstraintViolation::ExclusiveMinimumReachesMaximum),
        (obj(vec![("minLength", whole(3)), ("maxLength", whole(2))]), ConstraintViolation::LengthRange),
        (obj(vec![("minItems", whole(3)), ("maxItems", whole(2))]), ConstraintViolation::ItemsRange),
        (obj(vec![("multipleOf", float(0.0))]), ConstraintViolation::NonPositiveMultiple),
        (obj(vec![("minimum", float(-1.0)), ("maximum", float(-2.0))]), ConstraintViolation::MinimumAboveMaximum),
    ];
    for (schema, expected) in cases {
        match extract_constraints_from_object(&schema) {
            Err(Error::InvalidConstraint(v)) => assert_eq!(v, expected),
            other => panic!("expected {:?}, got {:?}", expected, other),
        }
    }
}

#[test]
fn draft_four_exclusive_flags() {
    let c = extract_constraints_from_object(&obj(vec![("minimum", whole(1)), ("exclusiveMinimum", Json::Bool(true)), ("maximum", whole(9))]))
        .unwrap()
        .unwrap();
    assert_eq!(c.minimum, None);
    assert_eq!(c.exclusive_minimum, Some(bits(1.0)));
    assert_eq!(c.maximum, Some(bits(9.0)));
    assert!(extract_constraints_from_object(&obj(vec![("type", text("string"))])).unwrap().is_none());
    assert!(extract_constraints_from_object(&Json::Bool(true)).unwrap().is_none());
    let zeros = Constraints {
        minimum: Some(bits(0.0)),
        maximum: Some(bits(-0.0)),
        exclusive_minimum: None,
        exclusive_maximum: None,
        multiple_of: Some(bits(0.5)),
        min_length: None,
        max_length: None,
        pattern: Some("^a".to_string()),
        min_items: None,
        max_items: None,
        unique_items: Some(true),
    };
    assert!(zeros.validate().is_ok());
}

#[test]
fn float_bits_compare_as_floats() {
    assert!(bits(-3.0).lt(&bits(-1.0)));
    assert!(bits(-0.0).le(&bits(0.0)) && bits(0.0).le(&bits(-0.0)));
    assert!(bits(0.0).float_eq(&bits(-0.0)));
    assert!(!bits(f64::NAN).float_eq(&bits(f64::NAN)));
    assert!(bits(f64::NAN).is_nan());
    assert!(!bits(f64::NAN).lt(&bits(1.0)));
    assert!(bits(1.0).lt(&bits(f64::INFINITY)));
}

#[test]
fn nan_literals_are_structurally_equal() {
    let e = |f: f64| {
        NamedType::Enum(EnumType {
            name: "E".to_string(),
            variants: vec![EnumVariant { value: LiteralType::Float(bits(f)), description: None }],
        })
    };
    assert!(types_are_structurally_equal(&e(f64::NAN), &e(f64::NAN)));
    assert!(!types_are_structurally_equal(&e(1.0), &e(2.0)));
}

#[test]
fn anonymous_schemas_get_fresh_names() {
    let a = obj(vec![("properties", obj(vec![("x", obj(vec![("type", text("integer"))]))]))]);
    let b = obj(vec![("properties", obj(vec![("y", obj(vec![("type", text("integer"))]))]))]);
    let spec = Spec::new("anon").service("s", |s| s.get("e", vec![], |e| e.query(Type::schema(a)).response(Type::schema(b))));
    let aat = AAT::from_spec(&spec).unwrap();
    let names: Vec<&str> = aat.types.iter().map(|t| t.name().as_str()).collect();
    assert_eq!(names, vec!["AnonymousType1", "AnonymousType2"]);
}

#[test]
fn definitions_are_registered() {
    let s = obj(vec![
        ("title", text("Root")),
        ("properties", obj(vec![("leaf", obj(vec![("$ref", text("#/$defs/Leaf"))]))])),
        ("$defs", obj(vec![("Leaf", obj(vec![("enum", arr(vec![text("x")]))])), ("Skip", whole(3))])),
    ]);
    let mut aat = AAT::new();
    aat.append_types_from_schema(&s, "Root").unwrap();
    let names: Vec<&str> = aat.types.iter().map(|t| t.name().as_str()).collect();
    assert_eq!(names, vec!["Root", "Leaf"]);
    assert!(aat.validate().is_ok());
}

#[test]
fn spec_shapes_reach_the_tree() {
    let spec = Spec::new("shapes")
        .header("x-version", HeaderValue::Literal("1".to_string()))
        .header("authorization", HeaderValue::Pattern { pattern: "Bearer {}".to_string(), name: "token".to_string(), ty: Type::schema(obj(vec![("type", text("string"))])) })
        .header("x-version", HeaderValue::Literal("2".to_string()))
        .service("s", |s| {
            s.header("x-tenant", HeaderValue::Type { name: "tenant".to_string(), ty: Type::schema(obj(vec![("type", text("string"))])) })
                .put("stream", vec![], |e| {
                    e.response(Type::stream(Type::tuple(vec![Type::void(), Type::schema(obj(vec![("type", text("integer"))]))]))).upgrade(Upgrade::Ws)
                })
        });
    let aat = AAT::from_spec(&spec).unwrap();
    let names: Vec<&str> = aat.headers.iter().map(|h| h.name.as_str()).collect();
    assert_eq!(names, vec!["authorization", "x-version"]);
    assert!(matches!(&aat.headers[1].value, AatHeaderValue::Literal(v) if v == "2"));
    assert!(matches!(&aat.headers[0].value, AatHeaderValue::Pattern { param_name, .. } if param_name == "token"));
    assert!(matches!(&aat.services[0].headers[0].value, AatHeaderValue::Parameter { name, .. } if name == "tenant"));
    let e = &aat.services[0].endpoints[0];
    assert_eq!(e.method, damascus::types::HttpMethod::Put);
    assert_eq!(e.upgrade, Some(damascus::types::Upgrade::Ws));
    match &e.response {
        FieldType::Stream(inner) => assert!(matches!(&**inner, FieldType::Tuple(parts) if parts.len() == 2)),
        other => panic!("expected a stream, got {:?}", other),
    }
}

#[test]
fn unsupported_spec_types_fail_the_build() {
    let named = Spec::new("n").service("s", |s| s.post("e", vec![], |e| e.body(Type::named_tuple(vec![]))));
    assert!(matches!(AAT::from_spec(&named), Err(Error::NamedTupleUnsupported)));
    let listed = Spec::new("l").service("s", |s| {
        s.delete("e", vec![PathSegment::Type { name: "ids".to_string(), ty: Type::list(Type::void()) }], |e| e)
    });
    assert!(matches!(AAT::from_spec(&listed), Err(Error::InvalidPathParameter(PathParameterShape::List))));
}

#[test]
fn unresolved_response_is_located() {
    let spec = Spec::new("r").service("s", |s| {
        s.patch("e", vec![], |e| e.response(Type::schema(obj(vec![("$ref", text("#/$defs/Missing"))]))))
    });
    let aat = AAT::from_spec(&spec).unwrap();
    assert!(matches!(
        aat.validate(),
        Err(Error::UnresolvedReference { location: Location::Response { endpoint }, name }) if endpoint == "e" && name == "Missing"
    ));
}

#[test]
fn wrapping_types() {
    let t = Type::schema(obj(vec![("type", text("integer"))]));
    assert!(matches!(t.wrap_list(), Type::List(_)));
    assert!(matches!(t.wrap_optional(), Type::Optional(_)));
    assert!(matches!(t.wrap_stream(), Type::Stream(_)));
    let e = damascus::spec::Endpoint::new("x", Method::Get, vec![]);
    assert_eq!(e.method(), Method::Get);
    assert!(e.query_type().is_none());
}
