use damascus::aat::AAT;
use damascus::error::{ConstraintViolation, Error, Location, Unstringifiable};
use damascus::float::FloatBits;
use damascus::json::{Json, Number};
use damascus::schema::schema_to_field_type;
use damascus::spec::{PathSegment, Spec, Type};
use damascus::types::{FieldType, LiteralType, NamedType, PrimitiveType};

fn text(x: &str) -> Json {
    Json::String(x.to_string())
}

fn integer(i: i64) -> Json {
    let unsigned = if i >= 0 { Some(i as u64) } else { None };
    Json::Number(Number::new(Some(i), unsigned, FloatBits::from_bits((i as f64).to_bits())))
}

fn arr(items: Vec<Json>) -> Json {
    Json::Array(items)
}

fn obj(entries: Vec<(&str, Json)>) -> Json {
    Json::Object(entries.into_iter().map(|(k, v)| (k.to_string(), v)).collect())
}

fn operation_enum() -> Json {
    obj(vec![
        ("title", text("EnumOperation")),
        ("type", text("string")),
        ("enum", arr(vec![text("Add"), text("Subtract")])),
    ])
}

fn input_schema() -> Json {
    obj(vec![
        ("title", text("Input")),
        ("type", text("object")),
        ("properties", obj(vec![("a", obj(vec![("type", text("integer"))])), ("b", obj(vec![("type", text("integer"))]))])),
        ("required", arr(vec![text("a"), text("b")])),
    ])
}

fn output_schema() -> Json {
    obj(vec![
        ("title", text("Output")),
        (
            "oneOf",
            arr(vec![obj(vec![
                ("type", text("object")),
                ("properties", obj(vec![("result", obj(vec![("type", text("integer"))]))])),
                ("required", arr(vec![text("result")])),
            ])]),
        ),
    ])
}

fn math_spec() -> Spec {
    Spec::new("calculator").service("math", |s| {
        s.post(
            "operation",
            vec![
                PathSegment::Literal("math".to_string()),
                PathSegment::Type { name: "operation".to_string(), ty: Type::schema(operation_enum()) },
            ],
            |e| e.body(Type::schema(input_schema())).response(Type::schema(output_schema())),
        )
    })
}

fn type_names(aat: &AAT) -> Vec<String> {
    aat.types.iter().map(|t| t.name().clone()).collect()
}

#[test]
fn round_trip_math_service() {
    let aat = AAT::from_spec(&math_spec()).expect("build succeeds");
    assert!(aat.validate().is_ok());
    assert_eq!(type_names(&aat), vec!["EnumOperation", "Input", "Output"]);
    assert_eq!(aat.services.len(), 1);
    let endpoint = &aat.services[0].endpoints[0];
    assert_eq!(endpoint.name, "operation");
    assert_eq!(endpoint.path.len(), 2);
    assert!(matches!(&endpoint.path[0], damascus::types::PathSegment::Literal(l) if l == "math"));
    assert!(matches!(
        &endpoint.path[1],
        damascus::types::PathSegment::Parameter { name, ty: FieldType::Reference(r) } if name == "operation" && r == "EnumOperation"
    ));
    assert!(matches!(&endpoint.body, Some(FieldType::Reference(r)) if r == "Input"));
    assert!(matches!(&endpoint.response, FieldType::Reference(r) if r == "Output"));
    match &aat.types[2] {
        NamedType::Union(u) => {
            assert_eq!(u.variants.len(), 1);
            assert_eq!(u.variants[0].name.as_deref(), Some("result"));
        },
        other => panic!("expected a union, got {:?}", other),
    }
}

#[test]
fn nullable_string_becomes_optional() {
    let t = schema_to_field_type(&obj(vec![("type", arr(vec![text("string"), text("null")]))])).unwrap();
    assert!(matches!(t, FieldType::Optional(inner) if matches!(*inner, FieldType::Primitive(PrimitiveType::String(None)))));
}

#[test]
fn null_alone_is_a_null_literal() {
    let t = schema_to_field_type(&obj(vec![("type", text("null"))])).unwrap();
    assert!(matches!(t, FieldType::Literal(LiteralType::Null)));
}

fn bounded(minimum: i64, maximum: i64) -> Spec {
    let schema = obj(vec![
        ("title", text("Bounded")),
        ("type", text("object")),
        ("properties", obj(vec![("value", obj(vec![("type", text("integer")), ("minimum", integer(minimum)), ("maximum", integer(maximum))]))])),
        ("required", arr(vec![text("value")])),
    ]);
    Spec::new("bounds").service("values", |s| s.get("read", vec![], |e| e.response(Type::schema(schema))))
}

#[test]
fn inverted_bounds_fail_the_build() {
    let r = AAT::from_spec(&bounded(10, 5));
    assert!(matches!(r, Err(Error::InvalidConstraint(ConstraintViolation::MinimumAboveMaximum))));
}

#[test]
fn ordered_bounds_build() {
    let aat = AAT::from_spec(&bounded(0, 10)).expect("consistent bounds");
    match &aat.types[0] {
        NamedType::Object(o) => {
            let c = o.fields[0].constraints.as_ref().expect("constraints kept");
            assert_eq!(c.minimum, Some(FloatBits::from_bits(0f64.to_bits())));
            assert_eq!(c.maximum, Some(FloatBits::from_bits(10f64.to_bits())));
        },
        other => panic!("expected an object, got {:?}", other),
    }
}

#[test]
fn same_schema_twice_registers_once() {
    let mut aat = AAT::new();
    aat.append_types_from_schema(&input_schema(), "Input").unwrap();
    aat.append_types_from_schema(&input_schema(), "Input").unwrap();
    assert_eq!(type_names(&aat), vec!["Input"]);
}

fn x_object() -> Json {
    obj(vec![("properties", obj(vec![("a", obj(vec![("type", text("integer"))]))])), ("required", arr(vec![text("a")]))])
}

fn x_enum() -> Json {
    obj(vec![("enum", arr(vec![text("A")]))])
}

#[test]
fn different_types_under_one_name_collide() {
    let mut aat = AAT::new();
    aat.append_types_from_schema(&x_object(), "X").unwrap();
    let r = aat.append_types_from_schema(&x_enum(), "X");
    assert!(matches!(r, Err(Error::NameCollision(n)) if n == "X"));

    let mut other = AAT::new();
    other.append_types_from_schema(&x_enum(), "X").unwrap();
    let r = other.append_types_from_schema(&x_object(), "X");
    assert!(matches!(r, Err(Error::NameCollision(n)) if n == "X"));
}

#[test]
fn dangling_reference_fails_validation() {
    let mut aat = AAT::new();
    let holder = obj(vec![("properties", obj(vec![("g", obj(vec![("$ref", text("#/$defs/Ghost"))]))])), ("required", arr(vec![text("g")]))]);
    aat.append_types_from_schema(&holder, "Holder").unwrap();
    match aat.validate() {
        Err(Error::UnresolvedReference { location: Location::Field { owner, field }, name }) => {
            assert_eq!(owner, "Holder");
            assert_eq!(field, "g");
            assert_eq!(name, "Ghost");
        },
        other => panic!("expected an unresolved reference, got {:?}", other),
    }
}

fn with_path_parameter(schema: Json) -> Spec {
    Spec::new("paths").service("items", |s| {
        s.get(
            "item",
            vec![PathSegment::Literal("items".to_string()), PathSegment::Type { name: "id".to_string(), ty: Type::schema(schema) }],
            |e| e,
        )
    })
}

#[test]
fn optional_path_parameter_fails_validation() {
    let aat = AAT::from_spec(&with_path_parameter(obj(vec![("type", arr(vec![text("string"), text("null")]))]))).unwrap();
    assert!(matches!(
        aat.validate(),
        Err(Error::NotStringifiable { parameter, reason: Unstringifiable::Optional, .. }) if parameter == "id"
    ));
}

#[test]
fn string_enum_path_parameter_passes_validation() {
    let aat = AAT::from_spec(&with_path_parameter(operation_enum())).unwrap();
    assert!(aat.validate().is_ok());
}

#[test]
fn object_path_parameter_fails_validation() {
    let object = obj(vec![
        ("title", text("Thing")),
        ("properties", obj(vec![("field", obj(vec![("type", text("string"))]))])),
        ("required", arr(vec![text("field")])),
    ]);
    let aat = AAT::from_spec(&with_path_parameter(object)).unwrap();
    assert!(matches!(
        aat.validate(),
        Err(Error::NotStringifiable { parameter, reason: Unstringifiable::ObjectType, .. }) if parameter == "id"
    ));
}

#[test]
fn building_twice_gives_the_same_order() {
    let spec = Spec::new("many")
        .service("zeta", |s| s.get("b", vec![], |e| e.response(Type::schema(input_schema()))).get("a", vec![], |e| e))
        .service("alpha", |s| s.get("only", vec![], |e| e.response(Type::schema(output_schema()))));
    let first = AAT::from_spec(&spec).unwrap();
    let second = AAT::from_spec(&spec).unwrap();
    assert_eq!(type_names(&first), type_names(&second));
    assert_eq!(type_names(&first), vec!["Input", "Output"]);
    let services: Vec<&str> = first.services.iter().map(|s| s.name.as_str()).collect();
    assert_eq!(services, vec!["alpha", "zeta"]);
    let endpoints: Vec<&str> = first.services[1].endpoints.iter().map(|e| e.name.as_str()).collect();
    assert_eq!(endpoints, vec!["a", "b"]);
    let again: Vec<&str> = second.services[1].endpoints.iter().map(|e| e.name.as_str()).collect();
    assert_eq!(endpoints, again);
}
