use vstd::prelude::*;
use crate::float::FloatBits;
use crate::types::{
    Constraints, ConstraintsV, DiscriminatorV, EnumType, EnumV, FieldType, FieldTypeV, LiteralType, LiteralV, ModeV,
    NamedType, NamedTypeV, ObjectType, ObjectV, PrimitiveType, UnionType, UnionTypeVariantMode, UnionV, Discriminator,
    lemma_field_type_lists, opt_constraints, views_of,
};
use crate::schema::opt_discriminator;
use crate::text::same_text;

verus! {

broadcast use vstd::std_specs::vec::group_vec_axioms;

/// Two floats are the same value: equal as floats, or both NaN.
pub open spec fn same_float(a: FloatBits, b: FloatBits) -> bool {
    (a.is_nan_spec() && b.is_nan_spec()) || a.eq_spec(b)
}

pub open spec fn same_opt_float(a: Option<FloatBits>, b: Option<FloatBits>) -> bool {
    match (a, b) {
        (None, None) => true,
        (Some(x), Some(y)) => same_float(x, y),
        _ => false,
    }
}

pub open spec fn literals_equal(a: LiteralV, b: LiteralV) -> bool {
    match (a, b) {
        (LiteralV::String(x), LiteralV::String(y)) => x == y,
        (LiteralV::Int(x), LiteralV::Int(y)) => x == y,
        (LiteralV::Float(x), LiteralV::Float(y)) => same_float(x, y),
        (LiteralV::Bool(x), LiteralV::Bool(y)) => x == y,
        (LiteralV::Null, LiteralV::Null) => true,
        _ => false,
    }
}

pub open spec fn field_types_equal(a: FieldTypeV, b: FieldTypeV) -> bool
    decreases a,
{
    match (a, b) {
        (FieldTypeV::Primitive(x), FieldTypeV::Primitive(y)) => x == y,
        (FieldTypeV::Literal(x), FieldTypeV::Literal(y)) => literals_equal(x, y),
        (FieldTypeV::Optional(x), FieldTypeV::Optional(y)) => field_types_equal(*x, *y),
        (FieldTypeV::List(x), FieldTypeV::List(y)) => field_types_equal(*x, *y),
        (FieldTypeV::Dictionary(x), FieldTypeV::Dictionary(y)) => field_types_equal(*x, *y),
        (FieldTypeV::Stream(x), FieldTypeV::Stream(y)) => field_types_equal(*x, *y),
        (FieldTypeV::Reference(x), FieldTypeV::Reference(y)) => x == y,
        (FieldTypeV::Intersection(xs), FieldTypeV::Intersection(ys)) => xs.len() == ys.len()
            && forall|i: int| 0 <= i < xs.len() ==> field_types_equal(#[trigger] xs[i], ys[i]),
        (FieldTypeV::Tuple(xs), FieldTypeV::Tuple(ys)) => xs.len() == ys.len()
            && forall|i: int| 0 <= i < xs.len() ==> field_types_equal(#[trigger] xs[i], ys[i]),
        (FieldTypeV::Any, FieldTypeV::Any) => true,
        _ => false,
    }
}

pub open spec fn constraints_equal(a: Option<ConstraintsV>, b: Option<ConstraintsV>) -> bool {
    match (a, b) {
        (None, None) => true,
        (Some(x), Some(y)) => {
            &&& same_opt_float(x.minimum, y.minimum)
            &&& same_opt_float(x.maximum, y.maximum)
            &&& same_opt_float(x.exclusive_minimum, y.exclusive_minimum)
            &&& same_opt_float(x.exclusive_maximum, y.exclusive_maximum)
            &&& same_opt_float(x.multiple_of, y.multiple_of)
            &&& x.min_length == y.min_length
            &&& x.max_length == y.max_length
            &&& x.pattern == y.pattern
            &&& x.min_items == y.min_items
            &&& x.max_items == y.max_items
            &&& x.unique_items == y.unique_items
        },
        _ => false,
    }
}

/// Same field count, and field by field the same name, field type and constraints.
pub open spec fn objects_equal(a: ObjectV, b: ObjectV) -> bool {
    a.fields.len() == b.fields.len() && forall|i: int|
        0 <= i < a.fields.len() ==> {
            &&& (#[trigger] a.fields[i]).name == b.fields[i].name
            &&& field_types_equal(a.fields[i].ty, b.fields[i].ty)
            &&& constraints_equal(a.fields[i].constraints, b.fields[i].constraints)
        }
}

pub open spec fn discriminators_equal(a: Option<DiscriminatorV>, b: Option<DiscriminatorV>) -> bool {
    match (a, b) {
        (None, None) => true,
        (Some(x), Some(y)) => x.property_name == y.property_name && x.mapping == y.mapping,
        _ => false,
    }
}

pub open spec fn modes_equal(a: ModeV, b: ModeV) -> bool {
    match (a, b) {
        (ModeV::Object(x), ModeV::Object(y)) => objects_equal(x, y),
        (ModeV::Literal(x), ModeV::Literal(y)) => literals_equal(x, y),
        _ => false,
    }
}

pub open spec fn unions_equal(a: UnionV, b: UnionV) -> bool {
    &&& a.variants.len() == b.variants.len()
    &&& discriminators_equal(a.discriminator, b.discriminator)
    &&& forall|i: int|
        0 <= i < a.variants.len() ==> (#[trigger] a.variants[i]).name == b.variants[i].name
            && modes_equal(a.variants[i].mode, b.variants[i].mode)
}

pub open spec fn enums_equal(a: EnumV, b: EnumV) -> bool {
    a.variants.len() == b.variants.len() && forall|i: int|
        0 <= i < a.variants.len() ==> literals_equal((#[trigger] a.variants[i]).value, b.variants[i].value)
            && a.variants[i].description == b.variants[i].description
}

/// Structural equality of named types, their names aside.
pub open spec fn structurally_equal(a: NamedTypeV, b: NamedTypeV) -> bool {
    match (a, b) {
        (NamedTypeV::Object(x), NamedTypeV::Object(y)) => objects_equal(x, y),
        (NamedTypeV::Union(x), NamedTypeV::Union(y)) => unions_equal(x, y),
        (NamedTypeV::Enum(x), NamedTypeV::Enum(y)) => enums_equal(x, y),
        _ => false,
    }
}

fn floats_same(a: &FloatBits, b: &FloatBits) -> (r: bool)
    ensures
        r == same_float(*a, *b),
{
    (a.is_nan() && b.is_nan()) || a.float_eq(b)
}

fn opt_floats_same(a: &Option<FloatBits>, b: &Option<FloatBits>) -> (r: bool)
    ensures
        r == same_opt_float(*a, *b),
{
    match (a, b) {
        (None, None) => true,
        (Some(x), Some(y)) => floats_same(x, y),
        _ => false,
    }
}

fn opt_text_equal(a: &Option<String>, b: &Option<String>) -> (r: bool)
    ensures
        r == (crate::types::opt_text(*a) == crate::types::opt_text(*b)),
{
    match (a, b) {
        (None, None) => true,
        (Some(x), Some(y)) => same_text(x.as_str(), y.as_str()),
        _ => false,
    }
}

fn literals_are_equal(a: &LiteralType, b: &LiteralType) -> (r: bool)
    ensures
        r == literals_equal(a@, b@),
{
    match (a, b) {
        (LiteralType::String(x), LiteralType::String(y)) => same_text(x.as_str(), y.as_str()),
        (LiteralType::Int(x), LiteralType::Int(y)) => x == y,
        (LiteralType::Float(x), LiteralType::Float(y)) => floats_same(x, y),
        (LiteralType::Bool(x), LiteralType::Bool(y)) => x == y,
        (LiteralType::Null, LiteralType::Null) => true,
        _ => false,
    }
}

fn primitives_are_equal(a: &PrimitiveType, b: &PrimitiveType) -> (r: bool)
    ensures
        r == (*a == *b),
{
    match (a, b) {
        (PrimitiveType::Bool, PrimitiveType::Bool) => true,
        (PrimitiveType::Int, PrimitiveType::Int) => true,
        (PrimitiveType::Float, PrimitiveType::Float) => true,
        (PrimitiveType::String(x), PrimitiveType::String(y)) => *x == *y,
        _ => false,
    }
}

fn field_type_lists_equal(xs: &Vec<FieldType>, ys: &Vec<FieldType>, Ghost(parent): Ghost<FieldType>) -> (r: bool)
    requires
        decreases_to!(parent => *xs),
    ensures
        r == (views_of(xs@).len() == views_of(ys@).len() && forall|i: int|
            0 <= i < views_of(xs@).len() ==> field_types_equal(#[trigger] views_of(xs@)[i], views_of(ys@)[i])),
    decreases parent, 0nat,
{
    if xs.len() != ys.len() {
        return false;
    }
    let mut i: usize = 0;
    while i < xs.len()
        invariant
            i <= xs.len(),
            xs.len() == ys.len(),
            decreases_to!(parent => *xs),
            forall|k: int| 0 <= k < i ==> field_types_equal(#[trigger] views_of(xs@)[k], views_of(ys@)[k]),
        decreases xs.len() - i,
    {
        proof { assert(decreases_to!(*xs => xs[i as int])); }
        if !field_types_are_equal(&xs[i], &ys[i]) {
            assert(views_of(xs@)[i as int] == xs[i as int]@);
            return false;
        }
        i += 1;
    }
    true
}

fn field_types_are_equal(a: &FieldType, b: &FieldType) -> (r: bool)
    ensures
        r == field_types_equal(a@, b@),
    decreases a, 1nat,
{
    match (a, b) {
        (FieldType::Primitive(x), FieldType::Primitive(y)) => primitives_are_equal(x, y),
        (FieldType::Literal(x), FieldType::Literal(y)) => literals_are_equal(x, y),
        (FieldType::Optional(x), FieldType::Optional(y)) => field_types_are_equal(x, y),
        (FieldType::List(x), FieldType::List(y)) => field_types_are_equal(x, y),
        (FieldType::Dictionary(x), FieldType::Dictionary(y)) => field_types_are_equal(x, y),
        (FieldType::Stream(x), FieldType::Stream(y)) => field_types_are_equal(x, y),
        (FieldType::Reference(x), FieldType::Reference(y)) => same_text(x.as_str(), y.as_str()),
        (FieldType::Intersection(xs), FieldType::Intersection(ys)) => {
            proof {
                assert(decreases_to!(*a => a->Intersection_0));
                lemma_field_type_lists(*xs);
                lemma_field_type_lists(*ys);
            }
            field_type_lists_equal(xs, ys, Ghost(*a))
        },
        (FieldType::Tuple(xs), FieldType::Tuple(ys)) => {
            proof {
                assert(decreases_to!(*a => a->Tuple_0));
                lemma_field_type_lists(*xs);
                lemma_field_type_lists(*ys);
            }
            field_type_lists_equal(xs, ys, Ghost(*a))
        },
        (FieldType::Any, FieldType::Any) => true,
        _ => false,
    }
}

fn constraints_are_equal(a: &Option<Constraints>, b: &Option<Constraints>) -> (r: bool)
    ensures
        r == constraints_equal(opt_constraints(*a), opt_constraints(*b)),
{
    match (a, b) {
        (None, None) => true,
        (Some(x), Some(y)) => {
            opt_floats_same(&x.minimum, &y.minimum) && opt_floats_same(&x.maximum, &y.maximum)
                && opt_floats_same(&x.exclusive_minimum, &y.exclusive_minimum)
                && opt_floats_same(&x.exclusive_maximum, &y.exclusive_maximum)
                && opt_floats_same(&x.multiple_of, &y.multiple_of) && x.min_length == y.min_length
                && x.max_length == y.max_length && opt_text_equal(&x.pattern, &y.pattern)
                && x.min_items == y.min_items && x.max_items == y.max_items
                && x.unique_items == y.unique_items
        },
        _ => false,
    }
}

fn objects_are_equal(a: &ObjectType, b: &ObjectType) -> (r: bool)
    ensures
        r == objects_equal(a@, b@),
{
    if a.fields.len() != b.fields.len() {
        return false;
    }
    let mut i: usize = 0;
    while i < a.fields.len()
        invariant
            i <= a.fields.len(),
            a.fields.len() == b.fields.len(),
            forall|k: int|
                0 <= k < i ==> {
                    &&& (#[trigger] a@.fields[k]).name == b@.fields[k].name
                    &&& field_types_equal(a@.fields[k].ty, b@.fields[k].ty)
                    &&& constraints_equal(a@.fields[k].constraints, b@.fields[k].constraints)
                },
        decreases a.fields.len() - i,
    {
        let x = &a.fields[i];
        let y = &b.fields[i];
        if !(same_text(x.name.as_str(), y.name.as_str()) && field_types_are_equal(&x.ty, &y.ty)
            && constraints_are_equal(&x.constraints, &y.constraints)) {
            assert(a@.fields[i as int] == x@);
            return false;
        }
        i += 1;
    }
    true
}

fn pairs_equal(a: &Vec<(String, String)>, b: &Vec<(String, String)>) -> (r: bool)
    ensures
        r == (a@.map_values(|p: (String, String)| (p.0@, p.1@)) == b@.map_values(|p: (String, String)| (p.0@, p.1@))),
{
    let ghost av = a@.map_values(|p: (String, String)| (p.0@, p.1@));
    let ghost bv = b@.map_values(|p: (String, String)| (p.0@, p.1@));
    if a.len() != b.len() {
        assert(av.len() != bv.len());
        return false;
    }
    let mut i: usize = 0;
    while i < a.len()
        invariant
            i <= a.len(),
            a.len() == b.len(),
            av == a@.map_values(|p: (String, String)| (p.0@, p.1@)),
            bv == b@.map_values(|p: (String, String)| (p.0@, p.1@)),
            forall|k: int| 0 <= k < i ==> av[k] == bv[k],
        decreases a.len() - i,
    {
        if !(same_text(a[i].0.as_str(), b[i].0.as_str()) && same_text(a[i].1.as_str(), b[i].1.as_str())) {
            assert(av[i as int] != bv[i as int]);
            return false;
        }
        i += 1;
    }
    assert(av =~= bv);
    true
}

fn discriminators_are_equal(a: &Option<Discriminator>, b: &Option<Discriminator>) -> (r: bool)
    ensures
        r == discriminators_equal(opt_discriminator(*a), opt_discriminator(*b)),
{
    match (a, b) {
        (None, None) => true,
        (Some(x), Some(y)) => {
            if !same_text(x.property_name.as_str(), y.property_name.as_str()) {
                return false;
            }
            match (&x.mapping, &y.mapping) {
                (None, None) => true,
                (Some(m), Some(n)) => pairs_equal(m, n),
                _ => false,
            }
        },
        _ => false,
    }
}

fn variant_modes_are_equal(a: &UnionTypeVariantMode, b: &UnionTypeVariantMode) -> (r: bool)
    ensures
        r == modes_equal(a@, b@),
{
    match (a, b) {
        (UnionTypeVariantMode::Object(x), UnionTypeVariantMode::Object(y)) => objects_are_equal(x, y),
        (UnionTypeVariantMode::Literal(x), UnionTypeVariantMode::Literal(y)) => literals_are_equal(x, y),
        _ => false,
    }
}

fn unions_are_equal(a: &UnionType, b: &UnionType) -> (r: bool)
    ensures
        r == unions_equal(a@, b@),
{
    if a.variants.len() != b.variants.len() {
        return false;
    }
    if !discriminators_are_equal(&a.discriminator, &b.discriminator) {
        return false;
    }
    let mut i: usize = 0;
    while i < a.variants.len()
        invariant
            i <= a.variants.len(),
            a.variants.len() == b.variants.len(),
            forall|k: int|
                0 <= k < i ==> (#[trigger] a@.variants[k]).name == b@.variants[k].name
                    && modes_equal(a@.variants[k].mode, b@.variants[k].mode),
        decreases a.variants.len() - i,
    {
        let x = &a.variants[i];
        let y = &b.variants[i];
        if !(opt_text_equal(&x.name, &y.name) && variant_modes_are_equal(&x.mode, &y.mode)) {
            assert(a@.variants[i as int] == x@);
            return false;
        }
        i += 1;
    }
    true
}

fn enums_are_equal(a: &EnumType, b: &EnumType) -> (r: bool)
    ensures
        r == enums_equal(a@, b@),
{
    if a.variants.len() != b.variants.len() {
        return false;
    }
    let mut i: usize = 0;
    while i < a.variants.len()
        invariant
            i <= a.variants.len(),
            a.variants.len() == b.variants.len(),
            forall|k: int|
                0 <= k < i ==> literals_equal((#[trigger] a@.variants[k]).value, b@.variants[k].value)
                    && a@.variants[k].description == b@.variants[k].description,
        decreases a.variants.len() - i,
    {
        let x = &a.variants[i];
        let y = &b.variants[i];
        if !(literals_are_equal(&x.value, &y.value) && opt_text_equal(&x.description, &y.description)) {
            assert(a@.variants[i as int] == x@);
            return false;
        }
        i += 1;
    }
    true
}

/// Whether two named types have the same structure, their names aside.
pub fn types_are_structurally_equal(a: &NamedType, b: &NamedType) -> (r: bool)
    ensures
        r == structurally_equal(a@, b@),
{
    match (a, b) {
        (NamedType::Object(x), NamedType::Object(y)) => objects_are_equal(x, y),
        (NamedType::Union(x), NamedType::Union(y)) => unions_are_equal(x, y),
        (NamedType::Enum(x), NamedType::Enum(y)) => enums_are_equal(x, y),
        _ => false,
    }
}

proof fn lemma_field_types_reflexive(a: FieldTypeV)
    ensures
        field_types_equal(a, a),
    decreases a,
{
    match a {
        FieldTypeV::Optional(x) => lemma_field_types_reflexive(*x),
        FieldTypeV::List(x) => lemma_field_types_reflexive(*x),
        FieldTypeV::Dictionary(x) => lemma_field_types_reflexive(*x),
        FieldTypeV::Stream(x) => lemma_field_types_reflexive(*x),
        FieldTypeV::Intersection(xs) => {
            assert forall|i: int| 0 <= i < xs.len() implies field_types_equal(#[trigger] xs[i], xs[i]) by {
                lemma_field_types_reflexive(xs[i]);
            }
        },
        FieldTypeV::Tuple(xs) => {
            assert forall|i: int| 0 <= i < xs.len() implies field_types_equal(#[trigger] xs[i], xs[i]) by {
                lemma_field_types_reflexive(xs[i]);
            }
        },
        _ => {},
    }
}

proof fn lemma_field_types_symmetric(a: FieldTypeV, b: FieldTypeV)
    requires
        field_types_equal(a, b),
    ensures
        field_types_equal(b, a),
    decreases a,
{
    match (a, b) {
        (FieldTypeV::Optional(x), FieldTypeV::Optional(y)) => lemma_field_types_symmetric(*x, *y),
        (FieldTypeV::List(x), FieldTypeV::List(y)) => lemma_field_types_symmetric(*x, *y),
        (FieldTypeV::Dictionary(x), FieldTypeV::Dictionary(y)) => lemma_field_types_symmetric(*x, *y),
        (FieldTypeV::Stream(x), FieldTypeV::Stream(y)) => lemma_field_types_symmetric(*x, *y),
        (FieldTypeV::Intersection(xs), FieldTypeV::Intersection(ys)) => {
            assert forall|i: int| 0 <= i < ys.len() implies field_types_equal(#[trigger] ys[i], xs[i]) by {
                lemma_field_types_symmetric(xs[i], ys[i]);
            }
        },
        (FieldTypeV::Tuple(xs), FieldTypeV::Tuple(ys)) => {
            assert forall|i: int| 0 <= i < ys.len() implies field_types_equal(#[trigger] ys[i], xs[i]) by {
                lemma_field_types_symmetric(xs[i], ys[i]);
            }
        },
        _ => {},
    }
}

proof fn lemma_field_types_transitive(a: FieldTypeV, b: FieldTypeV, c: FieldTypeV)
    requires
        field_types_equal(a, b),
        field_types_equal(b, c),
    ensures
        field_types_equal(a, c),
    decreases a,
{
    match (a, b, c) {
        (FieldTypeV::Optional(x), FieldTypeV::Optional(y), FieldTypeV::Optional(z)) => lemma_field_types_transitive(*x, *y, *z),
        (FieldTypeV::List(x), FieldTypeV::List(y), FieldTypeV::List(z)) => lemma_field_types_transitive(*x, *y, *z),
        (FieldTypeV::Dictionary(x), FieldTypeV::Dictionary(y), FieldTypeV::Dictionary(z)) => lemma_field_types_transitive(*x, *y, *z),
        (FieldTypeV::Stream(x), FieldTypeV::Stream(y), FieldTypeV::Stream(z)) => lemma_field_types_transitive(*x, *y, *z),
        (FieldTypeV::Intersection(xs), FieldTypeV::Intersection(ys), FieldTypeV::Intersection(zs)) => {
            assert forall|i: int| 0 <= i < xs.len() implies field_types_equal(#[trigger] xs[i], zs[i]) by {
                lemma_field_types_transitive(xs[i], ys[i], zs[i]);
            }
        },
        (FieldTypeV::Tuple(xs), FieldTypeV::Tuple(ys), FieldTypeV::Tuple(zs)) => {
            assert forall|i: int| 0 <= i < xs.len() implies field_types_equal(#[trigger] xs[i], zs[i]) by {
                lemma_field_types_transitive(xs[i], ys[i], zs[i]);
            }
        },
        _ => {},
    }
}

proof fn lemma_objects_equivalence(a: ObjectV, b: ObjectV, c: ObjectV)
    ensures
        objects_equal(a, a),
        objects_equal(a, b) ==> objects_equal(b, a),
        objects_equal(a, b) && objects_equal(b, c) ==> objects_equal(a, c),
{
    assert forall|i: int| 0 <= i < a.fields.len() implies field_types_equal(#[trigger] a.fields[i].ty, a.fields[i].ty) by {
        lemma_field_types_reflexive(a.fields[i].ty);
    }
    if objects_equal(a, b) {
        assert forall|i: int| 0 <= i < b.fields.len() implies field_types_equal(#[trigger] b.fields[i].ty, a.fields[i].ty) by {
            lemma_field_types_symmetric(a.fields[i].ty, b.fields[i].ty);
        }
        assert(objects_equal(b, a));
        if objects_equal(b, c) {
            assert forall|i: int| 0 <= i < a.fields.len() implies field_types_equal(#[trigger] a.fields[i].ty, c.fields[i].ty) by {
                assert(field_types_equal(a.fields[i].ty, b.fields[i].ty));
                assert(field_types_equal(b.fields[i].ty, c.fields[i].ty));
                lemma_field_types_transitive(a.fields[i].ty, b.fields[i].ty, c.fields[i].ty);
            }
        }
    }
}

proof fn lemma_unions_equivalence(a: UnionV, b: UnionV, c: UnionV)
    ensures
        unions_equal(a, a),
        unions_equal(a, b) ==> unions_equal(b, a),
        unions_equal(a, b) && unions_equal(b, c) ==> unions_equal(a, c),
{
    assert forall|i: int| 0 <= i < a.variants.len() implies modes_equal(#[trigger] a.variants[i].mode, a.variants[i].mode) by {
        if a.variants[i].mode is Object {
            let o = a.variants[i].mode->Object_0;
            lemma_objects_equivalence(o, o, o);
        }
    }
    if unions_equal(a, b) {
        assert forall|i: int| 0 <= i < b.variants.len() implies modes_equal(#[trigger] b.variants[i].mode, a.variants[i].mode) by {
            assert(modes_equal(a.variants[i].mode, b.variants[i].mode));
            if a.variants[i].mode is Object {
                let x = a.variants[i].mode->Object_0;
                let y = b.variants[i].mode->Object_0;
                lemma_objects_equivalence(x, y, y);
            }
        }
        if unions_equal(b, c) {
            assert forall|i: int| 0 <= i < a.variants.len() implies modes_equal(#[trigger] a.variants[i].mode, c.variants[i].mode) by {
                assert(modes_equal(a.variants[i].mode, b.variants[i].mode));
                assert(modes_equal(b.variants[i].mode, c.variants[i].mode));
                if a.variants[i].mode is Object {
                    let x = a.variants[i].mode->Object_0;
                    let y = b.variants[i].mode->Object_0;
                    let z = c.variants[i].mode->Object_0;
                    lemma_objects_equivalence(x, y, z);
                }
            }
        }
    }
}

/// Structural equality is an equivalence relation: reflexive, symmetric and
/// transitive, so that telling a repeated type from a collision does not
/// depend on the order in which types are met.
pub proof fn structural_equality_is_an_equivalence(a: NamedTypeV, b: NamedTypeV, c: NamedTypeV)
    ensures
        structurally_equal(a, a),
        structurally_equal(a, b) ==> structurally_equal(b, a),
        structurally_equal(a, b) && structurally_equal(b, c) ==> structurally_equal(a, c),
{
    match (a, b) {
        (NamedTypeV::Object(x), NamedTypeV::Object(y)) => lemma_objects_equivalence(x, y, y),
        (NamedTypeV::Union(x), NamedTypeV::Union(y)) => lemma_unions_equivalence(x, y, y),
        _ => {},
    }
    match (a, b, c) {
        (NamedTypeV::Object(x), NamedTypeV::Object(y), NamedTypeV::Object(z)) => lemma_objects_equivalence(x, y, z),
        (NamedTypeV::Union(x), NamedTypeV::Union(y), NamedTypeV::Union(z)) => lemma_unions_equivalence(x, y, z),
        _ => {},
    }
    match a {
        NamedTypeV::Object(x) => lemma_objects_equivalence(x, x, x),
        NamedTypeV::Union(x) => lemma_unions_equivalence(x, x, x),
        NamedTypeV::Enum(_) => {},
    }
}

} // verus!
