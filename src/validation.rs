use vstd::prelude::*;
use crate::aat::{path_shape, service_views, type_named, type_views};
use crate::error::{Error, ErrorV, Location, LocationV, PathParameterShape, Unstringifiable};
use crate::spec::Type;
use crate::text::same_text;
use crate::types::{
    EndpointV, FieldType, FieldTypeV, Field, FieldV, LiteralType, ModeV, NamedType, NamedTypeV, PathSegment,
    PathSegmentV, Service, ServiceV, Endpoint, UnionTypeVariantMode, lemma_field_type_lists, views_of,
};

verus! {

broadcast use vstd::std_specs::vec::group_vec_axioms;

/// Some type of `types` is named `name`.
pub open spec fn is_defined(types: Seq<NamedTypeV>, name: Seq<char>) -> bool {
    exists|i: int| 0 <= i < types.len() && types[i].name() == name
}

/// The first reference of `t`, in traversal order, that names no type of `types`.
pub open spec fn first_unresolved(t: FieldTypeV, types: Seq<NamedTypeV>) -> Option<Seq<char>>
    decreases t, 0nat,
{
    match t {
        FieldTypeV::Reference(n) => if is_defined(types, n) {
            None
        } else {
            Some(n)
        },
        FieldTypeV::Optional(x) => first_unresolved(*x, types),
        FieldTypeV::List(x) => first_unresolved(*x, types),
        FieldTypeV::Dictionary(x) => first_unresolved(*x, types),
        FieldTypeV::Stream(x) => first_unresolved(*x, types),
        FieldTypeV::Intersection(xs) => first_unresolved_upto(xs, types, xs.len()),
        FieldTypeV::Tuple(xs) => first_unresolved_upto(xs, types, xs.len()),
        _ => None,
    }
}

pub open spec fn first_unresolved_upto(xs: Seq<FieldTypeV>, types: Seq<NamedTypeV>, n: nat) -> Option<Seq<char>>
    decreases xs, n,
{
    if n == 0 || n > xs.len() {
        None
    } else {
        match first_unresolved_upto(xs, types, (n - 1) as nat) {
            Some(x) => Some(x),
            None => first_unresolved(xs[n - 1], types),
        }
    }
}

/// Why a path parameter of type `t` cannot be written as one string, if it cannot.
pub open spec fn unstringifiable(t: FieldTypeV, types: Seq<NamedTypeV>) -> Option<Unstringifiable> {
    match t {
        FieldTypeV::Primitive(_) => None,
        FieldTypeV::Literal(_) => None,
        FieldTypeV::Reference(n) => match type_named(types, n) {
            None => Some(Unstringifiable::UndefinedType),
            Some(NamedTypeV::Enum(en)) => if forall|i: int|
                0 <= i < en.variants.len() ==> (#[trigger] en.variants[i]).value is String {
                None
            } else {
                Some(Unstringifiable::NonStringEnum)
            },
            Some(NamedTypeV::Object(_)) => Some(Unstringifiable::ObjectType),
            Some(NamedTypeV::Union(_)) => Some(Unstringifiable::UnionType),
        },
        FieldTypeV::Optional(_) => Some(Unstringifiable::Optional),
        FieldTypeV::List(_) => Some(Unstringifiable::List),
        FieldTypeV::Dictionary(_) => Some(Unstringifiable::Dictionary),
        FieldTypeV::Intersection(_) => Some(Unstringifiable::Intersection),
        FieldTypeV::Tuple(_) => Some(Unstringifiable::Tuple),
        FieldTypeV::Stream(_) => Some(Unstringifiable::Stream),
        FieldTypeV::Any => Some(Unstringifiable::Any),
    }
}

pub open spec fn unresolved_at(loc: LocationV, t: FieldTypeV, types: Seq<NamedTypeV>) -> Option<ErrorV> {
    match first_unresolved(t, types) {
        Some(n) => Some(ErrorV::UnresolvedReference { location: loc, name: n }),
        None => None,
    }
}

/// The error a path segment of endpoint `e` gives: an unresolved reference,
/// else a type that is not one string.
pub open spec fn segment_error(e: Seq<char>, seg: PathSegmentV, types: Seq<NamedTypeV>) -> Option<ErrorV> {
    match seg {
        PathSegmentV::Literal(_) => None,
        PathSegmentV::Parameter { name, ty } => match unresolved_at(LocationV::PathParameter { endpoint: e, parameter: name }, ty, types) {
            Some(x) => Some(x),
            None => match unstringifiable(ty, types) {
                Some(reason) => Some(ErrorV::NotStringifiable { endpoint: e, parameter: name, reason }),
                None => None,
            },
        },
    }
}

pub open spec fn path_error_upto(e: Seq<char>, segs: Seq<PathSegmentV>, types: Seq<NamedTypeV>, n: nat) -> Option<ErrorV>
    decreases n,
{
    if n == 0 || n > segs.len() {
        None
    } else {
        match path_error_upto(e, segs, types, (n - 1) as nat) {
            Some(x) => Some(x),
            None => segment_error(e, segs[n - 1], types),
        }
    }
}

/// An endpoint's first error: in its path, then its query, body and response.
pub open spec fn endpoint_error(e: EndpointV, types: Seq<NamedTypeV>) -> Option<ErrorV> {
    match path_error_upto(e.name, e.path, types, e.path.len()) {
        Some(x) => Some(x),
        None => match (match e.query {
            Some(q) => unresolved_at(LocationV::Query { endpoint: e.name }, q, types),
            None => None,
        }) {
            Some(x) => Some(x),
            None => match (match e.body {
                Some(b) => unresolved_at(LocationV::Body { endpoint: e.name }, b, types),
                None => None,
            }) {
                Some(x) => Some(x),
                None => unresolved_at(LocationV::Response { endpoint: e.name }, e.response, types),
            },
        },
    }
}

pub open spec fn endpoints_error_upto(es: Seq<EndpointV>, types: Seq<NamedTypeV>, n: nat) -> Option<ErrorV>
    decreases n,
{
    if n == 0 || n > es.len() {
        None
    } else {
        match endpoints_error_upto(es, types, (n - 1) as nat) {
            Some(x) => Some(x),
            None => endpoint_error(es[n - 1], types),
        }
    }
}

pub open spec fn services_error_upto(ss: Seq<ServiceV>, types: Seq<NamedTypeV>, n: nat) -> Option<ErrorV>
    decreases n,
{
    if n == 0 || n > ss.len() {
        None
    } else {
        match services_error_upto(ss, types, (n - 1) as nat) {
            Some(x) => Some(x),
            None => endpoints_error_upto(ss[n - 1].endpoints, types, ss[n - 1].endpoints.len()),
        }
    }
}

/// Where a field of `owner` is reported: in the type itself, or in the
/// union variant `variant`.
pub open spec fn field_location(owner: Seq<char>, variant: Option<Option<Seq<char>>>, field: Seq<char>) -> LocationV {
    match variant {
        None => LocationV::Field { owner, field },
        Some(v) => LocationV::VariantField { owner, variant: v, field },
    }
}

pub open spec fn fields_error_upto(
    owner: Seq<char>,
    variant: Option<Option<Seq<char>>>,
    fields: Seq<FieldV>,
    types: Seq<NamedTypeV>,
    n: nat,
) -> Option<ErrorV>
    decreases n,
{
    if n == 0 || n > fields.len() {
        None
    } else {
        match fields_error_upto(owner, variant, fields, types, (n - 1) as nat) {
            Some(x) => Some(x),
            None => unresolved_at(field_location(owner, variant, fields[n - 1].name), fields[n - 1].ty, types),
        }
    }
}

pub open spec fn named_type_error(t: NamedTypeV, types: Seq<NamedTypeV>) -> Option<ErrorV> {
    match t {
        NamedTypeV::Object(o) => fields_error_upto(o.name, None, o.fields, types, o.fields.len()),
        NamedTypeV::Union(u) => variants_error_upto(u.name, u.variants, types, u.variants.len()),
        NamedTypeV::Enum(_) => None,
    }
}

pub open spec fn variants_error_upto(owner: Seq<char>, vs: Seq<crate::types::VariantV>, types: Seq<NamedTypeV>, n: nat) -> Option<ErrorV>
    decreases n,
{
    if n == 0 || n > vs.len() {
        None
    } else {
        match variants_error_upto(owner, vs, types, (n - 1) as nat) {
            Some(x) => Some(x),
            None => match vs[n - 1].mode {
                ModeV::Object(o) => fields_error_upto(owner, Some(vs[n - 1].name), o.fields, types, o.fields.len()),
                ModeV::Literal(_) => None,
            },
        }
    }
}

pub open spec fn types_error_upto(ts: Seq<NamedTypeV>, types: Seq<NamedTypeV>, n: nat) -> Option<ErrorV>
    decreases n,
{
    if n == 0 || n > ts.len() {
        None
    } else {
        match types_error_upto(ts, types, (n - 1) as nat) {
            Some(x) => Some(x),
            None => named_type_error(ts[n - 1], types),
        }
    }
}

/// The first error validation finds: first over the services' endpoints,
/// then over the named types' fields.
pub open spec fn validation_error(services: Seq<ServiceV>, types: Seq<NamedTypeV>) -> Option<ErrorV> {
    match services_error_upto(services, types, services.len()) {
        Some(x) => Some(x),
        None => types_error_upto(types, types, types.len()),
    }
}

pub open spec fn checked(r: Result<(), Error>, expected: Option<ErrorV>) -> bool {
    match expected {
        None => r is Ok,
        Some(e) => r matches Err(x) && x@ == e,
    }
}

/// Checks that a spec type may stand as a path parameter: only
/// schema-backed types may.
pub fn validate_path_parameter_type(t: &Type) -> (r: Result<(), Error>)
    ensures
        path_shape(*t) is None ==> r is Ok,
        path_shape(*t) matches Some(shape) ==> (r matches Err(e) && e@ == ErrorV::InvalidPathParameter(shape)),
{
    match t {
        Type::Schema(_) => Ok(()),
        Type::Void => Err(Error::InvalidPathParameter(PathParameterShape::Void)),
        Type::Stream(_) => Err(Error::InvalidPathParameter(PathParameterShape::Stream)),
        Type::List(_) => Err(Error::InvalidPathParameter(PathParameterShape::List)),
        Type::Optional(_) => Err(Error::InvalidPathParameter(PathParameterShape::Optional)),
        Type::Tuple(_) => Err(Error::InvalidPathParameter(PathParameterShape::Tuple)),
        Type::NamedTuple(_) => Err(Error::InvalidPathParameter(PathParameterShape::NamedTuple)),
    }
}

fn find_type<'a>(types: &'a Vec<NamedType>, name: &String) -> (r: Option<&'a NamedType>)
    ensures
        r matches Some(t) ==> type_named(type_views(types@), name@) == Some(t@),
        r is None ==> type_named(type_views(types@), name@) is None && !is_defined(type_views(types@), name@),
{
    let ghost tv = type_views(types@);
    let mut i: usize = 0;
    while i < types.len()
        invariant
            i <= types.len(),
            tv == type_views(types@),
            forall|k: int| 0 <= k < i ==> (#[trigger] tv[k]).name() != name@,
        decreases types.len() - i,
    {
        if same_text(types[i].name().as_str(), name.as_str()) {
            proof {
                assert(crate::aat::is_first_named(tv, name@, i as int));
                let c = choose|c: int| crate::aat::is_first_named(tv, name@, c);
                assert(c == i) by {
                    if c < i {
                    } else if c > i {
                        assert(tv[i as int].name() != name@);
                    }
                }
            }
            return Some(&types[i]);
        }
        i += 1;
    }
    None
}

fn unresolved_in_list(xs: &Vec<FieldType>, types: &Vec<NamedType>, Ghost(parent): Ghost<FieldType>) -> (r: Option<String>)
    requires
        decreases_to!(parent => *xs),
    ensures
        r matches Some(n) ==> first_unresolved_upto(views_of(xs@), type_views(types@), xs.len() as nat) == Some(n@),
        r is None ==> first_unresolved_upto(views_of(xs@), type_views(types@), xs.len() as nat) is None,
    decreases parent, 0nat,
{
    let ghost xv = views_of(xs@);
    let mut i: usize = 0;
    while i < xs.len()
        invariant
            i <= xs.len(),
            xv == views_of(xs@),
            decreases_to!(parent => *xs),
            first_unresolved_upto(xv, type_views(types@), i as nat) is None,
        decreases xs.len() - i,
    {
        proof { assert(decreases_to!(*xs => xs[i as int])); }
        if let Some(n) = unresolved_reference(&xs[i], types) {
            proof { lemma_unresolved_some(xv, type_views(types@), i as nat + 1, xv.len()); }
            return Some(n);
        }
        i += 1;
    }
    None
}

proof fn lemma_unresolved_some(xs: Seq<FieldTypeV>, types: Seq<NamedTypeV>, n: nat, m: nat)
    requires
        n <= m <= xs.len(),
        first_unresolved_upto(xs, types, n) is Some,
    ensures
        first_unresolved_upto(xs, types, m) == first_unresolved_upto(xs, types, n),
    decreases m - n,
{
    if m > n {
        lemma_unresolved_some(xs, types, n, (m - 1) as nat);
    }
}

/// The first reference in `t` to a type that `types` lacks.
fn unresolved_reference(t: &FieldType, types: &Vec<NamedType>) -> (r: Option<String>)
    ensures
        r matches Some(n) ==> first_unresolved(t@, type_views(types@)) == Some(n@),
        r is None ==> first_unresolved(t@, type_views(types@)) is None,
    decreases t, 1nat,
{
    match t {
        FieldType::Reference(name) => match find_type(types, name) {
            Some(_) => {
                proof {
                    let tv = type_views(types@);
                    let c = choose|c: int| crate::aat::is_first_named(tv, name@, c);
                    assert(tv[c].name() == name@);
                }
                None
            },
            None => Some(name.clone()),
        },
        FieldType::Optional(x) => unresolved_reference(x, types),
        FieldType::List(x) => unresolved_reference(x, types),
        FieldType::Dictionary(x) => unresolved_reference(x, types),
        FieldType::Stream(x) => unresolved_reference(x, types),
        FieldType::Intersection(xs) => {
            proof {
                assert(decreases_to!(*t => t->Intersection_0));
                lemma_field_type_lists(*xs);
            }
            unresolved_in_list(xs, types, Ghost(*t))
        },
        FieldType::Tuple(xs) => {
            proof {
                assert(decreases_to!(*t => t->Tuple_0));
                lemma_field_type_lists(*xs);
            }
            unresolved_in_list(xs, types, Ghost(*t))
        },
        _ => None,
    }
}

fn check_references(t: &FieldType, types: &Vec<NamedType>, location: Location) -> (r: Result<(), Error>)
    ensures
        checked(r, unresolved_at(location@, t@, type_views(types@))),
{
    match unresolved_reference(t, types) {
        Some(name) => Err(Error::UnresolvedReference { location, name }),
        None => Ok(()),
    }
}

/// Checks that a path parameter's type can be written as one string.
fn validate_path_parameter_is_stringifiable(
    t: &FieldType,
    endpoint: &String,
    parameter: &String,
    types: &Vec<NamedType>,
) -> (r: Result<(), Error>)
    ensures
        checked(r, match unstringifiable(t@, type_views(types@)) {
            Some(reason) => Some(ErrorV::NotStringifiable { endpoint: endpoint@, parameter: parameter@, reason }),
            None => None,
        }),
{
    let reason = match t {
        FieldType::Primitive(_) => {
            return Ok(());
        },
        FieldType::Literal(_) => {
            return Ok(());
        },
        FieldType::Reference(name) => match find_type(types, name) {
            None => Unstringifiable::UndefinedType,
            Some(NamedType::Enum(en)) => {
                let mut i: usize = 0;
                while i < en.variants.len()
                    invariant
                        i <= en.variants.len(),
                        t@ is Reference,
                        type_named(type_views(types@), t@->Reference_0) == Some(NamedTypeV::Enum(en@)),
                        forall|k: int| 0 <= k < i ==> (#[trigger] en@.variants[k]).value is String,
                    decreases en.variants.len() - i,
                {
                    match &en.variants[i].value {
                        LiteralType::String(_) => {},
                        _ => {
                            assert(!(en@.variants[i as int].value is String));
                            return Err(Error::NotStringifiable {
                                endpoint: endpoint.clone(),
                                parameter: parameter.clone(),
                                reason: Unstringifiable::NonStringEnum,
                            });
                        },
                    }
                    i += 1;
                }
                return Ok(());
            },
            Some(NamedType::Object(_)) => Unstringifiable::ObjectType,
            Some(NamedType::Union(_)) => Unstringifiable::UnionType,
        },
        FieldType::Optional(_) => Unstringifiable::Optional,
        FieldType::List(_) => Unstringifiable::List,
        FieldType::Dictionary(_) => Unstringifiable::Dictionary,
        FieldType::Intersection(_) => Unstringifiable::Intersection,
        FieldType::Tuple(_) => Unstringifiable::Tuple,
        FieldType::Stream(_) => Unstringifiable::Stream,
        FieldType::Any => Unstringifiable::Any,
    };
    Err(Error::NotStringifiable { endpoint: endpoint.clone(), parameter: parameter.clone(), reason })
}

proof fn lemma_path_error_some(e: Seq<char>, segs: Seq<PathSegmentV>, types: Seq<NamedTypeV>, n: nat, m: nat)
    requires
        n <= m <= segs.len(),
        path_error_upto(e, segs, types, n) is Some,
    ensures
        path_error_upto(e, segs, types, m) == path_error_upto(e, segs, types, n),
    decreases m - n,
{
    if m > n {
        lemma_path_error_some(e, segs, types, n, (m - 1) as nat);
    }
}

proof fn lemma_endpoints_error_some(es: Seq<EndpointV>, types: Seq<NamedTypeV>, n: nat, m: nat)
    requires
        n <= m <= es.len(),
        endpoints_error_upto(es, types, n) is Some,
    ensures
        endpoints_error_upto(es, types, m) == endpoints_error_upto(es, types, n),
    decreases m - n,
{
    if m > n {
        lemma_endpoints_error_some(es, types, n, (m - 1) as nat);
    }
}

proof fn lemma_services_error_some(ss: Seq<ServiceV>, types: Seq<NamedTypeV>, n: nat, m: nat)
    requires
        n <= m <= ss.len(),
        services_error_upto(ss, types, n) is Some,
    ensures
        services_error_upto(ss, types, m) == services_error_upto(ss, types, n),
    decreases m - n,
{
    if m > n {
        lemma_services_error_some(ss, types, n, (m - 1) as nat);
    }
}

proof fn lemma_fields_error_some(owner: Seq<char>, variant: Option<Option<Seq<char>>>, fields: Seq<FieldV>, types: Seq<NamedTypeV>, n: nat, m: nat)
    requires
        n <= m <= fields.len(),
        fields_error_upto(owner, variant, fields, types, n) is Some,
    ensures
        fields_error_upto(owner, variant, fields, types, m) == fields_error_upto(owner, variant, fields, types, n),
    decreases m - n,
{
    if m > n {
        lemma_fields_error_some(owner, variant, fields, types, n, (m - 1) as nat);
    }
}

proof fn lemma_variants_error_some(owner: Seq<char>, vs: Seq<crate::types::VariantV>, types: Seq<NamedTypeV>, n: nat, m: nat)
    requires
        n <= m <= vs.len(),
        variants_error_upto(owner, vs, types, n) is Some,
    ensures
        variants_error_upto(owner, vs, types, m) == variants_error_upto(owner, vs, types, n),
    decreases m - n,
{
    if m > n {
        lemma_variants_error_some(owner, vs, types, n, (m - 1) as nat);
    }
}

proof fn lemma_types_error_some(ts: Seq<NamedTypeV>, types: Seq<NamedTypeV>, n: nat, m: nat)
    requires
        n <= m <= ts.len(),
        types_error_upto(ts, types, n) is Some,
    ensures
        types_error_upto(ts, types, m) == types_error_upto(ts, types, n),
    decreases m - n,
{
    if m > n {
        lemma_types_error_some(ts, types, n, (m - 1) as nat);
    }
}

fn copy_opt_text(o: &Option<String>) -> (r: Option<String>)
    ensures
        crate::types::opt_text(r) == crate::types::opt_text(*o),
{
    match o {
        Some(s) => Some(s.clone()),
        None => None,
    }
}

fn check_segment(endpoint: &String, segment: &PathSegment, types: &Vec<NamedType>) -> (r: Result<(), Error>)
    ensures
        checked(r, segment_error(endpoint@, segment@, type_views(types@))),
{
    match segment {
        PathSegment::Literal(_) => Ok(()),
        PathSegment::Parameter { name, ty } => {
            let location = Location::PathParameter { endpoint: endpoint.clone(), parameter: name.clone() };
            match check_references(ty, types, location) {
                Ok(()) => {},
                Err(e) => {
                    return Err(e);
                },
            }
            validate_path_parameter_is_stringifiable(ty, endpoint, name, types)
        },
    }
}

fn check_optional(t: &Option<FieldType>, types: &Vec<NamedType>, location: Location) -> (r: Result<(), Error>)
    ensures
        checked(r, match t {
            Some(q) => unresolved_at(location@, q@, type_views(types@)),
            None => None,
        }),
{
    match t {
        Some(q) => check_references(q, types, location),
        None => Ok(()),
    }
}

fn check_endpoint(e: &Endpoint, types: &Vec<NamedType>) -> (r: Result<(), Error>)
    ensures
        checked(r, endpoint_error(e@, type_views(types@))),
{
    let ghost tv = type_views(types@);
    let ghost pv = e@.path;
    let mut i: usize = 0;
    while i < e.path.len()
        invariant
            i <= e.path.len(),
            tv == type_views(types@),
            pv == e@.path,
            pv.len() == e.path.len(),
            path_error_upto(e.name@, pv, tv, i as nat) is None,
        decreases e.path.len() - i,
    {
        match check_segment(&e.name, &e.path[i], types) {
            Ok(()) => {},
            Err(x) => {
                proof { lemma_path_error_some(e.name@, pv, tv, i as nat + 1, pv.len()); }
                return Err(x);
            },
        }
        i += 1;
    }
    match check_optional(&e.query, types, Location::Query { endpoint: e.name.clone() }) {
        Ok(()) => {},
        Err(x) => {
            return Err(x);
        },
    }
    match check_optional(&e.body, types, Location::Body { endpoint: e.name.clone() }) {
        Ok(()) => {},
        Err(x) => {
            return Err(x);
        },
    }
    check_references(&e.response, types, Location::Response { endpoint: e.name.clone() })
}

fn check_endpoints(es: &Vec<Endpoint>, types: &Vec<NamedType>) -> (r: Result<(), Error>)
    ensures
        checked(r, endpoints_error_upto(es@.map_values(|e: Endpoint| e@), type_views(types@), es.len() as nat)),
{
    let ghost tv = type_views(types@);
    let ghost ev = es@.map_values(|e: Endpoint| e@);
    let mut i: usize = 0;
    while i < es.len()
        invariant
            i <= es.len(),
            tv == type_views(types@),
            ev == es@.map_values(|e: Endpoint| e@),
            endpoints_error_upto(ev, tv, i as nat) is None,
        decreases es.len() - i,
    {
        match check_endpoint(&es[i], types) {
            Ok(()) => {},
            Err(x) => {
                proof { lemma_endpoints_error_some(ev, tv, i as nat + 1, ev.len()); }
                return Err(x);
            },
        }
        i += 1;
    }
    Ok(())
}

fn check_fields(owner: &String, variant: &Option<Option<String>>, fields: &Vec<Field>, types: &Vec<NamedType>) -> (r: Result<(), Error>)
    ensures
        checked(r, fields_error_upto(owner@, match variant {
            Some(v) => Some(crate::types::opt_text(*v)),
            None => None,
        }, fields@.map_values(|f: Field| f@), type_views(types@), fields.len() as nat)),
{
    let ghost tv = type_views(types@);
    let ghost fv = fields@.map_values(|f: Field| f@);
    let ghost vv = match variant {
        Some(v) => Some(crate::types::opt_text(*v)),
        None => None,
    };
    let mut i: usize = 0;
    while i < fields.len()
        invariant
            i <= fields.len(),
            tv == type_views(types@),
            fv == fields@.map_values(|f: Field| f@),
            vv == match variant {
                Some(v) => Some(crate::types::opt_text(*v)),
                None => None,
            },
            fields_error_upto(owner@, vv, fv, tv, i as nat) is None,
        decreases fields.len() - i,
    {
        let field = &fields[i];
        let location = match variant {
            None => Location::Field { owner: owner.clone(), field: field.name.clone() },
            Some(v) => Location::VariantField { owner: owner.clone(), variant: copy_opt_text(v), field: field.name.clone() },
        };
        assert(location@ == field_location(owner@, vv, fv[i as int].name));
        match check_references(&field.ty, types, location) {
            Ok(()) => {},
            Err(x) => {
                proof { lemma_fields_error_some(owner@, vv, fv, tv, i as nat + 1, fv.len()); }
                return Err(x);
            },
        }
        i += 1;
    }
    Ok(())
}

fn check_named_type(t: &NamedType, types: &Vec<NamedType>) -> (r: Result<(), Error>)
    ensures
        checked(r, named_type_error(t@, type_views(types@))),
{
    match t {
        NamedType::Object(o) => check_fields(&o.name, &None, &o.fields, types),
        NamedType::Union(u) => {
            let ghost tv = type_views(types@);
            let ghost uv = u@.variants;
            let mut i: usize = 0;
            while i < u.variants.len()
                invariant
                    i <= u.variants.len(),
                    tv == type_views(types@),
                    uv == u@.variants,
                    t@ == NamedTypeV::Union(u@),
                    variants_error_upto(u.name@, uv, tv, i as nat) is None,
                decreases u.variants.len() - i,
            {
                let v = &u.variants[i];
                match &*v.mode {
                    UnionTypeVariantMode::Object(o) => {
                        let variant = Some(copy_opt_text(&v.name));
                        assert(uv[i as int] == v@);
                        match check_fields(&u.name, &variant, &o.fields, types) {
                            Ok(()) => {},
                            Err(x) => {
                                proof { lemma_variants_error_some(u.name@, uv, tv, i as nat + 1, uv.len()); }
                                return Err(x);
                            },
                        }
                    },
                    UnionTypeVariantMode::Literal(_) => {},
                }
                i += 1;
            }
            Ok(())
        },
        NamedType::Enum(_) => Ok(()),
    }
}

/// Checks that every reference in the services and types resolves to a
/// type of `types`, and that every path parameter can be written as one
/// string; the first failure is the error.
pub fn validate_references(services: &Vec<Service>, types: &Vec<NamedType>) -> (r: Result<(), Error>)
    ensures
        checked(r, validation_error(service_views(services@), type_views(types@))),
{
    let ghost tv = type_views(types@);
    let ghost sv = service_views(services@);
    let mut i: usize = 0;
    while i < services.len()
        invariant
            i <= services.len(),
            tv == type_views(types@),
            sv == service_views(services@),
            services_error_upto(sv, tv, i as nat) is None,
        decreases services.len() - i,
    {
        match check_endpoints(&services[i].endpoints, types) {
            Ok(()) => {},
            Err(x) => {
                proof { lemma_services_error_some(sv, tv, i as nat + 1, sv.len()); }
                return Err(x);
            },
        }
        i += 1;
    }
    let mut j: usize = 0;
    while j < types.len()
        invariant
            j <= types.len(),
            tv == type_views(types@),
            sv == service_views(services@),
            services_error_upto(sv, tv, sv.len()) is None,
            types_error_upto(tv, tv, j as nat) is None,
        decreases types.len() - j,
    {
        match check_named_type(&types[j], types) {
            Ok(()) => {},
            Err(x) => {
                proof { lemma_types_error_some(tv, tv, j as nat + 1, tv.len()); }
                return Err(x);
            },
        }
        j += 1;
    }
    Ok(())
}

/// Every reference in `t` names a type of `types`.
pub open spec fn all_resolve(t: FieldTypeV, types: Seq<NamedTypeV>) -> bool
    decreases t,
{
    match t {
        FieldTypeV::Reference(n) => is_defined(types, n),
        FieldTypeV::Optional(x) => all_resolve(*x, types),
        FieldTypeV::List(x) => all_resolve(*x, types),
        FieldTypeV::Dictionary(x) => all_resolve(*x, types),
        FieldTypeV::Stream(x) => all_resolve(*x, types),
        FieldTypeV::Intersection(xs) => forall|i: int| 0 <= i < xs.len() ==> all_resolve(#[trigger] xs[i], types),
        FieldTypeV::Tuple(xs) => forall|i: int| 0 <= i < xs.len() ==> all_resolve(#[trigger] xs[i], types),
        _ => true,
    }
}

proof fn lemma_unresolved_upto_none(xs: Seq<FieldTypeV>, types: Seq<NamedTypeV>, n: nat)
    requires
        n <= xs.len(),
    ensures
        first_unresolved_upto(xs, types, n) is None <==> forall|i: int| 0 <= i < n ==> all_resolve(#[trigger] xs[i], types),
    decreases xs, n,
{
    if n > 0 {
        lemma_unresolved_upto_none(xs, types, (n - 1) as nat);
        lemma_resolves(xs[n - 1], types);
    }
}

/// A type has no unresolved reference exactly when all its references resolve.
pub proof fn lemma_resolves(t: FieldTypeV, types: Seq<NamedTypeV>)
    ensures
        first_unresolved(t, types) is None <==> all_resolve(t, types),
    decreases t, 0nat,
{
    match t {
        FieldTypeV::Optional(x) => lemma_resolves(*x, types),
        FieldTypeV::List(x) => lemma_resolves(*x, types),
        FieldTypeV::Dictionary(x) => lemma_resolves(*x, types),
        FieldTypeV::Stream(x) => lemma_resolves(*x, types),
        FieldTypeV::Intersection(xs) => lemma_unresolved_upto_none(xs, types, xs.len()),
        FieldTypeV::Tuple(xs) => lemma_unresolved_upto_none(xs, types, xs.len()),
        _ => {},
    }
}

/// A path segment is fine: a literal, or a parameter whose references
/// resolve and whose type is one string.
pub open spec fn segment_ok(seg: PathSegmentV, types: Seq<NamedTypeV>) -> bool {
    match seg {
        PathSegmentV::Literal(_) => true,
        PathSegmentV::Parameter { ty, .. } => all_resolve(ty, types) && unstringifiable(ty, types) is None,
    }
}

pub open spec fn opt_resolves(t: Option<FieldTypeV>, types: Seq<NamedTypeV>) -> bool {
    match t {
        Some(t) => all_resolve(t, types),
        None => true,
    }
}

pub open spec fn endpoint_ok(e: EndpointV, types: Seq<NamedTypeV>) -> bool {
    &&& forall|k: int| 0 <= k < e.path.len() ==> segment_ok(#[trigger] e.path[k], types)
    &&& opt_resolves(e.query, types)
    &&& opt_resolves(e.body, types)
    &&& all_resolve(e.response, types)
}

pub open spec fn fields_resolve(fields: Seq<FieldV>, types: Seq<NamedTypeV>) -> bool {
    forall|k: int| 0 <= k < fields.len() ==> all_resolve(#[trigger] fields[k].ty, types)
}

pub open spec fn named_type_ok(t: NamedTypeV, types: Seq<NamedTypeV>) -> bool {
    match t {
        NamedTypeV::Object(o) => fields_resolve(o.fields, types),
        NamedTypeV::Union(u) => forall|k: int|
            0 <= k < u.variants.len() ==> match (#[trigger] u.variants[k]).mode {
                ModeV::Object(o) => fields_resolve(o.fields, types),
                ModeV::Literal(_) => true,
            },
        NamedTypeV::Enum(_) => true,
    }
}

proof fn lemma_path_none(e: Seq<char>, segs: Seq<PathSegmentV>, types: Seq<NamedTypeV>, n: nat)
    requires
        n <= segs.len(),
    ensures
        path_error_upto(e, segs, types, n) is None <==> forall|k: int| 0 <= k < n ==> segment_ok(#[trigger] segs[k], types),
    decreases n,
{
    if n > 0 {
        lemma_path_none(e, segs, types, (n - 1) as nat);
        if let PathSegmentV::Parameter { ty, .. } = segs[n - 1] {
            lemma_resolves(ty, types);
        }
    }
}

proof fn lemma_endpoint_none(e: EndpointV, types: Seq<NamedTypeV>)
    ensures
        endpoint_error(e, types) is None <==> endpoint_ok(e, types),
{
    lemma_path_none(e.name, e.path, types, e.path.len());
    if let Some(q) = e.query {
        lemma_resolves(q, types);
    }
    if let Some(b) = e.body {
        lemma_resolves(b, types);
    }
    lemma_resolves(e.response, types);
}

proof fn lemma_endpoints_none(es: Seq<EndpointV>, types: Seq<NamedTypeV>, n: nat)
    requires
        n <= es.len(),
    ensures
        endpoints_error_upto(es, types, n) is None <==> forall|k: int| 0 <= k < n ==> endpoint_ok(#[trigger] es[k], types),
    decreases n,
{
    if n > 0 {
        lemma_endpoints_none(es, types, (n - 1) as nat);
        lemma_endpoint_none(es[n - 1], types);
    }
}

proof fn lemma_services_none(ss: Seq<ServiceV>, types: Seq<NamedTypeV>, n: nat)
    requires
        n <= ss.len(),
    ensures
        services_error_upto(ss, types, n) is None <==> forall|k: int, j: int|
            0 <= k < n && 0 <= j < ss[k].endpoints.len() ==> endpoint_ok(#[trigger] ss[k].endpoints[j], types),
    decreases n,
{
    if n > 0 {
        lemma_services_none(ss, types, (n - 1) as nat);
        lemma_endpoints_none(ss[n - 1].endpoints, types, ss[n - 1].endpoints.len());
    }
}

proof fn lemma_fields_none(owner: Seq<char>, variant: Option<Option<Seq<char>>>, fields: Seq<FieldV>, types: Seq<NamedTypeV>, n: nat)
    requires
        n <= fields.len(),
    ensures
        fields_error_upto(owner, variant, fields, types, n) is None <==> forall|k: int|
            0 <= k < n ==> all_resolve(#[trigger] fields[k].ty, types),
    decreases n,
{
    if n > 0 {
        lemma_fields_none(owner, variant, fields, types, (n - 1) as nat);
        lemma_resolves(fields[n - 1].ty, types);
    }
}

proof fn lemma_variants_none(owner: Seq<char>, vs: Seq<crate::types::VariantV>, types: Seq<NamedTypeV>, n: nat)
    requires
        n <= vs.len(),
    ensures
        variants_error_upto(owner, vs, types, n) is None <==> forall|k: int|
            0 <= k < n ==> match (#[trigger] vs[k]).mode {
                ModeV::Object(o) => fields_resolve(o.fields, types),
                ModeV::Literal(_) => true,
            },
    decreases n,
{
    if n > 0 {
        lemma_variants_none(owner, vs, types, (n - 1) as nat);
        if let ModeV::Object(o) = vs[n - 1].mode {
            lemma_fields_none(owner, Some(vs[n - 1].name), o.fields, types, o.fields.len());
        }
    }
}

proof fn lemma_types_none(ts: Seq<NamedTypeV>, types: Seq<NamedTypeV>, n: nat)
    requires
        n <= ts.len(),
    ensures
        types_error_upto(ts, types, n) is None <==> forall|k: int| 0 <= k < n ==> named_type_ok(#[trigger] ts[k], types),
    decreases n,
{
    if n > 0 {
        lemma_types_none(ts, types, (n - 1) as nat);
        match ts[n - 1] {
            NamedTypeV::Object(o) => lemma_fields_none(o.name, None, o.fields, types, o.fields.len()),
            NamedTypeV::Union(u) => lemma_variants_none(u.name, u.variants, types, u.variants.len()),
            NamedTypeV::Enum(_) => {},
        }
    }
}

/// Validation passes exactly when every reference (in path parameters,
/// queries, bodies, responses, and the fields of every named type and union
/// variant) names a type of the tree, and every path parameter is one string.
pub proof fn validation_passes_iff_closed(services: Seq<ServiceV>, types: Seq<NamedTypeV>)
    ensures
        validation_error(services, types) is None <==> {
            &&& forall|k: int, j: int|
                0 <= k < services.len() && 0 <= j < services[k].endpoints.len() ==> endpoint_ok(
                    #[trigger] services[k].endpoints[j],
                    types,
                )
            &&& forall|k: int| 0 <= k < types.len() ==> named_type_ok(#[trigger] types[k], types)
        },
{
    lemma_services_none(services, types, services.len());
    lemma_types_none(types, types, types.len());
}

/// Where the path parameters of a tree are all one string, validation
/// passes exactly when every reference resolves.
pub proof fn validation_passes_iff_references_resolve(services: Seq<ServiceV>, types: Seq<NamedTypeV>)
    requires
        forall|k: int, j: int, m: int|
            0 <= k < services.len() && 0 <= j < services[k].endpoints.len() && 0 <= m
                < services[k].endpoints[j].path.len() && #[trigger] services[k].endpoints[j].path[m] is Parameter
                ==> unstringifiable(services[k].endpoints[j].path[m]->ty, types) is None,
    ensures
        validation_error(services, types) is None <==> {
            &&& forall|k: int, j: int, m: int|
                0 <= k < services.len() && 0 <= j < services[k].endpoints.len() && 0 <= m
                    < services[k].endpoints[j].path.len() && #[trigger] services[k].endpoints[j].path[m] is Parameter
                    ==> all_resolve(services[k].endpoints[j].path[m]->ty, types)
            &&& forall|k: int, j: int|
                0 <= k < services.len() && 0 <= j < services[k].endpoints.len() ==> {
                    let e = #[trigger] services[k].endpoints[j];
                    opt_resolves(e.query, types) && opt_resolves(e.body, types) && all_resolve(e.response, types)
                }
            &&& forall|k: int| 0 <= k < types.len() ==> named_type_ok(#[trigger] types[k], types)
        },
{
    validation_passes_iff_closed(services, types);
}

/// Names the path parameter `name`: a reference it holds is unresolved, or
/// it is not one string.
pub open spec fn names_parameter(x: ErrorV, name: Seq<char>) -> bool {
    match x {
        ErrorV::NotStringifiable { parameter, .. } => parameter == name,
        ErrorV::UnresolvedReference { location: LocationV::PathParameter { parameter, .. }, .. } => parameter == name,
        _ => false,
    }
}

/// `ty` refers to an enum of `types` whose values are all strings.
pub open spec fn refers_to_string_enum(ty: FieldTypeV, types: Seq<NamedTypeV>) -> bool {
    ty is Reference && match type_named(types, ty->Reference_0) {
        Some(NamedTypeV::Enum(en)) => forall|i: int| 0 <= i < en.variants.len() ==> (#[trigger] en.variants[i]).value is String,
        _ => false,
    }
}

/// `ty` refers to an enum of `types` with a value that is not a string.
pub open spec fn refers_to_mixed_enum(ty: FieldTypeV, types: Seq<NamedTypeV>) -> bool {
    ty is Reference && match type_named(types, ty->Reference_0) {
        Some(NamedTypeV::Enum(en)) => exists|i: int| 0 <= i < en.variants.len() && !((#[trigger] en.variants[i]).value is String),
        _ => false,
    }
}

/// `ty` refers to an object type of `types`.
pub open spec fn refers_to_object(ty: FieldTypeV, types: Seq<NamedTypeV>) -> bool {
    ty is Reference && type_named(types, ty->Reference_0) matches Some(NamedTypeV::Object(_))
}

/// The path parameter rule: a primitive, or a reference to an enum whose
/// values are all strings, passes; an optional, a list, a map, or a
/// reference to an object or to an enum with a non-string value fails,
/// naming the parameter.
pub proof fn path_parameter_rule(e: Seq<char>, name: Seq<char>, ty: FieldTypeV, types: Seq<NamedTypeV>)
    ensures
        ty is Primitive ==> segment_error(e, PathSegmentV::Parameter { name, ty }, types) is None,
        refers_to_string_enum(ty, types) ==> segment_error(e, PathSegmentV::Parameter { name, ty }, types) is None,
        (ty is Optional || ty is List || ty is Dictionary || refers_to_object(ty, types) || refers_to_mixed_enum(ty, types))
            ==> (segment_error(e, PathSegmentV::Parameter { name, ty }, types) matches Some(x) && names_parameter(x, name)),
{
    if ty is Reference && type_named(types, ty->Reference_0) is Some {
        let c = choose|c: int| crate::aat::is_first_named(types, ty->Reference_0, c);
        assert(types[c].name() == ty->Reference_0);
        assert(is_defined(types, ty->Reference_0));
    }
}

} // verus!
