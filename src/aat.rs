use vstd::prelude::*;
use vstd::set_lib::{lemma_int_range, lemma_len_subset, lemma_map_size, set_int_range};
use crate::equality::{structural_equality_is_an_equivalence, structurally_equal, types_are_structurally_equal};
use crate::error::{Error, ErrorV, PathParameterShape, result_view};
use crate::json::{Json, JsonV, lemma_object_members, object_members, object_of, str_of};
use crate::order::{Named, lemma_sort_map, lemma_sort_sorted, sort_by, sort_by_name, sorted_by};
use crate::schema::{
    contains_text, extract_ref_name, field_type_of, is_schema, named_type_of, ref_name, schema_to_field_type,
    schema_to_type, texts,
};
use crate::spec::{self as input, Method, Type};
use crate::text::{decimal, lemma_numbered_injective, numbered};
use crate::types::{
    Endpoint, EndpointV, FieldType, FieldTypeV, Header, HeaderV, HeaderValue, HeaderValueV, HttpMethod, NamedType,
    NamedTypeV, PathSegment, PathSegmentV, Service, ServiceV, Upgrade, lemma_field_type_lists, views_of,
};
use crate::validation::{checked, validate_path_parameter_type, validate_references, validation_error};

verus! {

broadcast use vstd::std_specs::vec::group_vec_axioms;

/// The Abstract API Tree: the named types, services and root headers of an
/// API, as one build produced them.
#[derive(Clone, Debug)]
pub struct AAT {
    pub types: Vec<NamedType>,
    pub services: Vec<Service>,
    pub headers: Vec<Header>,
    type_names: Vec<String>,
}

pub struct AatV {
    pub types: Seq<NamedTypeV>,
    pub services: Seq<ServiceV>,
    pub headers: Seq<HeaderV>,
    /// Every type name registered so far, in order of registration.
    pub type_names: Seq<Seq<char>>,
}

pub open spec fn type_views(v: Seq<NamedType>) -> Seq<NamedTypeV> {
    v.map_values(|t: NamedType| t@)
}

pub open spec fn service_views(v: Seq<Service>) -> Seq<ServiceV> {
    v.map_values(|s: Service| s@)
}

pub open spec fn header_views(v: Seq<Header>) -> Seq<HeaderV> {
    v.map_values(|h: Header| h@)
}

impl View for AAT {
    type V = AatV;

    closed spec fn view(&self) -> AatV {
        AatV {
            types: type_views(self.types@),
            services: service_views(self.services@),
            headers: header_views(self.headers@),
            type_names: texts(self.type_names@),
        }
    }
}

/// `i` is the first position of `types` holding a type named `name`.
pub open spec fn is_first_named(types: Seq<NamedTypeV>, name: Seq<char>, i: int) -> bool {
    &&& 0 <= i < types.len()
    &&& types[i].name() == name
    &&& forall|j: int| 0 <= j < i ==> types[j].name() != name
}

/// The first registered type named `name`.
pub open spec fn type_named(types: Seq<NamedTypeV>, name: Seq<char>) -> Option<NamedTypeV> {
    if exists|i: int| is_first_named(types, name, i) {
        Some(types[choose|i: int| is_first_named(types, name, i)])
    } else {
        None
    }
}

/// Registering `t`: a new name is appended to the types and to the names;
/// a name already taken by a structurally equal type changes nothing; a
/// name taken by a different type is a collision.
pub open spec fn add_type(a: AatV, t: NamedTypeV) -> Result<AatV, ErrorV> {
    match type_named(a.types, t.name()) {
        Some(existing) => if structurally_equal(existing, t) {
            Ok(a)
        } else {
            Err(ErrorV::NameCollision(t.name()))
        },
        None => Ok(AatV { types: a.types.push(t), type_names: a.type_names.push(t.name()), ..a }),
    }
}

/// The `$defs` of a schema object, or its legacy `definitions`.
pub open spec fn definitions_of(s: JsonV) -> Option<Seq<(Seq<char>, JsonV)>> {
    match s.member("$defs"@) {
        Some(d) => object_of(Some(d)),
        None => object_of(s.member("definitions"@)),
    }
}

/// Registers the first `n` definitions, each under its own key; entries
/// that are not schemas are passed over.
pub open spec fn add_definitions_upto(a: AatV, defs: Seq<(Seq<char>, JsonV)>, n: nat) -> Result<AatV, ErrorV>
    decreases n,
{
    if n == 0 || n > defs.len() {
        Ok(a)
    } else {
        match add_definitions_upto(a, defs, (n - 1) as nat) {
            Err(e) => Err(e),
            Ok(b) => if !is_schema(defs[n - 1].1) {
                Ok(b)
            } else {
                match named_type_of(defs[n - 1].1, defs[n - 1].0) {
                    Ok(t) => add_type(b, t),
                    Err(e) => Err(e),
                }
            },
        }
    }
}

/// Registers the schema itself under `root`, then each of its definitions.
pub open spec fn append_types(a: AatV, s: JsonV, root: Seq<char>) -> Result<AatV, ErrorV> {
    match named_type_of(s, root) {
        Err(e) => Err(e),
        Ok(t) => match add_type(a, t) {
            Err(e) => Err(e),
            Ok(b) => match definitions_of(s) {
                Some(defs) => add_definitions_upto(b, defs, defs.len()),
                None => Ok(b),
            },
        },
    }
}

/// The `k`-th fallback name.
pub open spec fn anonymous_name(k: int) -> Seq<char> {
    "AnonymousType"@ + decimal(k as nat)
}

/// `k` is the least positive number whose fallback name is not taken.
pub open spec fn is_first_free(names: Seq<Seq<char>>, k: int) -> bool {
    &&& 1 <= k
    &&& !names.contains(anonymous_name(k))
    &&& forall|j: int| 1 <= j < k ==> names.contains(#[trigger] anonymous_name(j))
}

/// The name of an embedded schema: its `title`, else the target of its own
/// `$ref`, else the first fallback name not yet taken.
pub open spec fn schema_name(a: AatV, s: JsonV) -> Result<Seq<char>, ErrorV> {
    if !(s is Object) {
        Err(ErrorV::UnnamedSchema)
    } else if str_of(s.member("title"@)) is Some {
        Ok(str_of(s.member("title"@))->0)
    } else if str_of(s.member("$ref"@)) is Some && ref_name(str_of(s.member("$ref"@))->0) is Some {
        Ok(ref_name(str_of(s.member("$ref"@))->0)->0)
    } else {
        Ok(anonymous_name(choose|k: int| is_first_free(a.type_names, k)))
    }
}

proof fn lemma_first_free_unique(names: Seq<Seq<char>>, k: int)
    requires
        is_first_free(names, k),
    ensures
        (choose|c: int| is_first_free(names, c)) == k,
{
    let c = choose|c: int| is_first_free(names, c);
    assert(is_first_free(names, c));
    if c < k {
        assert(names.contains(anonymous_name(c)));
    } else if c > k {
        assert(names.contains(anonymous_name(k)));
    }
}

/// Among the first `names.len() + 1` fallback names one is free.
pub proof fn lemma_some_name_free(names: Seq<Seq<char>>)
    ensures
        exists|k: int| 1 <= k <= names.len() + 1 && !names.contains(anonymous_name(k)),
{
    if forall|k: int| 1 <= k <= names.len() + 1 ==> names.contains(anonymous_name(k)) {
        let range = set_int_range(1, names.len() as int + 2);
        let f = |k: int| anonymous_name(k);
        lemma_int_range(1, names.len() as int + 2);
        assert forall|x: int, y: int| range.contains(x) && range.contains(y) && f(x) == f(y) implies x == y by {
            lemma_numbered_injective("AnonymousType"@, x as nat, y as nat);
        }
        lemma_map_size(range, range.map(f), f);
        assert(range.map(f).subset_of(names.to_set()));
        names.lemma_cardinality_of_set();
        lemma_len_subset(range.map(f), names.to_set());
    }
}

impl AAT {
    /// An empty tree.
    pub fn new() -> (r: AAT)
        ensures
            r@.types.len() == 0,
            r@.services.len() == 0,
            r@.headers.len() == 0,
            r@.type_names.len() == 0,
    {
        AAT { types: Vec::new(), services: Vec::new(), headers: Vec::new(), type_names: Vec::new() }
    }

    /// Registers a type unless a structurally equal one holds its name.
    fn add_type_with_dedup_check(&mut self, new_type: NamedType) -> (r: Result<(), Error>)
        ensures
            add_type(old(self)@, new_type@) matches Ok(a) ==> r is Ok && final(self)@ == a,
            add_type(old(self)@, new_type@) matches Err(e) ==> (r matches Err(x) && x@ == e),
    {
        let ghost tv = type_views(self.types@);
        let mut i: usize = 0;
        while i < self.types.len()
            invariant
                i <= self.types.len(),
                tv == type_views(self.types@),
                self@ == old(self)@,
                forall|k: int| 0 <= k < i ==> (#[trigger] tv[k]).name() != new_type@.name(),
            decreases self.types.len() - i,
        {
            if same_name(&self.types[i], &new_type) {
                proof {
                    assert(tv[i as int] == self.types@[i as int]@);
                    assert(is_first_named(tv, new_type@.name(), i as int));
                    let c = choose|c: int| is_first_named(tv, new_type@.name(), c);
                    assert(c == i) by {
                        if c < i {
                        } else if c > i {
                            assert(tv[i as int].name() != new_type@.name());
                        }
                    }
                }
                if !types_are_structurally_equal(&self.types[i], &new_type) {
                    return Err(Error::NameCollision(new_type.name().clone()));
                }
                return Ok(());
            }
            i += 1;
        }
        let name = new_type.name().clone();
        self.type_names.push(name);
        self.types.push(new_type);
        assert(self@.types =~= old(self)@.types.push(new_type@));
        assert(self@.type_names =~= old(self)@.type_names.push(new_type@.name()));
        Ok(())
    }

    /// The name to register an embedded schema under.
    fn extract_schema_name(&self, schema: &Json) -> (r: Result<String, Error>)
        ensures
            result_view(r) == schema_name(self@, schema@),
    {
        if schema.as_object().is_none() {
            return Err(Error::UnnamedSchema);
        }
        if let Some(Json::String(title)) = schema.get("title") {
            return Ok(title.clone());
        }
        if let Some(Json::String(reference)) = schema.get("$ref") {
            if let Ok(name) = extract_ref_name(reference) {
                return Ok(name);
            }
        }
        let ghost names = self@.type_names;
        proof { lemma_some_name_free(names); }
        let mut counter: u128 = 1;
        assert(schema_name(self@, schema@) == Ok::<Seq<char>, ErrorV>(
            anonymous_name(choose|k: int| is_first_free(names, k)),
        ));
        while counter <= self.type_names.len() as u128
            invariant
                schema_name(self@, schema@) == Ok::<Seq<char>, ErrorV>(
                    anonymous_name(choose|k: int| is_first_free(names, k)),
                ),
                1 <= counter <= self.type_names.len() + 1,
                names == texts(self.type_names@),
                names.len() == self.type_names.len(),
                forall|j: int| 1 <= j < counter ==> names.contains(#[trigger] anonymous_name(j)),
            decreases self.type_names.len() + 1 - counter,
        {
            let candidate = numbered("AnonymousType", counter);
            assert(candidate@ == anonymous_name(counter as int));
            if !contains_text(&self.type_names, candidate.as_str()) {
                proof { lemma_first_free_unique(names, counter as int); }
                return Ok(candidate);
            }
            counter += 1;
        }
        let candidate = numbered("AnonymousType", counter);
        proof {
            assert(!names.contains(anonymous_name(counter as int)));
            lemma_first_free_unique(names, counter as int);
        }
        Ok(candidate)
    }
}

fn same_name(a: &NamedType, b: &NamedType) -> (r: bool)
    ensures
        r == (a@.name() == b@.name()),
{
    crate::text::same_text(a.name().as_str(), b.name().as_str())
}

/// A schema that describes a primitive, array, map or untyped value, and is
/// therefore written inline rather than named.
pub open spec fn inline_worthy(s: JsonV) -> bool {
    match s {
        JsonV::Object(_) => s.member("properties"@) is None && s.member("oneOf"@) is None
            && s.member("anyOf"@) is None && s.member("enum"@) is None,
        _ => true,
    }
}

/// The field type of a spec type, with the registry state after the named
/// types it brings are registered.
pub open spec fn import_type(a: AatV, t: Type) -> Result<(AatV, FieldTypeV), ErrorV>
    decreases t, 0nat,
{
    match t {
        Type::Void => Ok((a, FieldTypeV::Any)),
        Type::Schema(s) => if inline_worthy(s@) {
            match field_type_of(s@) {
                Ok(f) => Ok((a, f)),
                Err(e) => Err(e),
            }
        } else {
            match schema_name(a, s@) {
                Err(e) => Err(e),
                Ok(n) => match append_types(a, s@, n) {
                    Ok(b) => Ok((b, FieldTypeV::Reference(n))),
                    Err(e) => Err(e),
                },
            }
        },
        Type::Stream(inner) => match import_type(a, *inner) {
            Ok((b, f)) => Ok((b, FieldTypeV::Stream(Box::new(f)))),
            Err(e) => Err(e),
        },
        Type::List(inner) => match import_type(a, *inner) {
            Ok((b, f)) => Ok((b, FieldTypeV::List(Box::new(f)))),
            Err(e) => Err(e),
        },
        Type::Optional(inner) => match import_type(a, *inner) {
            Ok((b, f)) => Ok((b, FieldTypeV::Optional(Box::new(f)))),
            Err(e) => Err(e),
        },
        Type::Tuple(v) => match import_types_upto(a, v@, v@.len()) {
            Ok((b, fs)) => Ok((b, FieldTypeV::Tuple(fs))),
            Err(e) => Err(e),
        },
        Type::NamedTuple(_) => Err(ErrorV::NamedTupleUnsupported),
    }
}

pub open spec fn import_types_upto(a: AatV, items: Seq<Type>, n: nat) -> Result<(AatV, Seq<FieldTypeV>), ErrorV>
    decreases items, n,
{
    if n == 0 || n > items.len() {
        Ok((a, Seq::empty()))
    } else {
        match import_types_upto(a, items, (n - 1) as nat) {
            Err(e) => Err(e),
            Ok((b, fs)) => match import_type(b, items[n - 1]) {
                Ok((c, f)) => Ok((c, fs.push(f))),
                Err(e) => Err(e),
            },
        }
    }
}

pub open spec fn import_header(a: AatV, name: Seq<char>, hv: input::HeaderValue) -> Result<(AatV, HeaderV), ErrorV> {
    match hv {
        input::HeaderValue::Literal(l) => Ok((a, HeaderV { name, value: HeaderValueV::Literal(l@) })),
        input::HeaderValue::Type { name: p, ty } => match import_type(a, ty) {
            Ok((b, f)) => Ok((b, HeaderV { name, value: HeaderValueV::Parameter { name: p@, field_type: f } })),
            Err(e) => Err(e),
        },
        input::HeaderValue::Pattern { pattern, name: p, ty } => match import_type(a, ty) {
            Ok((b, f)) => Ok(
                (b, HeaderV { name, value: HeaderValueV::Pattern { pattern: pattern@, param_name: p@, field_type: f } }),
            ),
            Err(e) => Err(e),
        },
    }
}

pub open spec fn import_headers_upto(a: AatV, hs: Seq<(String, input::HeaderValue)>, n: nat) -> Result<(AatV, Seq<HeaderV>), ErrorV>
    decreases n,
{
    if n == 0 || n > hs.len() {
        Ok((a, Seq::empty()))
    } else {
        match import_headers_upto(a, hs, (n - 1) as nat) {
            Err(e) => Err(e),
            Ok((b, out)) => match import_header(b, hs[n - 1].0@, hs[n - 1].1) {
                Ok((c, h)) => Ok((c, out.push(h))),
                Err(e) => Err(e),
            },
        }
    }
}

/// The shape that keeps a spec type out of a path, if any: only
/// schema-backed types may stand there.
pub open spec fn path_shape(t: Type) -> Option<PathParameterShape> {
    match t {
        Type::Schema(_) => None,
        Type::Void => Some(PathParameterShape::Void),
        Type::Stream(_) => Some(PathParameterShape::Stream),
        Type::List(_) => Some(PathParameterShape::List),
        Type::Optional(_) => Some(PathParameterShape::Optional),
        Type::Tuple(_) => Some(PathParameterShape::Tuple),
        Type::NamedTuple(_) => Some(PathParameterShape::NamedTuple),
    }
}

pub open spec fn import_segment(a: AatV, seg: input::PathSegment) -> Result<(AatV, PathSegmentV), ErrorV> {
    match seg {
        input::PathSegment::Literal(l) => Ok((a, PathSegmentV::Literal(l@))),
        input::PathSegment::Type { name, ty } => match path_shape(ty) {
            Some(shape) => Err(ErrorV::InvalidPathParameter(shape)),
            None => match import_type(a, ty) {
                Ok((b, f)) => Ok((b, PathSegmentV::Parameter { name: name@, ty: f })),
                Err(e) => Err(e),
            },
        },
    }
}

pub open spec fn import_path_upto(a: AatV, segs: Seq<input::PathSegment>, n: nat) -> Result<(AatV, Seq<PathSegmentV>), ErrorV>
    decreases n,
{
    if n == 0 || n > segs.len() {
        Ok((a, Seq::empty()))
    } else {
        match import_path_upto(a, segs, (n - 1) as nat) {
            Err(e) => Err(e),
            Ok((b, out)) => match import_segment(b, segs[n - 1]) {
                Ok((c, p)) => Ok((c, out.push(p))),
                Err(e) => Err(e),
            },
        }
    }
}

pub open spec fn import_opt(a: AatV, t: Option<Type>) -> Result<(AatV, Option<FieldTypeV>), ErrorV> {
    match t {
        None => Ok((a, None)),
        Some(t) => match import_type(a, t) {
            Ok((b, f)) => Ok((b, Some(f))),
            Err(e) => Err(e),
        },
    }
}

pub open spec fn method_of(m: Method) -> HttpMethod {
    match m {
        Method::Get => HttpMethod::Get,
        Method::Post => HttpMethod::Post,
        Method::Put => HttpMethod::Put,
        Method::Delete => HttpMethod::Delete,
        Method::Patch => HttpMethod::Patch,
    }
}

pub open spec fn upgrade_of(u: Option<input::Upgrade>) -> Option<Upgrade> {
    match u {
        Some(input::Upgrade::Ws) => Some(Upgrade::Ws),
        None => None,
    }
}

/// An endpoint: its path, then query, body, response and headers, in that order.
pub open spec fn import_endpoint(a: AatV, e: input::Endpoint) -> Result<(AatV, EndpointV), ErrorV> {
    match import_path_upto(a, e.path@, e.path@.len()) {
        Err(x) => Err(x),
        Ok((a1, path)) => match import_opt(a1, e.query) {
            Err(x) => Err(x),
            Ok((a2, query)) => match import_opt(a2, e.body) {
                Err(x) => Err(x),
                Ok((a3, body)) => match import_type(a3, e.response) {
                    Err(x) => Err(x),
                    Ok((a4, response)) => match import_headers_upto(a4, e.headers@, e.headers@.len()) {
                        Err(x) => Err(x),
                        Ok((a5, headers)) => Ok(
                            (
                                a5,
                                EndpointV {
                                    name: e.name@,
                                    method: method_of(e.method),
                                    path,
                                    query,
                                    body,
                                    response,
                                    upgrade: upgrade_of(e.upgrade),
                                    headers,
                                },
                            ),
                        ),
                    },
                },
            },
        },
    }
}

pub open spec fn import_endpoints_upto(a: AatV, es: Seq<input::Endpoint>, n: nat) -> Result<(AatV, Seq<EndpointV>), ErrorV>
    decreases n,
{
    if n == 0 || n > es.len() {
        Ok((a, Seq::empty()))
    } else {
        match import_endpoints_upto(a, es, (n - 1) as nat) {
            Err(x) => Err(x),
            Ok((b, out)) => match import_endpoint(b, es[n - 1]) {
                Ok((c, e)) => Ok((c, out.push(e))),
                Err(x) => Err(x),
            },
        }
    }
}

/// A service: its headers, then its endpoints.
pub open spec fn import_service(a: AatV, s: input::Service) -> Result<(AatV, ServiceV), ErrorV> {
    match import_headers_upto(a, s.headers@, s.headers@.len()) {
        Err(x) => Err(x),
        Ok((a1, headers)) => match import_endpoints_upto(a1, s.endpoints@, s.endpoints@.len()) {
            Err(x) => Err(x),
            Ok((a2, endpoints)) => Ok((a2, ServiceV { name: s.name@, endpoints, headers })),
        },
    }
}

pub open spec fn import_services_upto(a: AatV, ss: Seq<input::Service>, n: nat) -> Result<(AatV, Seq<ServiceV>), ErrorV>
    decreases n,
{
    if n == 0 || n > ss.len() {
        Ok((a, Seq::empty()))
    } else {
        match import_services_upto(a, ss, (n - 1) as nat) {
            Err(x) => Err(x),
            Ok((b, out)) => match import_service(b, ss[n - 1]) {
                Ok((c, sv)) => Ok((c, out.push(sv))),
                Err(x) => Err(x),
            },
        }
    }
}

/// Importing a whole spec: root headers, then services, appended to what
/// the tree already holds.
pub open spec fn import_spec(a: AatV, sp: input::Spec) -> Result<AatV, ErrorV> {
    match import_headers_upto(a, sp.headers@, sp.headers@.len()) {
        Err(x) => Err(x),
        Ok((a1, headers)) => match import_services_upto(a1, sp.services@, sp.services@.len()) {
            Err(x) => Err(x),
            Ok((a2, services)) => Ok(
                AatV { headers: a2.headers + headers, services: a2.services + services, ..a2 },
            ),
        },
    }
}

/// `r` and the state `after` are what `expected` says: the value and the
/// new state, or the error.
pub open spec fn outcome<T: View>(r: Result<T, Error>, after: AatV, expected: Result<(AatV, T::V), ErrorV>) -> bool {
    match expected {
        Ok((a, v)) => r matches Ok(x) && x@ == v && after == a,
        Err(e) => r matches Err(x) && x@ == e,
    }
}

/// As `outcome`, for a vector of values.
pub open spec fn outcome_all<T: View>(r: Result<Vec<T>, Error>, after: AatV, expected: Result<(AatV, Seq<T::V>), ErrorV>) -> bool {
    match expected {
        Ok((a, v)) => r matches Ok(x) && x@.map_values(|y: T| y@) == v && after == a,
        Err(e) => r matches Err(x) && x@ == e,
    }
}

/// As `outcome`, for a step that only changes the state.
pub open spec fn outcome_state(r: Result<(), Error>, after: AatV, expected: Result<AatV, ErrorV>) -> bool {
    match expected {
        Ok(a) => r is Ok && after == a,
        Err(e) => r matches Err(x) && x@ == e,
    }
}

proof fn lemma_definitions_err(a: AatV, defs: Seq<(Seq<char>, JsonV)>, n: nat, m: nat)
    requires
        n <= m <= defs.len(),
        add_definitions_upto(a, defs, n) is Err,
    ensures
        add_definitions_upto(a, defs, m) == add_definitions_upto(a, defs, n),
    decreases m - n,
{
    if m > n {
        lemma_definitions_err(a, defs, n, (m - 1) as nat);
    }
}

proof fn lemma_types_err(a: AatV, items: Seq<Type>, n: nat, m: nat)
    requires
        n <= m <= items.len(),
        import_types_upto(a, items, n) is Err,
    ensures
        import_types_upto(a, items, m) == import_types_upto(a, items, n),
    decreases m - n,
{
    if m > n {
        lemma_types_err(a, items, n, (m - 1) as nat);
    }
}

proof fn lemma_headers_err(a: AatV, hs: Seq<(String, input::HeaderValue)>, n: nat, m: nat)
    requires
        n <= m <= hs.len(),
        import_headers_upto(a, hs, n) is Err,
    ensures
        import_headers_upto(a, hs, m) == import_headers_upto(a, hs, n),
    decreases m - n,
{
    if m > n {
        lemma_headers_err(a, hs, n, (m - 1) as nat);
    }
}

proof fn lemma_path_err(a: AatV, segs: Seq<input::PathSegment>, n: nat, m: nat)
    requires
        n <= m <= segs.len(),
        import_path_upto(a, segs, n) is Err,
    ensures
        import_path_upto(a, segs, m) == import_path_upto(a, segs, n),
    decreases m - n,
{
    if m > n {
        lemma_path_err(a, segs, n, (m - 1) as nat);
    }
}

proof fn lemma_endpoints_err(a: AatV, es: Seq<input::Endpoint>, n: nat, m: nat)
    requires
        n <= m <= es.len(),
        import_endpoints_upto(a, es, n) is Err,
    ensures
        import_endpoints_upto(a, es, m) == import_endpoints_upto(a, es, n),
    decreases m - n,
{
    if m > n {
        lemma_endpoints_err(a, es, n, (m - 1) as nat);
    }
}

proof fn lemma_services_err(a: AatV, ss: Seq<input::Service>, n: nat, m: nat)
    requires
        n <= m <= ss.len(),
        import_services_upto(a, ss, n) is Err,
    ensures
        import_services_upto(a, ss, m) == import_services_upto(a, ss, n),
    decreases m - n,
{
    if m > n {
        lemma_services_err(a, ss, n, (m - 1) as nat);
    }
}

fn is_schema_value(j: &Json) -> (r: bool)
    ensures
        r == is_schema(j@),
{
    match j {
        Json::Bool(_) => true,
        Json::Object(_) => true,
        _ => false,
    }
}

fn definitions(schema: &Json) -> (r: Option<&Vec<(String, Json)>>)
    ensures
        r matches Some(d) ==> definitions_of(schema@) == Some(object_members(d)->Object_0) && object_members(d)->Object_0.len() == d.len(),
        r is None ==> definitions_of(schema@) is None,
{
    let d = match schema.get("$defs") {
        Some(d) => d,
        None => match schema.get("definitions") {
            Some(d) => d,
            None => {
                return None;
            },
        },
    };
    match d {
        Json::Object(m) => {
            proof { lemma_object_members(m); }
            Some(m)
        },
        _ => None,
    }
}

/// Whether a schema is written inline rather than named.
fn should_inline_schema(schema: &Json) -> (r: bool)
    ensures
        r == inline_worthy(schema@),
{
    match schema {
        Json::Object(_) => schema.get("properties").is_none() && schema.get("oneOf").is_none()
            && schema.get("anyOf").is_none() && schema.get("enum").is_none(),
        _ => true,
    }
}

impl AAT {
    /// Registers a schema as the named type `root_name`, then each entry of
    /// its `$defs` (or `definitions`) under the entry's key.
    pub fn append_types_from_schema(&mut self, schema: &Json, root_name: &str) -> (r: Result<(), Error>)
        ensures
            outcome_state(r, final(self)@, append_types(old(self)@, schema@, root_name@)),
    {
        let root_type = match schema_to_type(schema, root_name) {
            Ok(t) => t,
            Err(e) => {
                return Err(e);
            },
        };
        match self.add_type_with_dedup_check(root_type) {
            Ok(()) => {},
            Err(e) => {
                return Err(e);
            },
        }
        let ghost a1 = self@;
        let defs = match definitions(schema) {
            Some(d) => d,
            None => {
                return Ok(());
            },
        };
        let ghost dv = object_members(defs)->Object_0;
        proof { lemma_object_members(defs); }
        let mut i: usize = 0;
        assert(append_types(old(self)@, schema@, root_name@) == add_definitions_upto(a1, dv, dv.len()));
        while i < defs.len()
            invariant
                append_types(old(self)@, schema@, root_name@) == add_definitions_upto(a1, dv, dv.len()),
                i <= defs.len(),
                dv == object_members(defs)->Object_0,
                dv.len() == defs.len(),
                forall|k: int| 0 <= k < defs.len() ==> #[trigger] dv[k] == (defs[k].0@, defs[k].1@),
                add_definitions_upto(a1, dv, i as nat) == Ok::<AatV, ErrorV>(self@),
            decreases defs.len() - i,
        {
            if is_schema_value(&defs[i].1) {
                let def_type = match schema_to_type(&defs[i].1, defs[i].0.as_str()) {
                    Ok(t) => t,
                    Err(e) => {
                        proof { lemma_definitions_err(a1, dv, i as nat + 1, dv.len()); }
                        return Err(e);
                    },
                };
                match self.add_type_with_dedup_check(def_type) {
                    Ok(()) => {},
                    Err(e) => {
                        proof { lemma_definitions_err(a1, dv, i as nat + 1, dv.len()); }
                        return Err(e);
                    },
                }
            }
            i += 1;
        }
        Ok(())
    }

    /// Names an embedded schema and registers it under that name.
    fn add_schema_and_get_name(&mut self, schema: &Json) -> (r: Result<String, Error>)
        ensures
            outcome(r, final(self)@, match schema_name(old(self)@, schema@) {
                Err(e) => Err(e),
                Ok(n) => match append_types(old(self)@, schema@, n) {
                    Ok(b) => Ok((b, n)),
                    Err(e) => Err(e),
                },
            }),
    {
        let name = match self.extract_schema_name(schema) {
            Ok(n) => n,
            Err(e) => {
                return Err(e);
            },
        };
        match self.append_types_from_schema(schema, name.as_str()) {
            Ok(()) => Ok(name),
            Err(e) => Err(e),
        }
    }

    /// The field type of a spec type, registering the named types it brings.
    fn spec_type_to_field_type(&mut self, t: &Type) -> (r: Result<FieldType, Error>)
        ensures
            outcome(r, final(self)@, import_type(old(self)@, *t)),
        decreases t,
    {
        match t {
            Type::Void => Ok(FieldType::Any),
            Type::Schema(schema) => {
                if should_inline_schema(schema) {
                    schema_to_field_type(schema)
                } else {
                    match self.add_schema_and_get_name(schema) {
                        Ok(name) => Ok(FieldType::Reference(name)),
                        Err(e) => Err(e),
                    }
                }
            },
            Type::List(inner) => match self.spec_type_to_field_type(inner) {
                Ok(f) => Ok(FieldType::List(Box::new(f))),
                Err(e) => Err(e),
            },
            Type::Optional(inner) => match self.spec_type_to_field_type(inner) {
                Ok(f) => Ok(FieldType::Optional(Box::new(f))),
                Err(e) => Err(e),
            },
            Type::Stream(inner) => match self.spec_type_to_field_type(inner) {
                Ok(f) => Ok(FieldType::Stream(Box::new(f))),
                Err(e) => Err(e),
            },
            Type::Tuple(items) => {
                let ghost a0 = self@;
                let mut out: Vec<FieldType> = Vec::new();
                let mut i: usize = 0;
                assert(views_of(out@) =~= Seq::empty());
                while i < items.len()
                    invariant
                        i <= items.len(),
                        t is Tuple,
                        t->Tuple_0 == *items,
                        a0 == old(self)@,
                        import_types_upto(a0, items@, i as nat) == Ok::<(AatV, Seq<FieldTypeV>), ErrorV>((self@, views_of(out@))),
                    decreases items.len() - i,
                {
                    proof {
                        assert(decreases_to!(*t => t->Tuple_0));
                        assert(decreases_to!(*items => items[i as int]));
                    }
                    match self.spec_type_to_field_type(&items[i]) {
                        Ok(f) => {
                            let ghost before = out@;
                            out.push(f);
                            assert(views_of(out@) =~= views_of(before).push(out@.last()@));
                        },
                        Err(e) => {
                            proof { lemma_types_err(a0, items@, i as nat + 1, items@.len()); }
                            return Err(e);
                        },
                    }
                    i += 1;
                }
                proof { lemma_field_type_lists(out); }
                Ok(FieldType::Tuple(out))
            },
            Type::NamedTuple(_) => Err(Error::NamedTupleUnsupported),
        }
    }

    fn spec_header_value_to_aat(&mut self, name: &String, header_value: &input::HeaderValue) -> (r: Result<Header, Error>)
        ensures
            outcome(r, final(self)@, import_header(old(self)@, name@, *header_value)),
    {
        let value = match header_value {
            input::HeaderValue::Literal(lit) => HeaderValue::Literal(lit.clone()),
            input::HeaderValue::Type { name: param, ty } => match self.spec_type_to_field_type(ty) {
                Ok(field_type) => HeaderValue::Parameter { name: param.clone(), field_type },
                Err(e) => {
                    return Err(e);
                },
            },
            input::HeaderValue::Pattern { pattern, name: param, ty } => match self.spec_type_to_field_type(ty) {
                Ok(field_type) => HeaderValue::Pattern { pattern: pattern.clone(), param_name: param.clone(), field_type },
                Err(e) => {
                    return Err(e);
                },
            },
        };
        Ok(Header { name: name.clone(), value })
    }

    fn import_headers(&mut self, headers: &Vec<(String, input::HeaderValue)>) -> (r: Result<Vec<Header>, Error>)
        ensures
            outcome_all(r, final(self)@, import_headers_upto(old(self)@, headers@, headers@.len())),
    {
        let ghost a0 = self@;
        let mut out: Vec<Header> = Vec::new();
        let mut i: usize = 0;
        assert(out@.map_values(|h: Header| h@) =~= Seq::empty());
        while i < headers.len()
            invariant
                i <= headers.len(),
                a0 == old(self)@,
                import_headers_upto(a0, headers@, i as nat) == Ok::<(AatV, Seq<HeaderV>), ErrorV>((self@, out@.map_values(|h: Header| h@))),
            decreases headers.len() - i,
        {
            match self.spec_header_value_to_aat(&headers[i].0, &headers[i].1) {
                Ok(h) => {
                    let ghost before = out@;
                    out.push(h);
                    assert(out@.map_values(|h: Header| h@) =~= before.map_values(|h: Header| h@).push(out@.last()@));
                },
                Err(e) => {
                    proof { lemma_headers_err(a0, headers@, i as nat + 1, headers@.len()); }
                    return Err(e);
                },
            }
            i += 1;
        }
        Ok(out)
    }

    fn import_path(&mut self, path: &Vec<input::PathSegment>) -> (r: Result<Vec<PathSegment>, Error>)
        ensures
            outcome_all(r, final(self)@, import_path_upto(old(self)@, path@, path@.len())),
    {
        let ghost a0 = self@;
        let mut out: Vec<PathSegment> = Vec::new();
        let mut i: usize = 0;
        assert(out@.map_values(|p: PathSegment| p@) =~= Seq::empty());
        while i < path.len()
            invariant
                i <= path.len(),
                a0 == old(self)@,
                import_path_upto(a0, path@, i as nat) == Ok::<(AatV, Seq<PathSegmentV>), ErrorV>((self@, out@.map_values(|p: PathSegment| p@))),
            decreases path.len() - i,
        {
            let segment = match &path[i] {
                input::PathSegment::Literal(lit) => PathSegment::Literal(lit.clone()),
                input::PathSegment::Type { name, ty } => {
                    match validate_path_parameter_type(ty) {
                        Ok(()) => {},
                        Err(e) => {
                            proof { lemma_path_err(a0, path@, i as nat + 1, path@.len()); }
                            return Err(e);
                        },
                    }
                    match self.spec_type_to_field_type(ty) {
                        Ok(f) => PathSegment::Parameter { name: name.clone(), ty: f },
                        Err(e) => {
                            proof { lemma_path_err(a0, path@, i as nat + 1, path@.len()); }
                            return Err(e);
                        },
                    }
                },
            };
            let ghost before = out@;
            out.push(segment);
            assert(out@.map_values(|p: PathSegment| p@) =~= before.map_values(|p: PathSegment| p@).push(out@.last()@));
            i += 1;
        }
        Ok(out)
    }

    fn import_optional(&mut self, t: &Option<Type>) -> (r: Result<Option<FieldType>, Error>)
        ensures
            match import_opt(old(self)@, *t) {
                Ok((a, v)) => r matches Ok(x) && crate::types::opt_field_type(x) == v && final(self)@ == a,
                Err(e) => r matches Err(x) && x@ == e,
            },
    {
        match t {
            None => Ok(None),
            Some(t) => match self.spec_type_to_field_type(t) {
                Ok(f) => Ok(Some(f)),
                Err(e) => Err(e),
            },
        }
    }

    fn import_endpoint(&mut self, e: &input::Endpoint) -> (r: Result<Endpoint, Error>)
        ensures
            outcome(r, final(self)@, import_endpoint(old(self)@, *e)),
    {
        let path = match self.import_path(&e.path) {
            Ok(p) => p,
            Err(x) => {
                return Err(x);
            },
        };
        let query = match self.import_optional(&e.query) {
            Ok(q) => q,
            Err(x) => {
                return Err(x);
            },
        };
        let body = match self.import_optional(&e.body) {
            Ok(b) => b,
            Err(x) => {
                return Err(x);
            },
        };
        let response = match self.spec_type_to_field_type(&e.response) {
            Ok(f) => f,
            Err(x) => {
                return Err(x);
            },
        };
        let method = match e.method {
            Method::Get => HttpMethod::Get,
            Method::Post => HttpMethod::Post,
            Method::Put => HttpMethod::Put,
            Method::Delete => HttpMethod::Delete,
            Method::Patch => HttpMethod::Patch,
        };
        let headers = match self.import_headers(&e.headers) {
            Ok(h) => h,
            Err(x) => {
                return Err(x);
            },
        };
        let upgrade = match e.upgrade {
            Some(input::Upgrade::Ws) => Some(Upgrade::Ws),
            None => None,
        };
        Ok(Endpoint { name: e.name.clone(), method, path, query, body, response, upgrade, headers })
    }

    fn import_service(&mut self, s: &input::Service) -> (r: Result<Service, Error>)
        ensures
            outcome(r, final(self)@, import_service(old(self)@, *s)),
    {
        let headers = match self.import_headers(&s.headers) {
            Ok(h) => h,
            Err(x) => {
                return Err(x);
            },
        };
        let ghost a0 = self@;
        let mut endpoints: Vec<Endpoint> = Vec::new();
        let mut i: usize = 0;
        assert(endpoints@.map_values(|e: Endpoint| e@) =~= Seq::empty());
        while i < s.endpoints.len()
            invariant
                i <= s.endpoints.len(),
                import_headers_upto(old(self)@, s.headers@, s.headers@.len()) == Ok::<(AatV, Seq<HeaderV>), ErrorV>((a0, headers@.map_values(|h: Header| h@))),
                import_endpoints_upto(a0, s.endpoints@, i as nat) == Ok::<(AatV, Seq<EndpointV>), ErrorV>((self@, endpoints@.map_values(|e: Endpoint| e@))),
            decreases s.endpoints.len() - i,
        {
            match self.import_endpoint(&s.endpoints[i]) {
                Ok(e) => {
                    let ghost before = endpoints@;
                    endpoints.push(e);
                    assert(endpoints@.map_values(|e: Endpoint| e@) =~= before.map_values(|e: Endpoint| e@).push(endpoints@.last()@));
                },
                Err(x) => {
                    proof { lemma_endpoints_err(a0, s.endpoints@, i as nat + 1, s.endpoints@.len()); }
                    return Err(x);
                },
            }
            i += 1;
        }
        Ok(Service { name: s.name.clone(), endpoints, headers })
    }

    /// Adds the root headers and the services of `spec`, registering every
    /// named type they bring.
    pub fn import_from_spec(&mut self, spec: &input::Spec) -> (r: Result<(), Error>)
        ensures
            outcome_state(r, final(self)@, import_spec(old(self)@, *spec)),
    {
        let headers = match self.import_headers(&spec.headers) {
            Ok(h) => h,
            Err(x) => {
                return Err(x);
            },
        };
        let ghost a1 = self@;
        let mut services: Vec<Service> = Vec::new();
        let mut i: usize = 0;
        assert(services@.map_values(|s: Service| s@) =~= Seq::empty());
        while i < spec.services.len()
            invariant
                i <= spec.services.len(),
                import_headers_upto(old(self)@, spec.headers@, spec.headers@.len()) == Ok::<(AatV, Seq<HeaderV>), ErrorV>((a1, headers@.map_values(|h: Header| h@))),
                import_services_upto(a1, spec.services@, i as nat) == Ok::<(AatV, Seq<ServiceV>), ErrorV>((self@, services@.map_values(|s: Service| s@))),
            decreases spec.services.len() - i,
        {
            match self.import_service(&spec.services[i]) {
                Ok(s) => {
                    let ghost before = services@;
                    services.push(s);
                    assert(services@.map_values(|s: Service| s@) =~= before.map_values(|s: Service| s@).push(services@.last()@));
                },
                Err(x) => {
                    proof { lemma_services_err(a1, spec.services@, i as nat + 1, spec.services@.len()); }
                    return Err(x);
                },
            }
            i += 1;
        }
        let mut headers = headers;
        let mut services = services;
        let ghost hv = headers@.map_values(|h: Header| h@);
        let ghost sv = services@.map_values(|s: Service| s@);
        let ghost before = self@;
        self.headers.append(&mut headers);
        self.services.append(&mut services);
        assert(self@.headers =~= before.headers + hv);
        assert(self@.services =~= before.services + sv);
        Ok(())
    }
}

impl Named for NamedType {
    open spec fn key(&self) -> Seq<char> {
        self@.name()
    }

    fn key_text(&self) -> (r: &String) {
        self.name()
    }
}

impl Named for Service {
    open spec fn key(&self) -> Seq<char> {
        self.name@
    }

    fn key_text(&self) -> (r: &String) {
        &self.name
    }
}

impl Named for Endpoint {
    open spec fn key(&self) -> Seq<char> {
        self.name@
    }

    fn key_text(&self) -> (r: &String) {
        &self.name
    }
}

pub open spec fn endpoints_sorted(s: ServiceV) -> ServiceV {
    ServiceV { endpoints: sort_by(s.endpoints, |e: EndpointV| e.name), ..s }
}

/// The tree with its types and services sorted by name, and the endpoints
/// of each service sorted by name.
pub open spec fn sorted_aat(a: AatV) -> AatV {
    AatV {
        types: sort_by(a.types, |t: NamedTypeV| t.name()),
        services: sort_by(a.services, |s: ServiceV| s.name).map_values(|s: ServiceV| endpoints_sorted(s)),
        ..a
    }
}

pub open spec fn empty_aat() -> AatV {
    AatV { types: Seq::empty(), services: Seq::empty(), headers: Seq::empty(), type_names: Seq::empty() }
}

/// What building a tree from `spec` gives: the import into an empty tree,
/// sorted.
pub open spec fn build(spec: input::Spec) -> Result<AatV, ErrorV> {
    match import_spec(empty_aat(), spec) {
        Ok(a) => Ok(sorted_aat(a)),
        Err(e) => Err(e),
    }
}

fn sort_endpoints(s: &mut Service)
    ensures
        final(s)@ == endpoints_sorted(old(s)@),
{
    let ghost before = s.endpoints@;
    sort_by_name(&mut s.endpoints);
    proof {
        lemma_sort_map(before, |e: Endpoint| e@, |e: Endpoint| e.key(), |e: EndpointV| e.name);
    }
}

impl AAT {
    /// Sorts types, services, and each service's endpoints by name.
    fn sort(&mut self)
        ensures
            final(self)@ == sorted_aat(old(self)@),
    {
        let ghost types0 = self.types@;
        let ghost services0 = self.services@;
        sort_by_name(&mut self.types);
        proof {
            lemma_sort_map(types0, |t: NamedType| t@, |t: NamedType| t.key(), |t: NamedTypeV| t.name());
        }
        sort_by_name(&mut self.services);
        proof {
            lemma_sort_map(services0, |s: Service| s@, |s: Service| s.key(), |s: ServiceV| s.name);
        }
        let ghost sorted = self.services@;
        assert(sorted.len() == self.services.len());
        assert(type_views(self.types@) =~= sort_by(type_views(types0), |t: NamedTypeV| t.name()));
        let ghost types1 = self.types@;
        let ghost headers1 = self.headers@;
        let ghost names1 = self.type_names@;
        let mut services: Vec<Service> = Vec::new();
        let mut i: usize = 0;
        while self.services.len() > 0
            invariant
                i + self.services@.len() == sorted.len(),
                sorted.len() <= usize::MAX,
                self.types@ == types1,
                self.headers@ == headers1,
                self.type_names@ == names1,
                self.services@ == sorted.skip(i as int),
                services.len() == i,
                forall|k: int| 0 <= k < i ==> (#[trigger] services@[k])@ == endpoints_sorted(sorted[k]@),
            decreases self.services.len(),
        {
            let mut s = self.services.remove(0);
            assert(s == sorted[i as int]);
            sort_endpoints(&mut s);
            services.push(s);
            i += 1;
            assert(self.services@ =~= sorted.skip(i as int));
        }
        self.services = services;
        assert(service_views(sorted) =~= sort_by(service_views(services0), |s: ServiceV| s.name));
        assert(service_views(self.services@) =~= service_views(sorted).map_values(|s: ServiceV| endpoints_sorted(s)));
    }

    /// Builds the tree of `spec`: every type reached is normalised and
    /// registered, then types, services and endpoints are sorted by name.
    pub fn from_spec(spec: &input::Spec) -> (r: Result<AAT, Error>)
        ensures
            result_view(r) == build(*spec),
    {
        let mut aat = AAT::new();
        assert(aat@ == empty_aat()) by {
            assert(aat@.types =~= Seq::empty());
            assert(aat@.services =~= Seq::empty());
            assert(aat@.headers =~= Seq::empty());
            assert(aat@.type_names =~= Seq::empty());
        }
        match aat.import_from_spec(spec) {
            Ok(()) => {},
            Err(e) => {
                return Err(e);
            },
        }
        aat.sort();
        Ok(aat)
    }
}

impl AAT {
    /// Checks that every type reference resolves and that every path
    /// parameter can be written as one string. Changes nothing.
    pub fn validate(&self) -> (r: Result<(), Error>)
        ensures
            checked(r, validation_error(self@.services, self@.types)),
    {
        validate_references(&self.services, &self.types)
    }
}

/// No two types share a name.
pub open spec fn names_unique(types: Seq<NamedTypeV>) -> bool {
    forall|i: int, j: int| 0 <= i < j < types.len() ==> (#[trigger] types[i]).name() != (#[trigger] types[j]).name()
}

/// A type structurally equal to `t` is the one registered under its name.
pub open spec fn registered(a: AatV, t: NamedTypeV) -> bool {
    type_named(a.types, t.name()) matches Some(e) && structurally_equal(e, t)
}

proof fn lemma_type_named_push(s: Seq<NamedTypeV>, t: NamedTypeV, n: Seq<char>)
    requires
        type_named(s, t.name()) is None,
    ensures
        n == t.name() ==> type_named(s.push(t), n) == Some(t),
        n != t.name() ==> type_named(s.push(t), n) == type_named(s, n),
{
    let p = s.push(t);
    if n == t.name() {
        assert forall|j: int| 0 <= j < s.len() implies s[j].name() != n by {
            if s[j].name() == n {
                let k = choose|k: int| 0 <= k <= j && s[k].name() == n && forall|m: int| 0 <= m < k ==> s[m].name() != n;
                assert(is_first_named(s, n, k)) by {
                    lemma_first_index(s, n, j);
                }
            }
        }
        assert(is_first_named(p, n, s.len() as int));
        let c = choose|c: int| is_first_named(p, n, c);
        assert(c == s.len()) by {
            if c < s.len() {
                assert(p[c] == s[c]);
            }
        }
    } else {
        if exists|i: int| is_first_named(s, n, i) {
            let i = choose|i: int| is_first_named(s, n, i);
            assert(is_first_named(p, n, i));
            let c = choose|c: int| is_first_named(p, n, c);
            assert(c == i) by {
                if c < i {
                    assert(p[c] == s[c]);
                } else if c > i {
                    assert(p[i] == s[i]);
                }
            }
        } else {
            assert forall|c: int| !is_first_named(p, n, c) by {
                if is_first_named(p, n, c) {
                    assert(c < s.len());
                    assert(p[c] == s[c]);
                    assert forall|j: int| 0 <= j < c implies s[j].name() != n by {
                        assert(p[j] == s[j]);
                    }
                    assert(is_first_named(s, n, c));
                }
            }
        }
    }
}

/// When some type has a name, a first one does.
proof fn lemma_first_index(s: Seq<NamedTypeV>, n: Seq<char>, j: int)
    requires
        0 <= j < s.len(),
        s[j].name() == n,
    ensures
        exists|k: int| is_first_named(s, n, k),
        type_named(s, n) is Some,
    decreases j,
{
    if exists|m: int| 0 <= m < j && s[m].name() == n {
        let m = choose|m: int| 0 <= m < j && s[m].name() == n;
        lemma_first_index(s, n, m);
    } else {
        assert(is_first_named(s, n, j));
    }
}

proof fn lemma_add_type_registers(a: AatV, t: NamedTypeV)
    requires
        add_type(a, t) is Ok,
    ensures
        registered(add_type(a, t)->Ok_0, t),
        forall|u: NamedTypeV| #[trigger] registered(a, u) ==> registered(add_type(a, t)->Ok_0, u),
        names_unique(a.types) ==> names_unique(add_type(a, t)->Ok_0.types),
{
    let b = add_type(a, t)->Ok_0;
    structural_equality_is_an_equivalence(t, t, t);
    if type_named(a.types, t.name()) is None {
        lemma_type_named_push(a.types, t, t.name());
        assert forall|u: NamedTypeV| #[trigger] registered(a, u) implies registered(b, u) by {
            lemma_type_named_push(a.types, t, u.name());
        }
        if names_unique(a.types) {
            assert forall|i: int, j: int| 0 <= i < j < b.types.len() implies (#[trigger] b.types[i]).name() != (#[trigger] b.types[j]).name() by {
                if j == a.types.len() && a.types[i].name() == t.name() {
                    lemma_first_index(a.types, t.name(), i);
                }
            }
        }
    }
}

proof fn lemma_definitions_register(a: AatV, defs: Seq<(Seq<char>, JsonV)>, n: nat)
    requires
        n <= defs.len(),
        add_definitions_upto(a, defs, n) is Ok,
    ensures
        forall|u: NamedTypeV| #[trigger] registered(a, u) ==> registered(add_definitions_upto(a, defs, n)->Ok_0, u),
        forall|k: int|
            0 <= k < n && is_schema(#[trigger] defs[k].1) ==> named_type_of(defs[k].1, defs[k].0) is Ok
                && registered(add_definitions_upto(a, defs, n)->Ok_0, named_type_of(defs[k].1, defs[k].0)->Ok_0),
        names_unique(a.types) ==> names_unique(add_definitions_upto(a, defs, n)->Ok_0.types),
    decreases n,
{
    if n > 0 {
        lemma_definitions_register(a, defs, (n - 1) as nat);
        let b = add_definitions_upto(a, defs, (n - 1) as nat)->Ok_0;
        if is_schema(defs[n - 1].1) {
            let t = named_type_of(defs[n - 1].1, defs[n - 1].0)->Ok_0;
            lemma_add_type_registers(b, t);
        }
    }
}

proof fn lemma_definitions_again(c: AatV, defs: Seq<(Seq<char>, JsonV)>, n: nat)
    requires
        n <= defs.len(),
        forall|k: int|
            0 <= k < n && is_schema(#[trigger] defs[k].1) ==> named_type_of(defs[k].1, defs[k].0) is Ok
                && registered(c, named_type_of(defs[k].1, defs[k].0)->Ok_0),
    ensures
        add_definitions_upto(c, defs, n) == Ok::<AatV, ErrorV>(c),
    decreases n,
{
    if n > 0 {
        lemma_definitions_again(c, defs, (n - 1) as nat);
        if is_schema(defs[n - 1].1) {
            assert(is_schema(defs[n - 1].1));
        }
    }
}

/// Registering the same schema twice under one name: the second time
/// changes nothing; and where names were unique before, the name holds
/// exactly one type.
pub proof fn registering_twice_changes_nothing(a: AatV, s: JsonV, root: Seq<char>)
    requires
        append_types(a, s, root) is Ok,
    ensures
        append_types(append_types(a, s, root)->Ok_0, s, root) == append_types(a, s, root),
        names_unique(a.types) ==> names_unique(append_types(a, s, root)->Ok_0.types),
        (exists|i: int| 0 <= i < append_types(a, s, root)->Ok_0.types.len()
            && (#[trigger] append_types(a, s, root)->Ok_0.types[i]).name() == root),
{
    let t = named_type_of(s, root)->Ok_0;
    let b = add_type(a, t)->Ok_0;
    let c = append_types(a, s, root)->Ok_0;
    assert(t.name() == root);
    lemma_add_type_registers(a, t);
    match definitions_of(s) {
        Some(defs) => {
            lemma_definitions_register(b, defs, defs.len());
            lemma_definitions_again(c, defs, defs.len());
        },
        None => {},
    }
    assert(registered(c, t));
    let i = choose|i: int| is_first_named(c.types, root, i);
    assert(c.types[i].name() == root);
}

/// Two structurally different types under one name: whichever is
/// registered first, registering the other fails with a collision.
pub proof fn different_types_under_one_name_collide(a: AatV, t1: NamedTypeV, t2: NamedTypeV)
    requires
        t1.name() == t2.name(),
        !structurally_equal(t1, t2),
    ensures
        add_type(a, t1) is Ok ==> add_type(add_type(a, t1)->Ok_0, t2) == Err::<AatV, ErrorV>(ErrorV::NameCollision(t2.name())),
        add_type(a, t2) is Ok ==> add_type(add_type(a, t2)->Ok_0, t1) == Err::<AatV, ErrorV>(ErrorV::NameCollision(t1.name())),
{
    structural_equality_is_an_equivalence(t2, t1, t1);
    match type_named(a.types, t1.name()) {
        Some(e) => {
            structural_equality_is_an_equivalence(e, t1, t2);
            structural_equality_is_an_equivalence(e, t2, t1);
            structural_equality_is_an_equivalence(t1, e, t2);
            structural_equality_is_an_equivalence(t2, e, t1);
        },
        None => {
            lemma_type_named_push(a.types, t1, t1.name());
            lemma_type_named_push(a.types, t2, t2.name());
        },
    }
}

/// The tree a spec builds is a function of the spec alone (`from_spec`
/// returns `build(spec)`), and its order is the order of names: types,
/// services, and the endpoints of each service are sorted by name.
pub proof fn build_is_sorted(spec: input::Spec)
    ensures
        build(spec) matches Ok(a) ==> {
            &&& sorted_by(a.types, |t: NamedTypeV| t.name())
            &&& sorted_by(a.services, |s: ServiceV| s.name)
            &&& forall|k: int| 0 <= k < a.services.len() ==> sorted_by(#[trigger] a.services[k].endpoints, |e: EndpointV| e.name)
        },
{
    if let Ok(a0) = import_spec(empty_aat(), spec) {
        let a = sorted_aat(a0);
        lemma_sort_sorted(a0.types, |t: NamedTypeV| t.name());
        let s1 = sort_by(a0.services, |s: ServiceV| s.name);
        lemma_sort_sorted(a0.services, |s: ServiceV| s.name);
        assert forall|i: int, j: int| 0 <= i < j < a.services.len() implies crate::text::text_le(
            (#[trigger] a.services[i]).name,
            (#[trigger] a.services[j]).name,
        ) by {
            assert(a.services[i].name == s1[i].name);
            assert(a.services[j].name == s1[j].name);
        }
        assert forall|k: int| 0 <= k < a.services.len() implies sorted_by(#[trigger] a.services[k].endpoints, |e: EndpointV| e.name) by {
            lemma_sort_sorted(s1[k].endpoints, |e: EndpointV| e.name);
        }
    }
}

proof fn lemma_append_registers(a: AatV, s: JsonV, root: Seq<char>)
    requires
        append_types(a, s, root) is Ok,
    ensures
        registered(append_types(a, s, root)->Ok_0, named_type_of(s, root)->Ok_0),
{
    let t = named_type_of(s, root)->Ok_0;
    let b = add_type(a, t)->Ok_0;
    lemma_add_type_registers(a, t);
    if let Some(defs) = definitions_of(s) {
        lemma_definitions_register(b, defs, defs.len());
    }
}

/// Two schemas that describe structurally different types under one name:
/// whichever is registered first, registering the other fails with a
/// collision naming it.
pub proof fn different_schemas_under_one_name_collide(a: AatV, s1: JsonV, s2: JsonV, name: Seq<char>)
    requires
        named_type_of(s1, name) is Ok,
        named_type_of(s2, name) is Ok,
        !structurally_equal(named_type_of(s1, name)->Ok_0, named_type_of(s2, name)->Ok_0),
    ensures
        append_types(a, s1, name) is Ok ==> append_types(append_types(a, s1, name)->Ok_0, s2, name)
            == Err::<AatV, ErrorV>(ErrorV::NameCollision(name)),
        append_types(a, s2, name) is Ok ==> append_types(append_types(a, s2, name)->Ok_0, s1, name)
            == Err::<AatV, ErrorV>(ErrorV::NameCollision(name)),
{
    let t1 = named_type_of(s1, name)->Ok_0;
    let t2 = named_type_of(s2, name)->Ok_0;
    structural_equality_is_an_equivalence(t2, t1, t1);
    if append_types(a, s1, name) is Ok {
        let b = append_types(a, s1, name)->Ok_0;
        lemma_append_registers(a, s1, name);
        let e = type_named(b.types, name)->Some_0;
        structural_equality_is_an_equivalence(t1, e, t2);
        structural_equality_is_an_equivalence(e, t1, t2);
    }
    if append_types(a, s2, name) is Ok {
        let b = append_types(a, s2, name)->Ok_0;
        lemma_append_registers(a, s2, name);
        let e = type_named(b.types, name)->Some_0;
        structural_equality_is_an_equivalence(t2, e, t1);
        structural_equality_is_an_equivalence(e, t2, t1);
    }
}

} // verus!
