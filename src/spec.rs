use vstd::prelude::*;
use crate::json::{Json, JsonV, copy_json};
use crate::text::{is_blank, lemma_text_lt_irreflexive, lemma_text_lt_total, lemma_text_lt_transitive, same_text, text_less, text_lt, text_of};

verus! {

broadcast use vstd::std_specs::vec::group_vec_axioms;

#[derive(Clone, Copy, Debug, PartialEq, Eq, Structural)]
pub enum Method {
    Get,
    Post,
    Put,
    Delete,
    Patch,
}

#[derive(Clone, Copy, Debug, PartialEq, Eq, Structural)]
pub enum Upgrade {
    Ws,
}

/// How a value is described before normalisation.
#[derive(Debug)]
pub enum Type {
    Void,
    Schema(Json),
    Stream(Box<Type>),
    List(Box<Type>),
    Optional(Box<Type>),
    Tuple(Vec<Type>),
    NamedTuple(Vec<(String, Type)>),
}

#[derive(Clone, Debug)]
pub enum PathSegment {
    Literal(String),
    Type { name: String, ty: Type },
}

/// How an HTTP header's value is computed: a constant, a typed parameter,
/// or a parameter put into a template.
#[derive(Clone, Debug)]
pub enum HeaderValue {
    Literal(String),
    Type { name: String, ty: Type },
    Pattern { pattern: String, name: String, ty: Type },
}

/// Header names strictly increase: each name occurs once, in the order of
/// names, as in an ordered map.
pub open spec fn headers_sorted(h: Seq<(String, HeaderValue)>) -> bool {
    forall|i: int, j: int| 0 <= i < j < h.len() ==> text_lt((#[trigger] h[i]).0@, (#[trigger] h[j]).0@)
}

/// The position of the header named `name`, if any.
pub open spec fn header_position(h: Seq<(String, HeaderValue)>, name: Seq<char>) -> Option<int> {
    if exists|i: int| 0 <= i < h.len() && h[i].0@ == name {
        Some(choose|i: int| 0 <= i < h.len() && h[i].0@ == name)
    } else {
        None
    }
}

/// `after` is `before` with the header `name` set to `value`: replaced in
/// place where present, else inserted.
pub open spec fn header_set(before: Seq<(String, HeaderValue)>, after: Seq<(String, HeaderValue)>, name: Seq<char>, value: HeaderValue) -> bool {
    match header_position(before, name) {
        Some(i) => after.len() == before.len() && after[i].0@ == name && after[i].1 == value
            && forall|k: int| 0 <= k < after.len() && k != i ==> after[k] == before[k],
        None => exists|p: int|
            0 <= p <= before.len() && after.len() == before.len() + 1 && after[p].0@ == name && after[p].1 == value
                && after.take(p) == before.take(p) && after.skip(p + 1) == before.skip(p),
    }
}

/// Sets the header `name`: replaces its value where it is present, else
/// inserts it at the place its name sorts to.
pub fn set_header(headers: &mut Vec<(String, HeaderValue)>, name: String, value: HeaderValue)
    requires
        headers_sorted(old(headers)@),
    ensures
        headers_sorted(final(headers)@),
        header_set(old(headers)@, final(headers)@, name@, value),
        header_position(old(headers)@, name@) matches Some(i) ==> final(headers)@ == old(headers)@.update(i, (name, value)),
        header_position(old(headers)@, name@) is None ==> (exists|p: int|
            0 <= p <= old(headers)@.len() && final(headers)@ == old(headers)@.take(p).push((name, value)) + old(headers)@.skip(p)),
{
    let ghost h = headers@;
    let mut i: usize = 0;
    while i < headers.len() && text_less(headers[i].0.as_str(), name.as_str())
        invariant
            i <= headers.len(),
            headers@ == h,
            headers_sorted(h),
            forall|k: int| 0 <= k < i ==> text_lt((#[trigger] h[k]).0@, name@),
        decreases headers.len() - i,
    {
        i += 1;
    }
    proof {
        assert forall|k: int| 0 <= k < i implies (#[trigger] h[k]).0@ != name@ by {
            lemma_text_lt_irreflexive(name@);
        }
    }
    if i < headers.len() && same_text(headers[i].0.as_str(), name.as_str()) {
        proof {
            let c = choose|c: int| 0 <= c < h.len() && h[c].0@ == name@;
            assert(c == i) by {
                if c > i {
                    assert(text_lt(h[i as int].0@, h[c].0@));
                    lemma_text_lt_irreflexive(name@);
                }
            }
        }
        headers.set(i, (name, value));
        assert forall|a: int, b: int| 0 <= a < b < headers@.len() implies text_lt((#[trigger] headers@[a]).0@, (#[trigger] headers@[b]).0@) by {
            assert(headers@[a].0@ == h[a].0@);
            assert(headers@[b].0@ == h[b].0@);
        }
        return;
    }
    proof {
        if i < h.len() {
            lemma_text_lt_total(h[i as int].0@, name@);
        }
        assert forall|k: int| i <= k < h.len() implies text_lt(name@, (#[trigger] h[k]).0@) by {
            if k > i {
                lemma_text_lt_transitive(name@, h[i as int].0@, h[k].0@);
            }
        }
        assert(header_position(h, name@) is None) by {
            assert forall|k: int| 0 <= k < h.len() implies h[k].0@ != name@ by {
                if k >= i {
                    lemma_text_lt_irreflexive(name@);
                }
            }
        }
    }
    headers.insert(i, (name, value));
    let ghost n = headers@;
    assert(n =~= h.take(i as int).push(n[i as int]) + h.skip(i as int));
    assert(n.take(i as int) =~= h.take(i as int));
    assert(n.skip(i + 1) =~= h.skip(i as int));
    assert forall|a: int, b: int| 0 <= a < b < n.len() implies text_lt((#[trigger] n[a]).0@, (#[trigger] n[b]).0@) by {
        if b < i {
            assert(n[a] == h[a] && n[b] == h[b]);
        } else if b == i {
            assert(n[a] == h[a]);
        } else if a < i {
            assert(n[a] == h[a] && n[b] == h[b - 1]);
            lemma_text_lt_transitive(h[a].0@, name@, h[b - 1].0@);
        } else if a == i {
            assert(n[b] == h[b - 1]);
        } else {
            assert(n[a] == h[a - 1] && n[b] == h[b - 1]);
        }
    }
}

#[derive(Clone, Debug)]
pub struct Endpoint {
    pub name: String,
    pub method: Method,
    pub path: Vec<PathSegment>,
    pub query: Option<Type>,
    pub body: Option<Type>,
    pub response: Type,
    pub upgrade: Option<Upgrade>,
    pub headers: Vec<(String, HeaderValue)>,
}

#[derive(Clone, Debug)]
pub struct Service {
    pub name: String,
    pub endpoints: Vec<Endpoint>,
    pub headers: Vec<(String, HeaderValue)>,
}

/// An API: its metadata, root headers and services.
#[derive(Clone, Debug)]
pub struct Spec {
    pub name: String,
    pub organization: Option<String>,
    pub repository: Option<String>,
    pub website: Option<String>,
    pub docs: Option<String>,
    pub description: Option<String>,
    pub headers: Vec<(String, HeaderValue)>,
    pub services: Vec<Service>,
}

impl Spec {
    /// A spec with no metadata, headers or services.
    pub fn new(name: &str) -> (r: Spec)
        requires
            !is_blank(name@),
        ensures
            r.name@ == name@,
            r.organization is None,
            r.repository is None,
            r.website is None,
            r.docs is None,
            r.description is None,
            r.headers@.len() == 0,
            r.services@.len() == 0,
    {
        Spec {
            name: text_of(name),
            organization: None,
            repository: None,
            website: None,
            docs: None,
            description: None,
            headers: Vec::new(),
            services: Vec::new(),
        }
    }

    pub fn services(&self) -> (r: &Vec<Service>)
        ensures
            r == &self.services,
    {
        &self.services
    }

    pub fn headers(&self) -> (r: &Vec<(String, HeaderValue)>)
        ensures
            r == &self.headers,
    {
        &self.headers
    }

    /// Sets the root header `name`.
    pub fn header(self, name: &str, value: HeaderValue) -> (r: Spec)
        requires
            headers_sorted(self.headers@),
        ensures
            headers_sorted(r.headers@),
            header_set(self.headers@, r.headers@, name@, value),
            r.services == self.services,
    {
        let mut s = self;
        set_header(&mut s.headers, text_of(name), value);
        s
    }

    pub fn organization(self, organization: &str) -> (r: Spec)
        ensures
            r.organization matches Some(o) && o@ == organization@,
            r.services == self.services,
            r.headers == self.headers,
    {
        let mut s = self;
        s.organization = Some(text_of(organization));
        s
    }

    pub fn repository(self, repository: &str) -> (r: Spec)
        ensures
            r.repository matches Some(o) && o@ == repository@,
            r.services == self.services,
            r.headers == self.headers,
    {
        let mut s = self;
        s.repository = Some(text_of(repository));
        s
    }

    pub fn website(self, website: &str) -> (r: Spec)
        ensures
            r.website matches Some(o) && o@ == website@,
            r.services == self.services,
            r.headers == self.headers,
    {
        let mut s = self;
        s.website = Some(text_of(website));
        s
    }

    pub fn docs(self, docs: &str) -> (r: Spec)
        ensures
            r.docs matches Some(o) && o@ == docs@,
            r.services == self.services,
            r.headers == self.headers,
    {
        let mut s = self;
        s.docs = Some(text_of(docs));
        s
    }

    pub fn description(self, description: &str) -> (r: Spec)
        ensures
            r.description matches Some(o) && o@ == description@,
            r.services == self.services,
            r.headers == self.headers,
    {
        let mut s = self;
        s.description = Some(text_of(description));
        s
    }

    /// Appends the service `name`, as `block` shapes it from an empty one.
    pub fn service<F: FnOnce(Service) -> Service>(self, name: &str, block: F) -> (r: Spec)
        requires
            !is_blank(name@),
            forall|s: Service| #[trigger] block.requires((s,)),
        ensures
            r.services@.len() == self.services@.len() + 1,
            r.services@.drop_last() == self.services@,
            exists|s: Service| s.name@ == name@ && s.endpoints@.len() == 0 && s.headers@.len() == 0
                && block.ensures((s,), r.services@.last()),
            r.headers == self.headers,
    {
        let fresh = Service::new(name);
        let built = block(fresh);
        let mut s = self;
        s.services.push(built);
        s
    }
}

impl Service {
    pub fn new(name: &str) -> (r: Service)
        requires
            !is_blank(name@),
        ensures
            r.name@ == name@,
            r.endpoints@.len() == 0,
            r.headers@.len() == 0,
    {
        Service { name: text_of(name), endpoints: Vec::new(), headers: Vec::new() }
    }

    pub fn name(&self) -> (r: &String)
        ensures
            r@ == self.name@,
    {
        &self.name
    }

    pub fn endpoints(&self) -> (r: &Vec<Endpoint>)
        ensures
            r == &self.endpoints,
    {
        &self.endpoints
    }

    pub fn headers(&self) -> (r: &Vec<(String, HeaderValue)>)
        ensures
            r == &self.headers,
    {
        &self.headers
    }

    /// Sets the service header `name`.
    pub fn header(self, name: &str, value: HeaderValue) -> (r: Service)
        requires
            headers_sorted(self.headers@),
        ensures
            headers_sorted(r.headers@),
            header_set(self.headers@, r.headers@, name@, value),
            r.endpoints == self.endpoints,
            r.name == self.name,
    {
        let mut s = self;
        set_header(&mut s.headers, text_of(name), value);
        s
    }

    /// Appends the endpoint `name`, as `block` shapes it from a bare one.
    pub fn endpoint<F: FnOnce(Endpoint) -> Endpoint>(self, name: &str, method: Method, path: Vec<PathSegment>, block: F) -> (r: Service)
        requires
            !is_blank(name@),
            forall|e: Endpoint| #[trigger] block.requires((e,)),
        ensures
            r.endpoints@.len() == self.endpoints@.len() + 1,
            r.endpoints@.drop_last() == self.endpoints@,
            exists|e: Endpoint| e.name@ == name@ && e.method == method && e.path == path && e.query is None
                && e.body is None && e.response is Void && e.upgrade is None && e.headers@.len() == 0
                && block.ensures((e,), r.endpoints@.last()),
            r.name == self.name,
            r.headers == self.headers,
    {
        let fresh = Endpoint::new(name, method, path);
        let built = block(fresh);
        let mut s = self;
        s.endpoints.push(built);
        s
    }

    pub fn get<F: FnOnce(Endpoint) -> Endpoint>(self, name: &str, path: Vec<PathSegment>, block: F) -> (r: Service)
        requires
            !is_blank(name@),
            forall|e: Endpoint| #[trigger] block.requires((e,)),
        ensures
            r.endpoints@.len() == self.endpoints@.len() + 1,
            r.endpoints@.drop_last() == self.endpoints@,
            exists|e: Endpoint| e.name@ == name@ && e.method == Method::Get && e.path == path
                && block.ensures((e,), r.endpoints@.last()),
    {
        self.endpoint(name, Method::Get, path, block)
    }

    pub fn post<F: FnOnce(Endpoint) -> Endpoint>(self, name: &str, path: Vec<PathSegment>, block: F) -> (r: Service)
        requires
            !is_blank(name@),
            forall|e: Endpoint| #[trigger] block.requires((e,)),
        ensures
            r.endpoints@.len() == self.endpoints@.len() + 1,
            r.endpoints@.drop_last() == self.endpoints@,
            exists|e: Endpoint| e.name@ == name@ && e.method == Method::Post && e.path == path
                && block.ensures((e,), r.endpoints@.last()),
    {
        self.endpoint(name, Method::Post, path, block)
    }

    pub fn put<F: FnOnce(Endpoint) -> Endpoint>(self, name: &str, path: Vec<PathSegment>, block: F) -> (r: Service)
        requires
            !is_blank(name@),
            forall|e: Endpoint| #[trigger] block.requires((e,)),
        ensures
            r.endpoints@.len() == self.endpoints@.len() + 1,
            r.endpoints@.drop_last() == self.endpoints@,
            exists|e: Endpoint| e.name@ == name@ && e.method == Method::Put && e.path == path
                && block.ensures((e,), r.endpoints@.last()),
    {
        self.endpoint(name, Method::Put, path, block)
    }

    pub fn delete<F: FnOnce(Endpoint) -> Endpoint>(self, name: &str, path: Vec<PathSegment>, block: F) -> (r: Service)
        requires
            !is_blank(name@),
            forall|e: Endpoint| #[trigger] block.requires((e,)),
        ensures
            r.endpoints@.len() == self.endpoints@.len() + 1,
            r.endpoints@.drop_last() == self.endpoints@,
            exists|e: Endpoint| e.name@ == name@ && e.method == Method::Delete && e.path == path
                && block.ensures((e,), r.endpoints@.last()),
    {
        self.endpoint(name, Method::Delete, path, block)
    }

    pub fn patch<F: FnOnce(Endpoint) -> Endpoint>(self, name: &str, path: Vec<PathSegment>, block: F) -> (r: Service)
        requires
            !is_blank(name@),
            forall|e: Endpoint| #[trigger] block.requires((e,)),
        ensures
            r.endpoints@.len() == self.endpoints@.len() + 1,
            r.endpoints@.drop_last() == self.endpoints@,
            exists|e: Endpoint| e.name@ == name@ && e.method == Method::Patch && e.path == path
                && block.ensures((e,), r.endpoints@.last()),
    {
        self.endpoint(name, Method::Patch, path, block)
    }
}

impl Endpoint {
    /// An endpoint with no query, body, upgrade or headers, answering nothing.
    pub fn new(name: &str, method: Method, path: Vec<PathSegment>) -> (r: Endpoint)
        requires
            !is_blank(name@),
        ensures
            r.name@ == name@,
            r.method == method,
            r.path == path,
            r.query is None,
            r.body is None,
            r.response is Void,
            r.upgrade is None,
            r.headers@.len() == 0,
    {
        Endpoint {
            name: text_of(name),
            method,
            path,
            query: None,
            body: None,
            response: Type::Void,
            upgrade: None,
            headers: Vec::new(),
        }
    }

    pub fn name(&self) -> (r: &String)
        ensures
            r@ == self.name@,
    {
        &self.name
    }

    pub fn method(&self) -> (r: Method)
        ensures
            r == self.method,
    {
        self.method
    }

    pub fn path(&self) -> (r: &Vec<PathSegment>)
        ensures
            r == &self.path,
    {
        &self.path
    }

    pub fn query_type(&self) -> (r: Option<&Type>)
        ensures
            r matches Some(t) ==> self.query == Some(*t),
            r is None ==> self.query is None,
    {
        self.query.as_ref()
    }

    pub fn body_type(&self) -> (r: Option<&Type>)
        ensures
            r matches Some(t) ==> self.body == Some(*t),
            r is None ==> self.body is None,
    {
        self.body.as_ref()
    }

    pub fn response_type(&self) -> (r: &Type)
        ensures
            *r == self.response,
    {
        &self.response
    }

    pub fn upgrade_type(&self) -> (r: Option<Upgrade>)
        ensures
            r == self.upgrade,
    {
        self.upgrade
    }

    pub fn headers(&self) -> (r: &Vec<(String, HeaderValue)>)
        ensures
            r == &self.headers,
    {
        &self.headers
    }

    /// Sets the endpoint header `name`.
    pub fn header(self, name: &str, value: HeaderValue) -> (r: Endpoint)
        requires
            headers_sorted(self.headers@),
        ensures
            headers_sorted(r.headers@),
            header_set(self.headers@, r.headers@, name@, value),
            r.name == self.name,
            r.path == self.path,
    {
        let mut e = self;
        set_header(&mut e.headers, text_of(name), value);
        e
    }

    pub fn response(self, t: Type) -> (r: Endpoint)
        ensures
            r.response == t,
            r.name == self.name,
            r.method == self.method,
            r.path == self.path,
            r.query == self.query,
            r.body == self.body,
            r.upgrade == self.upgrade,
            r.headers == self.headers,
    {
        let mut e = self;
        e.response = t;
        e
    }

    pub fn query(self, t: Type) -> (r: Endpoint)
        ensures
            r.query == Some(t),
            r.name == self.name,
            r.method == self.method,
            r.path == self.path,
            r.body == self.body,
            r.response == self.response,
            r.upgrade == self.upgrade,
            r.headers == self.headers,
    {
        let mut e = self;
        e.query = Some(t);
        e
    }

    pub fn body(self, t: Type) -> (r: Endpoint)
        ensures
            r.body == Some(t),
            r.name == self.name,
            r.method == self.method,
            r.path == self.path,
            r.query == self.query,
            r.response == self.response,
            r.upgrade == self.upgrade,
            r.headers == self.headers,
    {
        let mut e = self;
        e.body = Some(t);
        e
    }

    pub fn upgrade(self, upgrade: Upgrade) -> (r: Endpoint)
        ensures
            r.upgrade == Some(upgrade),
            r.name == self.name,
            r.method == self.method,
            r.path == self.path,
            r.query == self.query,
            r.body == self.body,
            r.response == self.response,
            r.headers == self.headers,
    {
        let mut e = self;
        e.upgrade = Some(upgrade);
        e
    }
}

impl Type {
    pub fn void() -> (r: Type)
        ensures
            r is Void,
    {
        Type::Void
    }

    /// A type described by a schema document.
    pub fn schema(schema: Json) -> (r: Type)
        ensures
            r == Type::Schema(schema),
    {
        Type::Schema(schema)
    }

    pub fn stream(t: Type) -> (r: Type)
        ensures
            r == Type::Stream(Box::new(t)),
    {
        Type::Stream(Box::new(t))
    }

    pub fn list(t: Type) -> (r: Type)
        ensures
            r == Type::List(Box::new(t)),
    {
        Type::List(Box::new(t))
    }

    pub fn optional(t: Type) -> (r: Type)
        ensures
            r == Type::Optional(Box::new(t)),
    {
        Type::Optional(Box::new(t))
    }

    pub fn tuple(t: Vec<Type>) -> (r: Type)
        ensures
            r == Type::Tuple(t),
    {
        Type::Tuple(t)
    }

    pub fn named_tuple(t: Vec<(String, Type)>) -> (r: Type)
        ensures
            r == Type::NamedTuple(t),
    {
        Type::NamedTuple(t)
    }
}

/// The endpoint as it is, for builder blocks with nothing to add.
pub fn endpoint(e: Endpoint) -> (r: Endpoint)
    ensures
        r == e,
{
    e
}

/// The service as it is, for builder blocks with nothing to add.
pub fn service(s: Service) -> (r: Service)
    ensures
        r == s,
{
    s
}

/// The mathematical value of a spec type.
pub enum TypeV {
    Void,
    Schema(JsonV),
    Stream(Box<TypeV>),
    List(Box<TypeV>),
    Optional(Box<TypeV>),
    Tuple(Seq<TypeV>),
    NamedTuple(Seq<(Seq<char>, TypeV)>),
}

impl View for Type {
    type V = TypeV;

    open spec fn view(&self) -> TypeV
        decreases self, 0nat,
    {
        match self {
            Type::Void => TypeV::Void,
            Type::Schema(j) => TypeV::Schema(j@),
            Type::Stream(t) => TypeV::Stream(Box::new((**t).view())),
            Type::List(t) => TypeV::List(Box::new((**t).view())),
            Type::Optional(t) => TypeV::Optional(Box::new((**t).view())),
            Type::Tuple(v) => TypeV::Tuple(type_views_upto(v@, v@.len() as nat)),
            Type::NamedTuple(v) => TypeV::NamedTuple(member_views_upto(v@, v@.len() as nat)),
        }
    }
}

/// The views of the first `n` types of `s`.
pub open spec fn type_views_upto(s: Seq<Type>, n: nat) -> Seq<TypeV>
    decreases s, n,
{
    if n == 0 || n > s.len() {
        Seq::empty()
    } else {
        type_views_upto(s, (n - 1) as nat).push(s[n - 1].view())
    }
}

/// The views of the first `n` named members of `s`.
pub open spec fn member_views_upto(s: Seq<(String, Type)>, n: nat) -> Seq<(Seq<char>, TypeV)>
    decreases s, n,
{
    if n == 0 || n > s.len() {
        Seq::empty()
    } else {
        member_views_upto(s, (n - 1) as nat).push((s[n - 1].0@, s[n - 1].1.view()))
    }
}

/// A copy of a spec type.
pub fn copy_type(t: &Type) -> (r: Type)
    ensures
        r@ == t@,
    decreases t,
{
    match t {
        Type::Void => Type::Void,
        Type::Schema(j) => Type::Schema(copy_json(j)),
        Type::Stream(b) => Type::Stream(Box::new(copy_type(b))),
        Type::List(b) => Type::List(Box::new(copy_type(b))),
        Type::Optional(b) => Type::Optional(Box::new(copy_type(b))),
        Type::Tuple(v) => {
            let mut out: Vec<Type> = Vec::new();
            let mut i: usize = 0;
            while i < v.len()
                invariant
                    i <= v.len(),
                    t is Tuple,
                    t->Tuple_0 == *v,
                    out.len() == i,
                    type_views_upto(out@, i as nat) == type_views_upto(v@, i as nat),
                decreases v.len() - i,
            {
                proof {
                    assert(decreases_to!(*t => t->Tuple_0));
                    assert(decreases_to!(*v => v[i as int]));
                }
                let c = copy_type(&v[i]);
                let ghost before = out@;
                out.push(c);
                assert(out@.drop_last() == before);
                proof { lemma_type_views_prefix(out@, before, i as nat); }
                i += 1;
            }
            Type::Tuple(out)
        },
        Type::NamedTuple(v) => {
            let mut out: Vec<(String, Type)> = Vec::new();
            let mut i: usize = 0;
            while i < v.len()
                invariant
                    i <= v.len(),
                    t is NamedTuple,
                    t->NamedTuple_0 == *v,
                    out.len() == i,
                    member_views_upto(out@, i as nat) == member_views_upto(v@, i as nat),
                decreases v.len() - i,
            {
                proof {
                    assert(decreases_to!(*t => t->NamedTuple_0));
                    assert(decreases_to!(*v => v[i as int]));
                    assert(decreases_to!(v[i as int] => v[i as int].1));
                }
                let c = copy_type(&v[i].1);
                let ghost before = out@;
                out.push((v[i].0.clone(), c));
                assert(out@.drop_last() =~= before);
                proof { lemma_member_views_prefix(out@, before, i as nat); }
                i += 1;
            }
            Type::NamedTuple(out)
        },
    }
}

proof fn lemma_type_views_prefix(s: Seq<Type>, p: Seq<Type>, n: nat)
    requires
        p.len() == n,
        s.len() == n + 1,
        s.drop_last() == p,
    ensures
        type_views_upto(s, n) == type_views_upto(p, n),
        type_views_upto(s, n + 1) == type_views_upto(p, n).push(s[n as int]@),
    decreases n,
{
    lemma_type_views_same(s, p, n);
}

proof fn lemma_type_views_same(s: Seq<Type>, p: Seq<Type>, n: nat)
    requires
        n <= p.len(),
        n <= s.len(),
        forall|k: int| 0 <= k < n ==> s[k] == p[k],
    ensures
        type_views_upto(s, n) == type_views_upto(p, n),
    decreases n,
{
    if n > 0 {
        lemma_type_views_same(s, p, (n - 1) as nat);
    }
}

proof fn lemma_member_views_prefix(s: Seq<(String, Type)>, p: Seq<(String, Type)>, n: nat)
    requires
        p.len() == n,
        s.len() == n + 1,
        s.drop_last() == p,
    ensures
        member_views_upto(s, n) == member_views_upto(p, n),
        member_views_upto(s, n + 1) == member_views_upto(p, n).push((s[n as int].0@, s[n as int].1@)),
{
    lemma_member_views_same(s, p, n);
}

proof fn lemma_member_views_same(s: Seq<(String, Type)>, p: Seq<(String, Type)>, n: nat)
    requires
        n <= p.len(),
        n <= s.len(),
        forall|k: int| 0 <= k < n ==> s[k] == p[k],
    ensures
        member_views_upto(s, n) == member_views_upto(p, n),
    decreases n,
{
    if n > 0 {
        lemma_member_views_same(s, p, (n - 1) as nat);
    }
}

impl Type {
    /// A stream of copies of this type.
    pub fn wrap_stream(&self) -> (r: Type)
        ensures
            r is Stream,
            r@ == TypeV::Stream(Box::new(self@)),
    {
        Type::Stream(Box::new(copy_type(self)))
    }

    /// A list of this type.
    pub fn wrap_list(&self) -> (r: Type)
        ensures
            r is List,
            r@ == TypeV::List(Box::new(self@)),
    {
        Type::List(Box::new(copy_type(self)))
    }

    /// This type, made optional.
    pub fn wrap_optional(&self) -> (r: Type)
        ensures
            r is Optional,
            r@ == TypeV::Optional(Box::new(self@)),
    {
        Type::Optional(Box::new(copy_type(self)))
    }
}

impl Clone for Type {
    fn clone(&self) -> (r: Type)
        ensures
            r@ == self@,
    {
        copy_type(self)
    }
}

} // verus!
