use vstd::prelude::*;
use crate::float::FloatBits;

verus! {

broadcast use vstd::std_specs::vec::group_vec_axioms;

#[derive(Clone, Copy, Debug, PartialEq, Eq, Structural)]
pub enum HttpMethod {
    Get,
    Post,
    Put,
    Delete,
    Patch,
}

#[derive(Clone, Copy, Debug, PartialEq, Eq, Structural)]
pub enum Upgrade {
    Ws,
}

#[derive(Clone, Copy, Debug, PartialEq, Eq, Structural)]
pub enum StringFormat {
    DateTime,
    Date,
    Time,
    Uuid,
    Email,
    Uri,
    Hostname,
    Ipv4,
    Ipv6,
}

#[derive(Clone, Copy, Debug, PartialEq, Eq, Structural)]
pub enum PrimitiveType {
    Bool,
    Int,
    Float,
    String(Option<StringFormat>),
}

#[derive(Clone, Debug)]
pub enum LiteralType {
    String(String),
    Int(i64),
    Float(FloatBits),
    Bool(bool),
    Null,
}

#[derive(Debug)]
pub enum FieldType {
    Primitive(PrimitiveType),
    Literal(LiteralType),
    Optional(Box<FieldType>),
    List(Box<FieldType>),
    /// A string-keyed map with values of the inner type.
    Dictionary(Box<FieldType>),
    Stream(Box<FieldType>),
    Reference(String),
    Intersection(Vec<FieldType>),
    Tuple(Vec<FieldType>),
    Any,
}

/// Bounds attached to an object field. `minimum` and `exclusive_minimum`
/// are never both set by schema extraction, nor are the two maxima.
#[derive(Clone, Debug)]
pub struct Constraints {
    pub minimum: Option<FloatBits>,
    pub maximum: Option<FloatBits>,
    pub exclusive_minimum: Option<FloatBits>,
    pub exclusive_maximum: Option<FloatBits>,
    pub multiple_of: Option<FloatBits>,
    pub min_length: Option<usize>,
    pub max_length: Option<usize>,
    pub pattern: Option<String>,
    pub min_items: Option<usize>,
    pub max_items: Option<usize>,
    pub unique_items: Option<bool>,
}

#[derive(Clone, Debug)]
pub struct Field {
    pub name: String,
    pub ty: Box<FieldType>,
    pub constraints: Option<Constraints>,
}

#[derive(Clone, Debug)]
pub struct ObjectType {
    pub name: String,
    pub fields: Vec<Field>,
}

/// The property that tells union variants apart, with an optional map from
/// property value to variant, in the order the schema lists it.
#[derive(Clone, Debug)]
pub struct Discriminator {
    pub property_name: String,
    pub mapping: Option<Vec<(String, String)>>,
}

#[derive(Clone, Debug)]
pub enum UnionTypeVariantMode {
    Object(ObjectType),
    Literal(LiteralType),
}

#[derive(Clone, Debug)]
pub struct UnionTypeVariant {
    pub name: Option<String>,
    pub mode: Box<UnionTypeVariantMode>,
}

#[derive(Clone, Debug)]
pub struct UnionType {
    pub name: String,
    pub discriminator: Option<Discriminator>,
    pub variants: Vec<UnionTypeVariant>,
}

#[derive(Clone, Debug)]
pub struct EnumVariant {
    pub value: LiteralType,
    pub description: Option<String>,
}

#[derive(Clone, Debug)]
pub struct EnumType {
    pub name: String,
    pub variants: Vec<EnumVariant>,
}

#[derive(Clone, Debug)]
pub enum NamedType {
    Object(ObjectType),
    Union(UnionType),
    Enum(EnumType),
}

#[derive(Clone, Debug)]
pub enum PathSegment {
    Literal(String),
    Parameter { name: String, ty: FieldType },
}

#[derive(Clone, Debug)]
pub enum HeaderValue {
    Literal(String),
    Parameter { name: String, field_type: FieldType },
    Pattern { pattern: String, param_name: String, field_type: FieldType },
}

#[derive(Clone, Debug)]
pub struct Header {
    pub name: String,
    pub value: HeaderValue,
}

#[derive(Clone, Debug)]
pub struct Endpoint {
    pub name: String,
    pub method: HttpMethod,
    pub path: Vec<PathSegment>,
    pub query: Option<FieldType>,
    pub body: Option<FieldType>,
    pub response: FieldType,
    pub upgrade: Option<Upgrade>,
    pub headers: Vec<Header>,
}

#[derive(Clone, Debug)]
pub struct Service {
    pub name: String,
    pub endpoints: Vec<Endpoint>,
    pub headers: Vec<Header>,
}

// The mathematical values of the types above: texts become `Seq<char>` and
// vectors become `Seq`.

pub enum LiteralV {
    String(Seq<char>),
    Int(i64),
    Float(FloatBits),
    Bool(bool),
    Null,
}

pub enum FieldTypeV {
    Primitive(PrimitiveType),
    Literal(LiteralV),
    Optional(Box<FieldTypeV>),
    List(Box<FieldTypeV>),
    Dictionary(Box<FieldTypeV>),
    Stream(Box<FieldTypeV>),
    Reference(Seq<char>),
    Intersection(Seq<FieldTypeV>),
    Tuple(Seq<FieldTypeV>),
    Any,
}

pub struct ConstraintsV {
    pub minimum: Option<FloatBits>,
    pub maximum: Option<FloatBits>,
    pub exclusive_minimum: Option<FloatBits>,
    pub exclusive_maximum: Option<FloatBits>,
    pub multiple_of: Option<FloatBits>,
    pub min_length: Option<usize>,
    pub max_length: Option<usize>,
    pub pattern: Option<Seq<char>>,
    pub min_items: Option<usize>,
    pub max_items: Option<usize>,
    pub unique_items: Option<bool>,
}

pub struct FieldV {
    pub name: Seq<char>,
    pub ty: FieldTypeV,
    pub constraints: Option<ConstraintsV>,
}

pub struct ObjectV {
    pub name: Seq<char>,
    pub fields: Seq<FieldV>,
}

pub struct DiscriminatorV {
    pub property_name: Seq<char>,
    pub mapping: Option<Seq<(Seq<char>, Seq<char>)>>,
}

pub enum ModeV {
    Object(ObjectV),
    Literal(LiteralV),
}

pub struct VariantV {
    pub name: Option<Seq<char>>,
    pub mode: ModeV,
}

pub struct UnionV {
    pub name: Seq<char>,
    pub discriminator: Option<DiscriminatorV>,
    pub variants: Seq<VariantV>,
}

pub struct EnumVariantV {
    pub value: LiteralV,
    pub description: Option<Seq<char>>,
}

pub struct EnumV {
    pub name: Seq<char>,
    pub variants: Seq<EnumVariantV>,
}

pub enum NamedTypeV {
    Object(ObjectV),
    Union(UnionV),
    Enum(EnumV),
}

pub enum PathSegmentV {
    Literal(Seq<char>),
    Parameter { name: Seq<char>, ty: FieldTypeV },
}

pub enum HeaderValueV {
    Literal(Seq<char>),
    Parameter { name: Seq<char>, field_type: FieldTypeV },
    Pattern { pattern: Seq<char>, param_name: Seq<char>, field_type: FieldTypeV },
}

pub struct HeaderV {
    pub name: Seq<char>,
    pub value: HeaderValueV,
}

pub struct EndpointV {
    pub name: Seq<char>,
    pub method: HttpMethod,
    pub path: Seq<PathSegmentV>,
    pub query: Option<FieldTypeV>,
    pub body: Option<FieldTypeV>,
    pub response: FieldTypeV,
    pub upgrade: Option<Upgrade>,
    pub headers: Seq<HeaderV>,
}

pub struct ServiceV {
    pub name: Seq<char>,
    pub endpoints: Seq<EndpointV>,
    pub headers: Seq<HeaderV>,
}

pub open spec fn opt_text(o: Option<String>) -> Option<Seq<char>> {
    match o {
        Some(s) => Some(s@),
        None => None,
    }
}

impl View for LiteralType {
    type V = LiteralV;

    open spec fn view(&self) -> LiteralV {
        match self {
            LiteralType::String(s) => LiteralV::String(s@),
            LiteralType::Int(i) => LiteralV::Int(*i),
            LiteralType::Float(f) => LiteralV::Float(*f),
            LiteralType::Bool(b) => LiteralV::Bool(*b),
            LiteralType::Null => LiteralV::Null,
        }
    }
}

impl View for FieldType {
    type V = FieldTypeV;

    open spec fn view(&self) -> FieldTypeV
        decreases self, 0nat,
    {
        match self {
            FieldType::Primitive(p) => FieldTypeV::Primitive(*p),
            FieldType::Literal(l) => FieldTypeV::Literal(l@),
            FieldType::Optional(t) => FieldTypeV::Optional(Box::new((**t).view())),
            FieldType::List(t) => FieldTypeV::List(Box::new((**t).view())),
            FieldType::Dictionary(t) => FieldTypeV::Dictionary(Box::new((**t).view())),
            FieldType::Stream(t) => FieldTypeV::Stream(Box::new((**t).view())),
            FieldType::Reference(n) => FieldTypeV::Reference(n@),
            FieldType::Intersection(v) => FieldTypeV::Intersection(views_upto(v@, v@.len() as nat)),
            FieldType::Tuple(v) => FieldTypeV::Tuple(views_upto(v@, v@.len() as nat)),
            FieldType::Any => FieldTypeV::Any,
        }
    }
}

/// The views of the first `n` field types of `s`.
pub open spec fn views_upto(s: Seq<FieldType>, n: nat) -> Seq<FieldTypeV>
    decreases s, n,
{
    if n == 0 || n > s.len() {
        Seq::empty()
    } else {
        views_upto(s, (n - 1) as nat).push(s[n - 1].view())
    }
}

/// The views of a vector of field types, element by element.
pub open spec fn views_of(v: Seq<FieldType>) -> Seq<FieldTypeV> {
    v.map_values(|t: FieldType| t@)
}

proof fn lemma_views_upto(s: Seq<FieldType>, n: nat)
    requires
        n <= s.len(),
    ensures
        views_upto(s, n) == views_of(s.take(n as int)),
    decreases n,
{
    if n > 0 {
        lemma_views_upto(s, (n - 1) as nat);
        assert(s.take(n as int).drop_last() =~= s.take(n - 1));
        assert(views_of(s.take(n as int)) =~= views_of(s.take(n - 1)).push(s[n - 1]@));
    } else {
        assert(views_of(s.take(0)) =~= Seq::empty());
    }
}

pub proof fn lemma_field_type_lists(v: Vec<FieldType>)
    ensures
        FieldType::Intersection(v)@ == FieldTypeV::Intersection(views_of(v@)),
        FieldType::Tuple(v)@ == FieldTypeV::Tuple(views_of(v@)),
{
    lemma_views_upto(v@, v@.len());
    assert(v@.take(v@.len() as int) =~= v@);
}

impl View for Constraints {
    type V = ConstraintsV;

    open spec fn view(&self) -> ConstraintsV {
        ConstraintsV {
            minimum: self.minimum,
            maximum: self.maximum,
            exclusive_minimum: self.exclusive_minimum,
            exclusive_maximum: self.exclusive_maximum,
            multiple_of: self.multiple_of,
            min_length: self.min_length,
            max_length: self.max_length,
            pattern: opt_text(self.pattern),
            min_items: self.min_items,
            max_items: self.max_items,
            unique_items: self.unique_items,
        }
    }
}

pub open spec fn opt_constraints(c: Option<Constraints>) -> Option<ConstraintsV> {
    match c {
        Some(c) => Some(c@),
        None => None,
    }
}

impl View for Field {
    type V = FieldV;

    open spec fn view(&self) -> FieldV {
        FieldV { name: self.name@, ty: (*self.ty)@, constraints: opt_constraints(self.constraints) }
    }
}

impl View for ObjectType {
    type V = ObjectV;

    open spec fn view(&self) -> ObjectV {
        ObjectV { name: self.name@, fields: self.fields@.map_values(|f: Field| f@) }
    }
}

impl View for Discriminator {
    type V = DiscriminatorV;

    open spec fn view(&self) -> DiscriminatorV {
        DiscriminatorV {
            property_name: self.property_name@,
            mapping: match self.mapping {
                Some(m) => Some(m@.map_values(|p: (String, String)| (p.0@, p.1@))),
                None => None,
            },
        }
    }
}

impl View for UnionTypeVariantMode {
    type V = ModeV;

    open spec fn view(&self) -> ModeV {
        match self {
            UnionTypeVariantMode::Object(o) => ModeV::Object(o@),
            UnionTypeVariantMode::Literal(l) => ModeV::Literal(l@),
        }
    }
}

impl View for UnionTypeVariant {
    type V = VariantV;

    open spec fn view(&self) -> VariantV {
        VariantV { name: opt_text(self.name), mode: (*self.mode)@ }
    }
}

impl View for UnionType {
    type V = UnionV;

    open spec fn view(&self) -> UnionV {
        UnionV {
            name: self.name@,
            discriminator: match self.discriminator {
                Some(d) => Some(d@),
                None => None,
            },
            variants: self.variants@.map_values(|v: UnionTypeVariant| v@),
        }
    }
}

impl View for EnumVariant {
    type V = EnumVariantV;

    open spec fn view(&self) -> EnumVariantV {
        EnumVariantV { value: self.value@, description: opt_text(self.description) }
    }
}

impl View for EnumType {
    type V = EnumV;

    open spec fn view(&self) -> EnumV {
        EnumV { name: self.name@, variants: self.variants@.map_values(|v: EnumVariant| v@) }
    }
}

impl View for NamedType {
    type V = NamedTypeV;

    open spec fn view(&self) -> NamedTypeV {
        match self {
            NamedType::Object(o) => NamedTypeV::Object(o@),
            NamedType::Union(u) => NamedTypeV::Union(u@),
            NamedType::Enum(e) => NamedTypeV::Enum(e@),
        }
    }
}

impl NamedTypeV {
    pub open spec fn name(self) -> Seq<char> {
        match self {
            NamedTypeV::Object(o) => o.name,
            NamedTypeV::Union(u) => u.name,
            NamedTypeV::Enum(e) => e.name,
        }
    }
}

impl NamedType {
    /// The name the type is declared under.
    pub fn name(&self) -> (r: &String)
        ensures
            r@ == self@.name(),
    {
        match self {
            NamedType::Object(o) => &o.name,
            NamedType::Union(u) => &u.name,
            NamedType::Enum(e) => &e.name,
        }
    }
}

pub open spec fn opt_field_type(t: Option<FieldType>) -> Option<FieldTypeV> {
    match t {
        Some(t) => Some(t@),
        None => None,
    }
}

impl View for PathSegment {
    type V = PathSegmentV;

    open spec fn view(&self) -> PathSegmentV {
        match self {
            PathSegment::Literal(s) => PathSegmentV::Literal(s@),
            PathSegment::Parameter { name, ty } => PathSegmentV::Parameter { name: name@, ty: ty@ },
        }
    }
}

impl View for HeaderValue {
    type V = HeaderValueV;

    open spec fn view(&self) -> HeaderValueV {
        match self {
            HeaderValue::Literal(s) => HeaderValueV::Literal(s@),
            HeaderValue::Parameter { name, field_type } => HeaderValueV::Parameter {
                name: name@,
                field_type: field_type@,
            },
            HeaderValue::Pattern { pattern, param_name, field_type } => HeaderValueV::Pattern {
                pattern: pattern@,
                param_name: param_name@,
                field_type: field_type@,
            },
        }
    }
}

impl View for Header {
    type V = HeaderV;

    open spec fn view(&self) -> HeaderV {
        HeaderV { name: self.name@, value: self.value@ }
    }
}

impl View for Endpoint {
    type V = EndpointV;

    open spec fn view(&self) -> EndpointV {
        EndpointV {
            name: self.name@,
            method: self.method,
            path: self.path@.map_values(|s: PathSegment| s@),
            query: opt_field_type(self.query),
            body: opt_field_type(self.body),
            response: self.response@,
            upgrade: self.upgrade,
            headers: self.headers@.map_values(|h: Header| h@),
        }
    }
}

impl View for Service {
    type V = ServiceV;

    open spec fn view(&self) -> ServiceV {
        ServiceV {
            name: self.name@,
            endpoints: self.endpoints@.map_values(|e: Endpoint| e@),
            headers: self.headers@.map_values(|h: Header| h@),
        }
    }
}

/// A copy of a field type.
pub fn copy_field_type(t: &FieldType) -> (r: FieldType)
    ensures
        r@ == t@,
    decreases t,
{
    match t {
        FieldType::Primitive(p) => FieldType::Primitive(*p),
        FieldType::Literal(l) => FieldType::Literal(copy_literal(l)),
        FieldType::Optional(b) => FieldType::Optional(Box::new(copy_field_type(b))),
        FieldType::List(b) => FieldType::List(Box::new(copy_field_type(b))),
        FieldType::Dictionary(b) => FieldType::Dictionary(Box::new(copy_field_type(b))),
        FieldType::Stream(b) => FieldType::Stream(Box::new(copy_field_type(b))),
        FieldType::Reference(n) => FieldType::Reference(n.clone()),
        FieldType::Intersection(v) => {
            proof { assert(decreases_to!(*t => t->Intersection_0)); }
            let c = copy_field_types(v, Ghost(*t));
            proof {
                lemma_field_type_lists(c);
                lemma_field_type_lists(*v);
            }
            FieldType::Intersection(c)
        },
        FieldType::Tuple(v) => {
            proof { assert(decreases_to!(*t => t->Tuple_0)); }
            let c = copy_field_types(v, Ghost(*t));
            proof {
                lemma_field_type_lists(c);
                lemma_field_type_lists(*v);
            }
            FieldType::Tuple(c)
        },
        FieldType::Any => FieldType::Any,
    }
}

fn copy_field_types(v: &Vec<FieldType>, Ghost(parent): Ghost<FieldType>) -> (r: Vec<FieldType>)
    requires
        decreases_to!(parent => *v),
    ensures
        views_of(r@) == views_of(v@),
    decreases parent, 0nat,
{
    let mut out: Vec<FieldType> = Vec::new();
    let mut i: usize = 0;
    while i < v.len()
        invariant
            i <= v.len(),
            decreases_to!(parent => *v),
            out.len() == i,
            forall|k: int| 0 <= k < i ==> (#[trigger] out[k])@ == v[k]@,
        decreases v.len() - i,
    {
        proof { assert(decreases_to!(*v => v[i as int])); }
        out.push(copy_field_type(&v[i]));
        i += 1;
    }
    assert(views_of(out@) =~= views_of(v@));
    out
}

/// A copy of a literal.
pub fn copy_literal(l: &LiteralType) -> (r: LiteralType)
    ensures
        r@ == l@,
{
    match l {
        LiteralType::String(s) => LiteralType::String(s.clone()),
        LiteralType::Int(i) => LiteralType::Int(*i),
        LiteralType::Float(f) => LiteralType::Float(*f),
        LiteralType::Bool(b) => LiteralType::Bool(*b),
        LiteralType::Null => LiteralType::Null,
    }
}

impl Clone for FieldType {
    fn clone(&self) -> (r: FieldType)
        ensures
            r@ == self@,
    {
        copy_field_type(self)
    }
}

} // verus!
