use vstd::prelude::*;

verus! {

/// Which bound of a field's constraints contradicts another.
#[derive(Clone, Copy, Debug, PartialEq, Eq, Structural)]
pub enum ConstraintViolation {
    /// `minimum > maximum`.
    MinimumAboveMaximum,
    /// `exclusive_minimum >= exclusive_maximum`.
    EmptyExclusiveRange,
    /// `minimum >= exclusive_maximum`.
    MinimumReachesExclusiveMaximum,
    /// `exclusive_minimum >= maximum`.
    ExclusiveMinimumReachesMaximum,
    /// `min_length > max_length`.
    LengthRange,
    /// `min_items > max_items`.
    ItemsRange,
    /// `multiple_of <= 0`.
    NonPositiveMultiple,
}

/// The shapes that a path parameter may not have in a spec.
#[derive(Clone, Copy, Debug, PartialEq, Eq, Structural)]
pub enum PathParameterShape {
    Void,
    Stream,
    List,
    Optional,
    Tuple,
    NamedTuple,
}

/// Why a path parameter cannot be written as a single string.
#[derive(Clone, Copy, Debug, PartialEq, Eq, Structural)]
pub enum Unstringifiable {
    UndefinedType,
    ObjectType,
    UnionType,
    NonStringEnum,
    Optional,
    List,
    Dictionary,
    Intersection,
    Tuple,
    Stream,
    Any,
}

/// Where an unresolved reference was found.
#[derive(Clone, Debug)]
pub enum Location {
    PathParameter { endpoint: String, parameter: String },
    Query { endpoint: String },
    Body { endpoint: String },
    Response { endpoint: String },
    Field { owner: String, field: String },
    VariantField { owner: String, variant: Option<String>, field: String },
}

#[derive(Clone, Debug)]
pub enum Error {
    /// A boolean schema where a named type is required.
    NamedTypeFromBool(bool),
    /// The schema `false` where a field type is required.
    FalseFieldType,
    /// A value that is neither an object nor a boolean where a schema is expected.
    NotASchema,
    /// A `$ref` that does not point into `#/definitions/` or `#/$defs/`.
    UnsupportedReference(String),
    /// A `type` keyword naming no supported type.
    UnsupportedType(String),
    /// A map whose `additionalProperties` is `false`.
    ClosedMap,
    /// An `enum` member that is an array or an object.
    UnsupportedEnumValue,
    /// A `oneOf` member that is a boolean schema.
    BoolUnionVariant,
    InvalidConstraint(ConstraintViolation),
    /// Two structurally different types under one name.
    NameCollision(String),
    /// A schema that has no name to give, being a boolean.
    UnnamedSchema,
    NamedTupleUnsupported,
    InvalidPathParameter(PathParameterShape),
    UnresolvedReference { location: Location, name: String },
    NotStringifiable { endpoint: String, parameter: String, reason: Unstringifiable },
}

pub enum LocationV {
    PathParameter { endpoint: Seq<char>, parameter: Seq<char> },
    Query { endpoint: Seq<char> },
    Body { endpoint: Seq<char> },
    Response { endpoint: Seq<char> },
    Field { owner: Seq<char>, field: Seq<char> },
    VariantField { owner: Seq<char>, variant: Option<Seq<char>>, field: Seq<char> },
}

pub enum ErrorV {
    NamedTypeFromBool(bool),
    FalseFieldType,
    NotASchema,
    UnsupportedReference(Seq<char>),
    UnsupportedType(Seq<char>),
    ClosedMap,
    UnsupportedEnumValue,
    BoolUnionVariant,
    InvalidConstraint(ConstraintViolation),
    NameCollision(Seq<char>),
    UnnamedSchema,
    NamedTupleUnsupported,
    InvalidPathParameter(PathParameterShape),
    UnresolvedReference { location: LocationV, name: Seq<char> },
    NotStringifiable { endpoint: Seq<char>, parameter: Seq<char>, reason: Unstringifiable },
}

impl View for Location {
    type V = LocationV;

    open spec fn view(&self) -> LocationV {
        match self {
            Location::PathParameter { endpoint, parameter } => LocationV::PathParameter {
                endpoint: endpoint@,
                parameter: parameter@,
            },
            Location::Query { endpoint } => LocationV::Query { endpoint: endpoint@ },
            Location::Body { endpoint } => LocationV::Body { endpoint: endpoint@ },
            Location::Response { endpoint } => LocationV::Response { endpoint: endpoint@ },
            Location::Field { owner, field } => LocationV::Field {
                owner: owner@,
                field: field@,
            },
            Location::VariantField { owner, variant, field } => LocationV::VariantField {
                owner: owner@,
                variant: match variant {
                    Some(v) => Some(v@),
                    None => None,
                },
                field: field@,
            },
        }
    }
}

impl View for Error {
    type V = ErrorV;

    open spec fn view(&self) -> ErrorV {
        match self {
            Error::NamedTypeFromBool(b) => ErrorV::NamedTypeFromBool(*b),
            Error::FalseFieldType => ErrorV::FalseFieldType,
            Error::NotASchema => ErrorV::NotASchema,
            Error::UnsupportedReference(s) => ErrorV::UnsupportedReference(s@),
            Error::UnsupportedType(s) => ErrorV::UnsupportedType(s@),
            Error::ClosedMap => ErrorV::ClosedMap,
            Error::UnsupportedEnumValue => ErrorV::UnsupportedEnumValue,
            Error::BoolUnionVariant => ErrorV::BoolUnionVariant,
            Error::InvalidConstraint(c) => ErrorV::InvalidConstraint(*c),
            Error::NameCollision(s) => ErrorV::NameCollision(s@),
            Error::UnnamedSchema => ErrorV::UnnamedSchema,
            Error::NamedTupleUnsupported => ErrorV::NamedTupleUnsupported,
            Error::InvalidPathParameter(p) => ErrorV::InvalidPathParameter(*p),
            Error::UnresolvedReference { location, name } => ErrorV::UnresolvedReference {
                location: location@,
                name: name@,
            },
            Error::NotStringifiable { endpoint, parameter, reason } => ErrorV::NotStringifiable {
                endpoint: endpoint@,
                parameter: parameter@,
                reason: *reason,
            },
        }
    }
}

/// The view of a result: the view of its value or of its error.
pub open spec fn result_view<T: View>(r: Result<T, Error>) -> Result<T::V, ErrorV> {
    match r {
        Ok(v) => Ok(v@),
        Err(e) => Err(e@),
    }
}

} // verus!
