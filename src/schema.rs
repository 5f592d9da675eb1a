use vstd::prelude::*;
use crate::constraints::{constraints_of, extract_constraints_from_object};
use crate::error::{Error, ErrorV, result_view};
use crate::json::{Json, JsonV, array_of, bool_of, lemma_array_items, lemma_item_decreases, lemma_member_decreases, lemma_object_members, lookup, object_members, object_of, str_of};
use crate::text::{decimal, has_prefix, numbered, same_text, strip_prefix, text_of};
use crate::types::{
    Discriminator, DiscriminatorV, EnumType, EnumV, EnumVariant, EnumVariantV, Field, FieldType, FieldTypeV, FieldV,
    LiteralType, LiteralV, ModeV, NamedType, NamedTypeV, ObjectType, ObjectV, PrimitiveType, StringFormat, UnionType,
    UnionTypeVariant, UnionTypeVariantMode, UnionV, VariantV, lemma_field_type_lists, views_of,
};

verus! {

broadcast use vstd::std_specs::vec::group_vec_axioms;

/// A value that can stand as a schema: a boolean or an object.
pub open spec fn is_schema(j: JsonV) -> bool {
    j is Bool || j is Object
}

/// The type name a `$ref` points to, for references into `#/definitions/`
/// or `#/$defs/`.
pub open spec fn ref_name(r: Seq<char>) -> Option<Seq<char>> {
    if has_prefix(r, "#/definitions/"@) {
        Some(r.subrange("#/definitions/"@.len() as int, r.len() as int))
    } else if has_prefix(r, "#/$defs/"@) {
        Some(r.subrange("#/$defs/"@.len() as int, r.len() as int))
    } else {
        None
    }
}

/// The recognised values of the `format` keyword of a string schema.
pub open spec fn format_of(f: Seq<char>) -> Option<StringFormat> {
    if f == "date-time"@ {
        Some(StringFormat::DateTime)
    } else if f == "date"@ {
        Some(StringFormat::Date)
    } else if f == "time"@ {
        Some(StringFormat::Time)
    } else if f == "uuid"@ {
        Some(StringFormat::Uuid)
    } else if f == "email"@ {
        Some(StringFormat::Email)
    } else if f == "uri"@ {
        Some(StringFormat::Uri)
    } else if f == "hostname"@ {
        Some(StringFormat::Hostname)
    } else if f == "ipv4"@ {
        Some(StringFormat::Ipv4)
    } else if f == "ipv6"@ {
        Some(StringFormat::Ipv6)
    } else {
        None
    }
}

/// The strings among the first `n` values of `a`, in order.
pub open spec fn strings_upto(a: Seq<JsonV>, n: nat) -> Seq<Seq<char>>
    decreases n,
{
    if n == 0 || n > a.len() {
        Seq::empty()
    } else {
        match a[n - 1] {
            JsonV::String(s) => strings_upto(a, (n - 1) as nat).push(s),
            _ => strings_upto(a, (n - 1) as nat),
        }
    }
}

pub open spec fn strings_in(a: Seq<JsonV>) -> Seq<Seq<char>> {
    strings_upto(a, a.len())
}

/// The instance types a schema declares: one for a string `type`, the
/// strings of an array `type`.
pub open spec fn declared_types(o: JsonV) -> Option<Seq<Seq<char>>> {
    match o.member("type"@) {
        Some(JsonV::String(t)) => Some(seq![t]),
        Some(JsonV::Array(a)) => Some(strings_in(a)),
        _ => None,
    }
}

/// The first text of `ts` other than `x`.
pub open spec fn first_other(ts: Seq<Seq<char>>, x: Seq<char>) -> Option<Seq<char>>
    decreases ts.len(),
{
    if ts.len() == 0 {
        None
    } else if ts[0] != x {
        Some(ts[0])
    } else {
        first_other(ts.skip(1), x)
    }
}

/// The schema declares itself nullable: `nullable: true`, or `"null"` among its types.
pub open spec fn is_nullable(o: JsonV) -> bool {
    bool_of(o.member("nullable"@)) == Some(true) || (declared_types(o) is Some
        && declared_types(o)->0.contains("null"@))
}

/// The type an object schema declares through its first non-null `type`,
/// before nullability is applied.
pub open spec fn base_type_of(s: JsonV) -> Result<FieldTypeV, ErrorV>
    decreases s, 0nat,
{
    let primary = match declared_types(s) {
        Some(ts) => first_other(ts, "null"@),
        None => None,
    };
    match primary {
        None => Ok(FieldTypeV::Any),
        Some(t) => if t == "boolean"@ {
            Ok(FieldTypeV::Primitive(PrimitiveType::Bool))
        } else if t == "integer"@ {
            Ok(FieldTypeV::Primitive(PrimitiveType::Int))
        } else if t == "number"@ {
            Ok(FieldTypeV::Primitive(PrimitiveType::Float))
        } else if t == "string"@ {
            Ok(FieldTypeV::Primitive(PrimitiveType::String(
                match str_of(s.member("format"@)) {
                    Some(f) => format_of(f),
                    None => None,
                },
            )))
        } else if t == "array"@ {
            match s.member("items"@) {
                None => Ok(FieldTypeV::List(Box::new(FieldTypeV::Any))),
                Some(it) => if !is_schema(it) {
                    Err(ErrorV::NotASchema)
                } else {
                    match field_type_of(it) {
                        Ok(t) => Ok(FieldTypeV::List(Box::new(t))),
                        Err(e) => Err(e),
                    }
                },
            }
        } else if t == "object"@ {
            match s.member("additionalProperties"@) {
                None => Ok(FieldTypeV::Any),
                Some(ap) => if !is_schema(ap) {
                    Err(ErrorV::NotASchema)
                } else if ap == JsonV::Bool(false) {
                    Err(ErrorV::ClosedMap)
                } else {
                    match field_type_of(ap) {
                        Ok(t) => Ok(FieldTypeV::Dictionary(Box::new(t))),
                        Err(e) => Err(e),
                    }
                },
            }
        } else {
            Err(ErrorV::UnsupportedType(t))
        },
    }
}

/// The inline field type a schema describes.
pub open spec fn field_type_of(s: JsonV) -> Result<FieldTypeV, ErrorV>
    decreases s, 1nat,
{
    match s {
        JsonV::Bool(b) => if b {
            Ok(FieldTypeV::Any)
        } else {
            Err(ErrorV::FalseFieldType)
        },
        JsonV::Object(m) => {
            if str_of(lookup(m, "$ref"@)) is Some {
                let r = str_of(lookup(m, "$ref"@))->0;
                match ref_name(r) {
                    Some(n) => Ok(FieldTypeV::Reference(n)),
                    None => Err(ErrorV::UnsupportedReference(r)),
                }
            } else if array_of(lookup(m, "allOf"@)) is Some {
                let items = array_of(lookup(m, "allOf"@))->0;
                match field_types_upto(items, items.len()) {
                    Ok(ts) => Ok(FieldTypeV::Intersection(ts)),
                    Err(e) => Err(e),
                }
            } else if declared_types(s) matches Some(ts) && ts.len() == 1 && ts.contains("null"@) {
                Ok(FieldTypeV::Literal(LiteralV::Null))
            } else {
                match base_type_of(s) {
                    Err(e) => Err(e),
                    // a map is never wrapped as optional
                    Ok(FieldTypeV::Dictionary(t)) => Ok(FieldTypeV::Dictionary(t)),
                    Ok(b) => if is_nullable(s) {
                        Ok(FieldTypeV::Optional(Box::new(b)))
                    } else {
                        Ok(b)
                    },
                }
            }
        },
        _ => Err(ErrorV::NotASchema),
    }
}

/// The field types of the first `n` schemas of `items`; the first failure wins.
pub open spec fn field_types_upto(items: Seq<JsonV>, n: nat) -> Result<Seq<FieldTypeV>, ErrorV>
    decreases items, n,
{
    if n == 0 || n > items.len() {
        Ok(Seq::empty())
    } else {
        match field_types_upto(items, (n - 1) as nat) {
            Err(e) => Err(e),
            Ok(ts) => if !is_schema(items[n - 1]) {
                Err(ErrorV::NotASchema)
            } else {
                match field_type_of(items[n - 1]) {
                    Ok(t) => Ok(ts.push(t)),
                    Err(e) => Err(e),
                }
            },
        }
    }
}

/// A failure among the first `n` schemas is the failure of any longer prefix.
proof fn lemma_field_types_err(items: Seq<JsonV>, n: nat, m: nat)
    requires
        n <= m <= items.len(),
        field_types_upto(items, n) is Err,
    ensures
        field_types_upto(items, m) == field_types_upto(items, n),
    decreases m - n,
{
    if m > n {
        lemma_field_types_err(items, n, (m - 1) as nat);
    }
}

/// The views of a vector of texts.
pub open spec fn texts(v: Seq<String>) -> Seq<Seq<char>> {
    v.map_values(|s: String| s@)
}

pub open spec fn opt_texts(o: Option<Vec<String>>) -> Option<Seq<Seq<char>>> {
    match o {
        Some(v) => Some(texts(v@)),
        None => None,
    }
}

/// The name a `$ref` points to; an error for references of other forms.
pub fn extract_ref_name(reference: &String) -> (r: Result<String, Error>)
    ensures
        ref_name(reference@) matches Some(n) ==> (r matches Ok(s) && s@ == n),
        ref_name(reference@) is None ==> (r matches Err(e) && e@ == ErrorV::UnsupportedReference(reference@)),
{
    if let Some(name) = strip_prefix(reference.as_str(), "#/definitions/") {
        Ok(name)
    } else if let Some(name) = strip_prefix(reference.as_str(), "#/$defs/") {
        Ok(name)
    } else {
        Err(Error::UnsupportedReference(reference.clone()))
    }
}

/// The string format a `format` keyword names, if recognised.
pub fn string_format_from_str(format: &str) -> (r: Option<StringFormat>)
    ensures
        r == format_of(format@),
{
    if same_text(format, "date-time") {
        Some(StringFormat::DateTime)
    } else if same_text(format, "date") {
        Some(StringFormat::Date)
    } else if same_text(format, "time") {
        Some(StringFormat::Time)
    } else if same_text(format, "uuid") {
        Some(StringFormat::Uuid)
    } else if same_text(format, "email") {
        Some(StringFormat::Email)
    } else if same_text(format, "uri") {
        Some(StringFormat::Uri)
    } else if same_text(format, "hostname") {
        Some(StringFormat::Hostname)
    } else if same_text(format, "ipv4") {
        Some(StringFormat::Ipv4)
    } else if same_text(format, "ipv6") {
        Some(StringFormat::Ipv6)
    } else {
        None
    }
}

/// The strings among the values of `a`.
fn strings_of(a: &Vec<Json>) -> (r: Vec<String>)
    ensures
        texts(r@) == strings_in(Json::Array(*a)@->Array_0),
{
    proof { lemma_array_items(a); }
    let ghost av = Json::Array(*a)@->Array_0;
    let mut out: Vec<String> = Vec::new();
    let mut i: usize = 0;
    while i < a.len()
        invariant
            i <= a.len(),
            av == Json::Array(*a)@->Array_0,
            av.len() == a.len(),
            forall|k: int| 0 <= k < a.len() ==> #[trigger] av[k] == a[k]@,
            texts(out@) == strings_upto(av, i as nat),
        decreases a.len() - i,
    {
        match &a[i] {
            Json::String(s) => {
                out.push(s.clone());
                assert(texts(out@) =~= strings_upto(av, i as nat).push(s@));
            },
            _ => {},
        }
        i += 1;
    }
    out
}

fn declared_type_names(s: &Json) -> (r: Option<Vec<String>>)
    ensures
        opt_texts(r) == declared_types(s@),
{
    match s.get("type") {
        Some(Json::String(t)) => {
            let mut v: Vec<String> = Vec::new();
            v.push(t.clone());
            assert(texts(v@) =~= seq![t@]);
            Some(v)
        },
        Some(Json::Array(a)) => Some(strings_of(a)),
        _ => None,
    }
}

/// Whether `ts` holds the text `x`.
pub fn contains_text(ts: &Vec<String>, x: &str) -> (r: bool)
    ensures
        r == texts(ts@).contains(x@),
{
    let mut i: usize = 0;
    while i < ts.len()
        invariant
            i <= ts.len(),
            forall|k: int| 0 <= k < i ==> ts@[k]@ != x@,
        decreases ts.len() - i,
    {
        if same_text(ts[i].as_str(), x) {
            assert(texts(ts@)[i as int] == x@);
            return true;
        }
        i += 1;
    }
    proof {
        if texts(ts@).contains(x@) {
            let k = choose|k: int| 0 <= k < texts(ts@).len() && texts(ts@)[k] == x@;
            assert(ts@[k]@ == x@);
        }
    }
    false
}

fn first_other_text<'a>(ts: &'a Vec<String>, x: &str) -> (r: Option<&'a String>)
    ensures
        first_other(texts(ts@), x@) matches Some(t) ==> (r matches Some(s) && s@ == t),
        first_other(texts(ts@), x@) is None ==> r is None,
{
    let mut i: usize = 0;
    assert(texts(ts@).skip(0) =~= texts(ts@));
    while i < ts.len()
        invariant
            i <= ts.len(),
            first_other(texts(ts@), x@) == first_other(texts(ts@).skip(i as int), x@),
        decreases ts.len() - i,
    {
        assert(texts(ts@).skip(i as int)[0] == ts@[i as int]@);
        if !same_text(ts[i].as_str(), x) {
            return Some(&ts[i]);
        }
        assert(texts(ts@).skip(i as int).skip(1) =~= texts(ts@).skip(i + 1));
        i += 1;
    }
    None
}

fn get_str<'a>(s: &'a Json, key: &str) -> (r: Option<&'a String>)
    ensures
        str_of(s@.member(key@)) matches Some(t) ==> (r matches Some(x) && x@ == t),
        str_of(s@.member(key@)) is None ==> r is None,
{
    match s.get(key) {
        Some(Json::String(t)) => Some(t),
        _ => None,
    }
}

fn is_schema_value(j: &Json) -> (r: bool)
    ensures
        r == is_schema(j@),
{
    match j {
        Json::Bool(_) => true,
        Json::Object(_) => true,
        _ => false,
    }
}

fn schema_to_base_type(s: &Json) -> (r: Result<FieldType, Error>)
    ensures
        result_view(r) == base_type_of(s@),
    decreases s@, 0nat,
{
    let types = declared_type_names(s);
    let primary: Option<&String> = match &types {
        Some(ts) => first_other_text(ts, "null"),
        None => None,
    };
    let t = match primary {
        None => {
            return Ok(FieldType::Any);
        },
        Some(t) => t,
    };
    if same_text(t.as_str(), "boolean") {
        return Ok(FieldType::Primitive(PrimitiveType::Bool));
    } else if same_text(t.as_str(), "integer") {
        return Ok(FieldType::Primitive(PrimitiveType::Int));
    } else if same_text(t.as_str(), "number") {
        return Ok(FieldType::Primitive(PrimitiveType::Float));
    } else if same_text(t.as_str(), "string") {
        let format = match get_str(s, "format") {
            Some(f) => string_format_from_str(f.as_str()),
            None => None,
        };
        return Ok(FieldType::Primitive(PrimitiveType::String(format)));
    } else if same_text(t.as_str(), "array") {
        match s.get("items") {
            None => {
                assert(FieldType::Any@ == FieldTypeV::Any);
                return Ok(FieldType::List(Box::new(FieldType::Any)));
            },
            Some(it) => {
                if !is_schema_value(it) {
                    return Err(Error::NotASchema);
                }
                proof { lemma_member_decreases(s@, "items"@); }
                match schema_to_field_type(it) {
                    Ok(item) => {
                        return Ok(FieldType::List(Box::new(item)));
                    },
                    Err(e) => {
                        return Err(e);
                    },
                }
            },
        }
    } else if same_text(t.as_str(), "object") {
        match s.get("additionalProperties") {
            None => {
                return Ok(FieldType::Any);
            },
            Some(ap) => {
                if !is_schema_value(ap) {
                    return Err(Error::NotASchema);
                }
                if let Json::Bool(false) = ap {
                    return Err(Error::ClosedMap);
                }
                assert(ap@ != JsonV::Bool(false));
                proof { lemma_member_decreases(s@, "additionalProperties"@); }
                match schema_to_field_type(ap) {
                    Ok(value) => {
                        return Ok(FieldType::Dictionary(Box::new(value)));
                    },
                    Err(e) => {
                        return Err(e);
                    },
                }
            },
        }
    } else {
        return Err(Error::UnsupportedType(t.clone()));
    }
}

/// The inline field type a schema describes.
pub fn schema_to_field_type(s: &Json) -> (r: Result<FieldType, Error>)
    ensures
        result_view(r) == field_type_of(s@),
    decreases s@, 1nat,
{
    match s {
        Json::Bool(b) => {
            return if *b {
                Ok(FieldType::Any)
            } else {
                Err(Error::FalseFieldType)
            };
        },
        Json::Object(_) => {},
        _ => {
            return Err(Error::NotASchema);
        },
    }
    if let Some(reference) = get_str(s, "$ref") {
        return match extract_ref_name(reference) {
            Ok(name) => Ok(FieldType::Reference(name)),
            Err(e) => Err(e),
        };
    }
    if let Some(Json::Array(items)) = s.get("allOf") {
        proof { lemma_array_items(items); }
        let ghost iv = Json::Array(*items)@->Array_0;
        let mut out: Vec<FieldType> = Vec::new();
        let mut i: usize = 0;
        assert(views_of(out@) =~= Seq::empty());
        while i < items.len()
            invariant
                i <= items.len(),
                iv == Json::Array(*items)@->Array_0,
                iv.len() == items.len(),
                forall|k: int| 0 <= k < items.len() ==> #[trigger] iv[k] == items[k]@,
                s@ is Object,
                s@.member("allOf"@) == Some(Json::Array(*items)@),
                str_of(s@.member("$ref"@)) is None,
                field_types_upto(iv, i as nat) == Ok::<Seq<FieldTypeV>, ErrorV>(views_of(out@)),
            decreases items.len() - i,
        {
            if !is_schema_value(&items[i]) {
                proof { lemma_field_types_err(iv, i as nat + 1, iv.len()); }
                return Err(Error::NotASchema);
            }
            proof {
                lemma_member_decreases(s@, "allOf"@);
                lemma_item_decreases(Json::Array(*items)@, i as int);
            }
            let ghost before = out@;
            match schema_to_field_type(&items[i]) {
                Ok(t) => {
                    let ghost tv = t@;
                    assert(field_type_of(iv[i as int]) == Ok::<FieldTypeV, ErrorV>(tv));
                    out.push(t);
                    assert(views_of(out@) =~= views_of(before).push(tv));
                    assert(field_types_upto(iv, i as nat + 1) == Ok::<Seq<FieldTypeV>, ErrorV>(views_of(before).push(tv)));
                },
                Err(e) => {
                    proof { lemma_field_types_err(iv, i as nat + 1, iv.len()); }
                    return Err(e);
                },
            }
            i += 1;
        }
        proof { lemma_field_type_lists(out); }
        return Ok(FieldType::Intersection(out));
    }
    let types = declared_type_names(s);
    let has_null = match &types {
        Some(ts) => contains_text(ts, "null"),
        None => false,
    };
    if let Some(ts) = &types {
        if ts.len() == 1 && has_null {
            return Ok(FieldType::Literal(LiteralType::Null));
        }
    }
    let nullable = match s.get("nullable") {
        Some(v) => v.as_bool() == Some(true),
        None => false,
    } || has_null;
    let base = match schema_to_base_type(s) {
        Ok(FieldType::Dictionary(t)) => {
            return Ok(FieldType::Dictionary(t));
        },
        Ok(b) => b,
        Err(e) => {
            return Err(e);
        },
    };
    if nullable {
        Ok(FieldType::Optional(Box::new(base)))
    } else {
        Ok(base)
    }
}

/// The literal an `enum` value stands for.
pub open spec fn literal_of(j: JsonV) -> Result<LiteralV, ErrorV> {
    match j {
        JsonV::String(s) => Ok(LiteralV::String(s)),
        JsonV::Number(n) => match n.signed {
            Some(i) => Ok(LiteralV::Int(i)),
            None => Ok(LiteralV::Float(n.float)),
        },
        JsonV::Bool(b) => Ok(LiteralV::Bool(b)),
        JsonV::Null => Ok(LiteralV::Null),
        _ => Err(ErrorV::UnsupportedEnumValue),
    }
}

/// One enum variant per value, in order, without descriptions.
pub open spec fn enum_variants_upto(vals: Seq<JsonV>, n: nat) -> Result<Seq<EnumVariantV>, ErrorV>
    decreases n,
{
    if n == 0 || n > vals.len() {
        Ok(Seq::empty())
    } else {
        match enum_variants_upto(vals, (n - 1) as nat) {
            Err(e) => Err(e),
            Ok(vs) => match literal_of(vals[n - 1]) {
                Ok(l) => Ok(vs.push(EnumVariantV { value: l, description: None })),
                Err(e) => Err(e),
            },
        }
    }
}

/// The names an object schema lists under `required`.
pub open spec fn required_names(o: JsonV) -> Seq<Seq<char>> {
    match array_of(o.member("required"@)) {
        Some(a) => strings_in(a),
        None => Seq::empty(),
    }
}

/// The field for property `p`: its field type, made optional unless
/// required, and its constraints.
pub open spec fn field_of(p: (Seq<char>, JsonV), required: Seq<Seq<char>>) -> Result<FieldV, ErrorV> {
    if !is_schema(p.1) {
        Err(ErrorV::NotASchema)
    } else {
        match field_type_of(p.1) {
            Err(e) => Err(e),
            Ok(t) => match constraints_of(p.1) {
                Err(e) => Err(e),
                Ok(c) => Ok(FieldV {
                    name: p.0,
                    ty: if required.contains(p.0) { t } else { FieldTypeV::Optional(Box::new(t)) },
                    constraints: c,
                }),
            },
        }
    }
}

pub open spec fn fields_upto(props: Seq<(Seq<char>, JsonV)>, required: Seq<Seq<char>>, n: nat) -> Result<Seq<FieldV>, ErrorV>
    decreases n,
{
    if n == 0 || n > props.len() {
        Ok(Seq::empty())
    } else {
        match fields_upto(props, required, (n - 1) as nat) {
            Err(e) => Err(e),
            Ok(fs) => match field_of(props[n - 1], required) {
                Ok(f) => Ok(fs.push(f)),
                Err(e) => Err(e),
            },
        }
    }
}

/// The object type named `name` that an object schema describes, with one
/// field per entry of `properties`.
pub open spec fn object_type_of(name: Seq<char>, o: JsonV) -> Result<ObjectV, ErrorV> {
    match object_of(o.member("properties"@)) {
        Some(props) => match fields_upto(props, required_names(o), props.len()) {
            Ok(fs) => Ok(ObjectV { name, fields: fs }),
            Err(e) => Err(e),
        },
        None => Ok(ObjectV { name, fields: Seq::empty() }),
    }
}

/// The `(key, value)` pairs of the first `n` members whose value is a string.
pub open spec fn string_pairs_upto(m: Seq<(Seq<char>, JsonV)>, n: nat) -> Seq<(Seq<char>, Seq<char>)>
    decreases n,
{
    if n == 0 || n > m.len() {
        Seq::empty()
    } else {
        match m[n - 1].1 {
            JsonV::String(v) => string_pairs_upto(m, (n - 1) as nat).push((m[n - 1].0, v)),
            _ => string_pairs_upto(m, (n - 1) as nat),
        }
    }
}

/// The discriminator of a union schema: present when `discriminator` is an
/// object with a string `propertyName`.
pub open spec fn discriminator_of(o: JsonV) -> Option<DiscriminatorV> {
    match object_of(o.member("discriminator"@)) {
        Some(d) => match str_of(lookup(d, "propertyName"@)) {
            Some(p) => Some(DiscriminatorV {
                property_name: p,
                mapping: match object_of(lookup(d, "mapping"@)) {
                    Some(mm) => Some(string_pairs_upto(mm, mm.len())),
                    None => None,
                },
            }),
            None => None,
        },
        None => None,
    }
}

/// The name of the `idx`-th member of a `oneOf`: its `title`, else the one
/// property an object member requires, else `Variant{idx}`.
pub open spec fn variant_name(v: JsonV, idx: nat) -> Seq<char> {
    if str_of(v.member("title"@)) is Some {
        str_of(v.member("title"@))->0
    } else if str_of(v.member("type"@)) == Some("object"@) && array_of(v.member("required"@)) is Some
        && array_of(v.member("required"@))->0.len() == 1
        && array_of(v.member("required"@))->0[0] is String {
        array_of(v.member("required"@))->0[0]->String_0
    } else {
        "Variant"@ + decimal(idx)
    }
}

/// A single-valued `enum` member is a literal variant; any other object
/// member is an object variant.
pub open spec fn variant_of(v: JsonV, idx: nat) -> Result<VariantV, ErrorV> {
    match v {
        JsonV::Object(_) => {
            let name = variant_name(v, idx);
            if array_of(v.member("enum"@)) is Some && array_of(v.member("enum"@))->0.len() == 1 {
                match literal_of(array_of(v.member("enum"@))->0[0]) {
                    Ok(l) => Ok(VariantV { name: Some(name), mode: ModeV::Literal(l) }),
                    Err(e) => Err(e),
                }
            } else {
                match object_type_of(name, v) {
                    Ok(o) => Ok(VariantV { name: Some(name), mode: ModeV::Object(o) }),
                    Err(e) => Err(e),
                }
            }
        },
        JsonV::Bool(_) => Err(ErrorV::BoolUnionVariant),
        _ => Err(ErrorV::NotASchema),
    }
}

pub open spec fn variants_upto(members: Seq<JsonV>, n: nat) -> Result<Seq<VariantV>, ErrorV>
    decreases n,
{
    if n == 0 || n > members.len() {
        Ok(Seq::empty())
    } else {
        match variants_upto(members, (n - 1) as nat) {
            Err(e) => Err(e),
            Ok(vs) => match variant_of(members[n - 1], (n - 1) as nat) {
                Ok(v) => Ok(vs.push(v)),
                Err(e) => Err(e),
            },
        }
    }
}

/// The named type `name` that a schema describes: an enum for an `enum`
/// array, else a union for a `oneOf` array, else an object.
pub open spec fn named_type_of(s: JsonV, name: Seq<char>) -> Result<NamedTypeV, ErrorV> {
    match s {
        JsonV::Bool(b) => Err(ErrorV::NamedTypeFromBool(b)),
        JsonV::Object(_) => if array_of(s.member("enum"@)) is Some {
            let vals = array_of(s.member("enum"@))->0;
            match enum_variants_upto(vals, vals.len()) {
                Ok(vs) => Ok(NamedTypeV::Enum(EnumV { name, variants: vs })),
                Err(e) => Err(e),
            }
        } else if array_of(s.member("oneOf"@)) is Some {
            let members = array_of(s.member("oneOf"@))->0;
            match variants_upto(members, members.len()) {
                Ok(vs) => Ok(NamedTypeV::Union(UnionV { name, discriminator: discriminator_of(s), variants: vs })),
                Err(e) => Err(e),
            }
        } else {
            match object_type_of(name, s) {
                Ok(o) => Ok(NamedTypeV::Object(o)),
                Err(e) => Err(e),
            }
        },
        _ => Err(ErrorV::NotASchema),
    }
}

/// The literal an `enum` value stands for.
pub fn json_value_to_literal(v: &Json) -> (r: Result<LiteralType, Error>)
    ensures
        result_view(r) == literal_of(v@),
{
    match v {
        Json::String(s) => Ok(LiteralType::String(s.clone())),
        Json::Number(n) => match n.signed {
            Some(i) => Ok(LiteralType::Int(i)),
            None => Ok(LiteralType::Float(n.float)),
        },
        Json::Bool(b) => Ok(LiteralType::Bool(*b)),
        Json::Null => Ok(LiteralType::Null),
        _ => Err(Error::UnsupportedEnumValue),
    }
}

proof fn lemma_enum_variants_err(vals: Seq<JsonV>, n: nat, m: nat)
    requires
        n <= m <= vals.len(),
        enum_variants_upto(vals, n) is Err,
    ensures
        enum_variants_upto(vals, m) == enum_variants_upto(vals, n),
    decreases m - n,
{
    if m > n {
        lemma_enum_variants_err(vals, n, (m - 1) as nat);
    }
}

fn schema_to_enum_type(name: &str, vals: &Vec<Json>) -> (r: Result<EnumType, Error>)
    ensures
        enum_variants_upto(Json::Array(*vals)@->Array_0, vals.len() as nat) matches Ok(vs)
            ==> (r matches Ok(t) && t@ == EnumV { name: name@, variants: vs }),
        enum_variants_upto(Json::Array(*vals)@->Array_0, vals.len() as nat) matches Err(e)
            ==> (r matches Err(x) && x@ == e),
{
    proof { lemma_array_items(vals); }
    let ghost vv = Json::Array(*vals)@->Array_0;
    let mut out: Vec<EnumVariant> = Vec::new();
    let mut i: usize = 0;
    assert(out@.map_values(|v: EnumVariant| v@) =~= Seq::empty());
    while i < vals.len()
        invariant
            i <= vals.len(),
            vv == Json::Array(*vals)@->Array_0,
            vv.len() == vals.len(),
            forall|k: int| 0 <= k < vals.len() ==> #[trigger] vv[k] == vals[k]@,
            enum_variants_upto(vv, i as nat) == Ok::<Seq<EnumVariantV>, ErrorV>(out@.map_values(|v: EnumVariant| v@)),
        decreases vals.len() - i,
    {
        match json_value_to_literal(&vals[i]) {
            Ok(literal) => {
                let ghost before = out@;
                out.push(EnumVariant { value: literal, description: None });
                assert(out@.map_values(|v: EnumVariant| v@) =~= before.map_values(|v: EnumVariant| v@).push(out@.last()@));
            },
            Err(e) => {
                proof { lemma_enum_variants_err(vv, i as nat + 1, vv.len()); }
                return Err(e);
            },
        }
        i += 1;
    }
    Ok(EnumType { name: text_of(name), variants: out })
}

proof fn lemma_fields_err(props: Seq<(Seq<char>, JsonV)>, required: Seq<Seq<char>>, n: nat, m: nat)
    requires
        n <= m <= props.len(),
        fields_upto(props, required, n) is Err,
    ensures
        fields_upto(props, required, m) == fields_upto(props, required, n),
    decreases m - n,
{
    if m > n {
        lemma_fields_err(props, required, n, (m - 1) as nat);
    }
}

fn property_to_field(key: &String, value: &Json, required: &Vec<String>) -> (r: Result<Field, Error>)
    ensures
        result_view(r) == field_of((key@, value@), texts(required@)),
{
    if !is_schema_value(value) {
        return Err(Error::NotASchema);
    }
    let t = match schema_to_field_type(value) {
        Ok(t) => t,
        Err(e) => {
            return Err(e);
        },
    };
    let ty = if contains_text(required, key.as_str()) {
        t
    } else {
        FieldType::Optional(Box::new(t))
    };
    match extract_constraints_from_object(value) {
        Ok(constraints) => Ok(Field { name: key.clone(), ty: Box::new(ty), constraints }),
        Err(e) => Err(e),
    }
}

/// The object type named `name` that an object schema describes.
pub fn schema_to_object_type(name: &str, s: &Json) -> (r: Result<ObjectType, Error>)
    ensures
        result_view(r) == object_type_of(name@, s@),
{
    let required = match s.get("required") {
        Some(Json::Array(a)) => strings_of(a),
        _ => Vec::new(),
    };
    assert(texts(required@) == required_names(s@)) by {
        if array_of(s@.member("required"@)) is None {
            assert(texts(required@) =~= Seq::empty());
        }
    }
    let props = match s.get("properties") {
        Some(Json::Object(props)) => props,
        _ => {
            assert(Seq::<Field>::empty().map_values(|f: Field| f@) =~= Seq::empty());
            return Ok(ObjectType { name: text_of(name), fields: Vec::new() });
        },
    };
    proof { lemma_object_members(props); }
    let ghost pv = object_members(props)->Object_0;
    let mut fields: Vec<Field> = Vec::new();
    let mut i: usize = 0;
    assert(fields@.map_values(|f: Field| f@) =~= Seq::empty());
    while i < props.len()
        invariant
            i <= props.len(),
            s@.member("properties"@) == Some(object_members(props)),
            pv == object_members(props)->Object_0,
            pv.len() == props.len(),
            forall|k: int| 0 <= k < props.len() ==> #[trigger] pv[k] == (props[k].0@, props[k].1@),
            texts(required@) == required_names(s@),
            fields_upto(pv, texts(required@), i as nat) == Ok::<Seq<FieldV>, ErrorV>(fields@.map_values(|f: Field| f@)),
        decreases props.len() - i,
    {
        match property_to_field(&props[i].0, &props[i].1, &required) {
            Ok(f) => {
                let ghost before = fields@;
                fields.push(f);
                assert(fields@.map_values(|f: Field| f@) =~= before.map_values(|f: Field| f@).push(fields@.last()@));
            },
            Err(e) => {
                proof { lemma_fields_err(pv, texts(required@), i as nat + 1, pv.len()); }
                return Err(e);
            },
        }
        i += 1;
    }
    Ok(ObjectType { name: text_of(name), fields })
}

pub open spec fn opt_discriminator(d: Option<Discriminator>) -> Option<DiscriminatorV> {
    match d {
        Some(d) => Some(d@),
        None => None,
    }
}

fn string_pairs(m: &Vec<(String, Json)>) -> (r: Vec<(String, String)>)
    ensures
        r@.map_values(|p: (String, String)| (p.0@, p.1@)) == string_pairs_upto(object_members(m)->Object_0, m.len() as nat),
{
    proof { lemma_object_members(m); }
    let ghost mv = object_members(m)->Object_0;
    let mut out: Vec<(String, String)> = Vec::new();
    let mut i: usize = 0;
    assert(out@.map_values(|p: (String, String)| (p.0@, p.1@)) =~= Seq::empty());
    while i < m.len()
        invariant
            i <= m.len(),
            mv == object_members(m)->Object_0,
            mv.len() == m.len(),
            forall|k: int| 0 <= k < m.len() ==> #[trigger] mv[k] == (m[k].0@, m[k].1@),
            out@.map_values(|p: (String, String)| (p.0@, p.1@)) == string_pairs_upto(mv, i as nat),
        decreases m.len() - i,
    {
        if let Json::String(v) = &m[i].1 {
            let ghost before = out@;
            out.push((m[i].0.clone(), v.clone()));
            assert(out@.map_values(|p: (String, String)| (p.0@, p.1@)) =~= before.map_values(
                |p: (String, String)| (p.0@, p.1@),
            ).push((m[i as int].0@, v@)));
        }
        i += 1;
    }
    out
}

/// The discriminator a union schema declares.
fn extract_discriminator(s: &Json) -> (r: Option<Discriminator>)
    ensures
        opt_discriminator(r) == discriminator_of(s@),
{
    let d = match s.get("discriminator") {
        Some(d) => d,
        None => {
            return None;
        },
    };
    if d.as_object().is_none() {
        return None;
    }
    let property_name = match get_str(d, "propertyName") {
        Some(p) => p.clone(),
        None => {
            return None;
        },
    };
    let mapping = match d.get("mapping") {
        Some(Json::Object(mm)) => {
            proof { lemma_object_members(mm); }
            Some(string_pairs(mm))
        },
        _ => None,
    };
    Some(Discriminator { property_name, mapping })
}

/// The name of the `idx`-th member of a `oneOf`.
fn union_variant_name(v: &Json, idx: usize) -> (r: String)
    ensures
        r@ == variant_name(v@, idx as nat),
{
    if let Some(t) = get_str(v, "title") {
        return t.clone();
    }
    let is_object = match get_str(v, "type") {
        Some(t) => same_text(t.as_str(), "object"),
        None => false,
    };
    if is_object {
        if let Some(Json::Array(req)) = v.get("required") {
            proof { lemma_array_items(req); }
            if req.len() == 1 {
                if let Json::String(p) = &req[0] {
                    return p.clone();
                }
            }
        }
    }
    numbered("Variant", idx as u128)
}

fn schema_to_union_variant(v: &Json, idx: usize) -> (r: Result<UnionTypeVariant, Error>)
    ensures
        result_view(r) == variant_of(v@, idx as nat),
{
    match v {
        Json::Object(_) => {},
        Json::Bool(_) => {
            return Err(Error::BoolUnionVariant);
        },
        _ => {
            return Err(Error::NotASchema);
        },
    }
    let name = union_variant_name(v, idx);
    if let Some(Json::Array(ev)) = v.get("enum") {
        proof { lemma_array_items(ev); }
        if ev.len() == 1 {
            return match json_value_to_literal(&ev[0]) {
                Ok(l) => Ok(UnionTypeVariant { name: Some(name), mode: Box::new(UnionTypeVariantMode::Literal(l)) }),
                Err(e) => Err(e),
            };
        }
    }
    match schema_to_object_type(name.as_str(), v) {
        Ok(o) => Ok(UnionTypeVariant { name: Some(name), mode: Box::new(UnionTypeVariantMode::Object(o)) }),
        Err(e) => Err(e),
    }
}

proof fn lemma_variants_err(members: Seq<JsonV>, n: nat, m: nat)
    requires
        n <= m <= members.len(),
        variants_upto(members, n) is Err,
    ensures
        variants_upto(members, m) == variants_upto(members, n),
    decreases m - n,
{
    if m > n {
        lemma_variants_err(members, n, (m - 1) as nat);
    }
}

fn schema_to_union_type(name: &str, members: &Vec<Json>, s: &Json) -> (r: Result<UnionType, Error>)
    ensures
        variants_upto(Json::Array(*members)@->Array_0, members.len() as nat) matches Ok(vs)
            ==> (r matches Ok(u) && u@ == UnionV { name: name@, discriminator: discriminator_of(s@), variants: vs }),
        variants_upto(Json::Array(*members)@->Array_0, members.len() as nat) matches Err(e)
            ==> (r matches Err(x) && x@ == e),
{
    let discriminator = extract_discriminator(s);
    proof { lemma_array_items(members); }
    let ghost mv = Json::Array(*members)@->Array_0;
    let mut out: Vec<UnionTypeVariant> = Vec::new();
    let mut i: usize = 0;
    assert(out@.map_values(|v: UnionTypeVariant| v@) =~= Seq::empty());
    while i < members.len()
        invariant
            i <= members.len(),
            mv == Json::Array(*members)@->Array_0,
            mv.len() == members.len(),
            forall|k: int| 0 <= k < members.len() ==> #[trigger] mv[k] == members[k]@,
            variants_upto(mv, i as nat) == Ok::<Seq<VariantV>, ErrorV>(out@.map_values(|v: UnionTypeVariant| v@)),
        decreases members.len() - i,
    {
        match schema_to_union_variant(&members[i], i) {
            Ok(v) => {
                let ghost before = out@;
                out.push(v);
                assert(out@.map_values(|v: UnionTypeVariant| v@) =~= before.map_values(
                    |v: UnionTypeVariant| v@,
                ).push(out@.last()@));
            },
            Err(e) => {
                proof { lemma_variants_err(mv, i as nat + 1, mv.len()); }
                return Err(e);
            },
        }
        i += 1;
    }
    Ok(UnionType { name: text_of(name), discriminator, variants: out })
}

/// The named type `name` that a schema describes.
pub fn schema_to_type(s: &Json, name: &str) -> (r: Result<NamedType, Error>)
    ensures
        result_view(r) == named_type_of(s@, name@),
{
    match s {
        Json::Bool(b) => {
            return Err(Error::NamedTypeFromBool(*b));
        },
        Json::Object(_) => {},
        _ => {
            return Err(Error::NotASchema);
        },
    }
    if let Some(Json::Array(vals)) = s.get("enum") {
        proof { lemma_array_items(vals); }
        return match schema_to_enum_type(name, vals) {
            Ok(e) => Ok(NamedType::Enum(e)),
            Err(e) => Err(e),
        };
    }
    if let Some(Json::Array(members)) = s.get("oneOf") {
        proof { lemma_array_items(members); }
        return match schema_to_union_type(name, members, s) {
            Ok(u) => Ok(NamedType::Union(u)),
            Err(e) => Err(e),
        };
    }
    match schema_to_object_type(name, s) {
        Ok(o) => Ok(NamedType::Object(o)),
        Err(e) => Err(e),
    }
}

} // verus!
