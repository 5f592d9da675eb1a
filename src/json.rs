use vstd::prelude::*;
use crate::float::FloatBits;
use crate::text::same_text;

verus! {

broadcast use vstd::std_specs::vec::group_vec_axioms;

/// A JSON number as the readings a schema walk takes of it: as a signed
/// integer, as an unsigned integer (each absent when the number is not one),
/// and as a double.
#[derive(Clone, Copy, Debug)]
pub struct Number {
    pub signed: Option<i64>,
    pub unsigned: Option<u64>,
    pub float: FloatBits,
}

/// A JSON document; object members keep their order and the first member
/// with a given key is the one that lookups find.
#[derive(Debug)]
pub enum Json {
    Null,
    Bool(bool),
    Number(Number),
    String(String),
    Array(Vec<Json>),
    Object(Vec<(String, Json)>),
}

/// The mathematical value of a JSON document.
pub enum JsonV {
    Null,
    Bool(bool),
    Number(Number),
    String(Seq<char>),
    Array(Seq<JsonV>),
    Object(Seq<(Seq<char>, JsonV)>),
}

impl View for Json {
    type V = JsonV;

    open spec fn view(&self) -> JsonV
        decreases self,
    {
        match self {
            Json::Null => JsonV::Null,
            Json::Bool(b) => JsonV::Bool(*b),
            Json::Number(n) => JsonV::Number(*n),
            Json::String(s) => JsonV::String(s@),
            Json::Array(a) => JsonV::Array(
                Seq::new(a.len() as nat, |i: int| if 0 <= i < a.len() { a[i].view() } else { JsonV::Null }),
            ),
            Json::Object(m) => JsonV::Object(
                Seq::new(
                    m.len() as nat,
                    |i: int|
                        if 0 <= i < m.len() {
                            (m[i].0@, m[i].1.view())
                        } else {
                            (Seq::empty(), JsonV::Null)
                        },
                ),
            ),
        }
    }
}

impl Number {
    pub fn new(signed: Option<i64>, unsigned: Option<u64>, float: FloatBits) -> (r: Number)
        ensures
            r.signed == signed,
            r.unsigned == unsigned,
            r.float == float,
    {
        Number { signed, unsigned, float }
    }
}

/// `i` is the first position of `entries` whose key is `key`.
pub open spec fn is_first_key(entries: Seq<(Seq<char>, JsonV)>, key: Seq<char>, i: int) -> bool {
    &&& 0 <= i < entries.len()
    &&& entries[i].0 == key
    &&& forall|j: int| 0 <= j < i ==> entries[j].0 != key
}

/// The value of the first member of `entries` whose key is `key`.
pub open spec fn lookup(entries: Seq<(Seq<char>, JsonV)>, key: Seq<char>) -> Option<JsonV> {
    if exists|i: int| is_first_key(entries, key, i) {
        Some(entries[choose|i: int| is_first_key(entries, key, i)].1)
    } else {
        None
    }
}

/// The first member with a key is the one `lookup` finds.
pub proof fn lemma_lookup_first(entries: Seq<(Seq<char>, JsonV)>, key: Seq<char>, i: int)
    requires
        is_first_key(entries, key, i),
    ensures
        lookup(entries, key) == Some(entries[i].1),
{
    let c = choose|c: int| is_first_key(entries, key, c);
    assert(is_first_key(entries, key, c));
    if c < i {
        assert(entries[c].0 != key);
    } else if c > i {
        assert(entries[i].0 != key);
    }
}

/// A member of an object is smaller than the object.
pub proof fn lemma_member_decreases(s: JsonV, key: Seq<char>)
    requires
        s.member(key) is Some,
    ensures
        decreases_to!(s => s.member(key)->0),
{
    let m = s->Object_0;
    let c = choose|c: int| is_first_key(m, key, c);
    assert(decreases_to!(s => m));
    assert(decreases_to!(m => m[c]));
    assert(decreases_to!(m[c] => m[c].1));
}

/// An item of an array is smaller than the array.
pub proof fn lemma_item_decreases(a: JsonV, i: int)
    requires
        a is Array,
        0 <= i < a->Array_0.len(),
    ensures
        decreases_to!(a => a->Array_0[i]),
{
    let items = a->Array_0;
    assert(decreases_to!(a => items));
    assert(decreases_to!(items => items[i]));
}

pub open spec fn view_opt(o: Option<&Json>) -> Option<JsonV> {
    match o {
        Some(v) => Some(v@),
        None => None,
    }
}

impl JsonV {
    /// The member `key` of an object; nothing for other values.
    pub open spec fn member(self, key: Seq<char>) -> Option<JsonV> {
        match self {
            JsonV::Object(m) => lookup(m, key),
            _ => None,
        }
    }
}

pub open spec fn bool_of(j: Option<JsonV>) -> Option<bool> {
    match j {
        Some(JsonV::Bool(b)) => Some(b),
        _ => None,
    }
}

pub open spec fn str_of(j: Option<JsonV>) -> Option<Seq<char>> {
    match j {
        Some(JsonV::String(s)) => Some(s),
        _ => None,
    }
}

pub open spec fn array_of(j: Option<JsonV>) -> Option<Seq<JsonV>> {
    match j {
        Some(JsonV::Array(a)) => Some(a),
        _ => None,
    }
}

pub open spec fn object_of(j: Option<JsonV>) -> Option<Seq<(Seq<char>, JsonV)>> {
    match j {
        Some(JsonV::Object(m)) => Some(m),
        _ => None,
    }
}

pub open spec fn float_of(j: Option<JsonV>) -> Option<FloatBits> {
    match j {
        Some(JsonV::Number(n)) => Some(n.float),
        _ => None,
    }
}

pub open spec fn uint_of(j: Option<JsonV>) -> Option<u64> {
    match j {
        Some(JsonV::Number(n)) => n.unsigned,
        _ => None,
    }
}

/// The value of the first member of `m` whose key is `key`.
pub fn lookup_in<'a>(m: &'a Vec<(String, Json)>, key: &str) -> (r: Option<&'a Json>)
    ensures
        view_opt(r) == object_members(m).member(key@),
{
    proof { lemma_object_members(m); }
    let ghost mv = object_members(m)->Object_0;
    let mut i: usize = 0;
    while i < m.len()
        invariant
            i <= m.len(),
            mv == object_members(m)->Object_0,
            mv.len() == m.len(),
            forall|k: int| 0 <= k < m.len() ==> #[trigger] mv[k] == (m[k].0@, m[k].1@),
            forall|k: int| 0 <= k < i ==> (#[trigger] mv[k]).0 != key@,
        decreases m.len() - i,
    {
        if same_text(m[i].0.as_str(), key) {
            proof {
                assert(is_first_key(mv, key@, i as int));
                lemma_lookup_first(mv, key@, i as int);
            }
            return Some(&m[i].1);
        }
        i += 1;
    }
    assert(!exists|c: int| is_first_key(mv, key@, c));
    None
}

/// The view of an object with these members.
pub open spec fn object_members(m: &Vec<(String, Json)>) -> JsonV {
    Json::Object(*m)@
}

pub proof fn lemma_object_members(m: &Vec<(String, Json)>)
    ensures
        object_members(m) is Object,
        object_members(m)->Object_0.len() == m.len(),
        forall|i: int| 0 <= i < m.len() ==> #[trigger] object_members(m)->Object_0[i] == (m[i].0@, m[i].1@),
{
    reveal_with_fuel(<Json as View>::view, 2);
}

pub proof fn lemma_array_items(a: &Vec<Json>)
    ensures
        Json::Array(*a)@ is Array,
        Json::Array(*a)@->Array_0.len() == a.len(),
        forall|i: int| 0 <= i < a.len() ==> #[trigger] Json::Array(*a)@->Array_0[i] == a[i]@,
{
    reveal_with_fuel(<Json as View>::view, 2);
}

impl Json {
    /// The member `key` of an object.
    pub fn get(&self, key: &str) -> (r: Option<&Json>)
        ensures
            view_opt(r) == self@.member(key@),
    {
        match self {
            Json::Object(m) => lookup_in(m, key),
            _ => None,
        }
    }

    /// The value of a boolean.
    pub fn as_bool(&self) -> (r: Option<bool>)
        ensures
            r == bool_of(Some(self@)),
    {
        match self {
            Json::Bool(b) => Some(*b),
            _ => None,
        }
    }

    /// The text of a string.
    pub fn as_str(&self) -> (r: Option<&String>)
        ensures
            r is Some <==> str_of(Some(self@)) is Some,
            r matches Some(s) ==> str_of(Some(self@)) == Some(s@),
    {
        match self {
            Json::String(s) => Some(s),
            _ => None,
        }
    }

    /// The items of an array.
    pub fn as_array(&self) -> (r: Option<&Vec<Json>>)
        ensures
            r is Some <==> array_of(Some(self@)) is Some,
            r matches Some(a) ==> self@ == Json::Array(*a)@,
    {
        match self {
            Json::Array(a) => Some(a),
            _ => None,
        }
    }

    /// The members of an object.
    pub fn as_object(&self) -> (r: Option<&Vec<(String, Json)>>)
        ensures
            r is Some <==> object_of(Some(self@)) is Some,
            r matches Some(m) ==> self@ == object_members(m),
    {
        match self {
            Json::Object(m) => Some(m),
            _ => None,
        }
    }

    /// A number read as a double.
    pub fn as_f64_bits(&self) -> (r: Option<FloatBits>)
        ensures
            r == float_of(Some(self@)),
    {
        match self {
            Json::Number(n) => Some(n.float),
            _ => None,
        }
    }

    /// A number read as an unsigned integer, if it is one.
    pub fn as_u64(&self) -> (r: Option<u64>)
        ensures
            r == uint_of(Some(self@)),
    {
        match self {
            Json::Number(n) => n.unsigned,
            _ => None,
        }
    }
}

/// A copy of `j`.
pub fn copy_json(j: &Json) -> (r: Json)
    ensures
        r@ == j@,
    decreases j,
{
    match j {
        Json::Null => Json::Null,
        Json::Bool(b) => Json::Bool(*b),
        Json::Number(n) => Json::Number(*n),
        Json::String(s) => Json::String(s.clone()),
        Json::Array(a) => {
            let mut out: Vec<Json> = Vec::new();
            let mut i: usize = 0;
            while i < a.len()
                invariant
                    i <= a.len(),
                    j is Array,
                    j->Array_0 == *a,
                    out.len() == i,
                    forall|k: int| 0 <= k < i ==> (#[trigger] out[k])@ == a[k]@,
                decreases a.len() - i,
            {
                proof {
                    assert(decreases_to!(*j => j->Array_0));
                    assert(decreases_to!(*a => a[i as int]));
                }
                out.push(copy_json(&a[i]));
                i += 1;
            }
            let r = Json::Array(out);
            proof {
                lemma_array_items(&out);
                lemma_array_items(a);
            }
            assert(r@->Array_0 =~= j@->Array_0);
            r
        },
        Json::Object(m) => {
            let mut out: Vec<(String, Json)> = Vec::new();
            let mut i: usize = 0;
            while i < m.len()
                invariant
                    i <= m.len(),
                    j is Object,
                    j->Object_0 == *m,
                    out.len() == i,
                    forall|k: int| 0 <= k < i ==> (#[trigger] out[k]).0@ == m[k].0@ && out[k].1@ == m[k].1@,
                decreases m.len() - i,
            {
                proof {
                    assert(decreases_to!(*j => j->Object_0));
                    assert(decreases_to!(*m => m[i as int]));
                    assert(decreases_to!(m[i as int] => m[i as int].1));
                }
                out.push((m[i].0.clone(), copy_json(&m[i].1)));
                i += 1;
            }
            let r = Json::Object(out);
            proof {
                lemma_object_members(&out);
                lemma_object_members(m);
            }
            assert(r@->Object_0 =~= j@->Object_0);
            r
        },
    }
}

impl Clone for Json {
    fn clone(&self) -> (r: Json)
        ensures
            r@ == self@,
    {
        copy_json(self)
    }
}

} // verus!
