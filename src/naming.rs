use vstd::prelude::*;
use vstd::string::StrSliceExecFns;
use crate::text::{push_char, push_text, text_of};
use crate::types::PrimitiveType;

verus! {

/// What `char::to_uppercase` gives for a character (one or more characters).
pub uninterp spec fn upper_of(c: char) -> Seq<char>;

/// What `str::to_lowercase` gives for a text.
pub uninterp spec fn lower_of(s: Seq<char>) -> Seq<char>;

/// Unicode's `Alphabetic` property, as `char::is_alphabetic` reads it.
pub uninterp spec fn alphabetic(c: char) -> bool;

/// `Alphabetic` or `Numeric`, as `char::is_alphanumeric` reads it.
pub uninterp spec fn alphanumeric(c: char) -> bool;

/// Relies on `char::to_uppercase`: the upper-case mapping of one character.
#[verifier::external_body]
fn upper_char(c: char) -> (r: String)
    ensures
        r@ == upper_of(c),
{
    c.to_uppercase().collect()
}

/// Relies on `str::to_lowercase`: the lower-case mapping of a text.
#[verifier::external_body]
fn lower_text(s: &str) -> (r: String)
    ensures
        r@ == lower_of(s@),
{
    s.to_lowercase()
}

/// Relies on `char::is_alphabetic`.
#[verifier::external_body]
fn is_alphabetic(c: char) -> (r: bool)
    ensures
        r == alphabetic(c),
{
    c.is_alphabetic()
}

/// Relies on `char::is_alphanumeric`.
#[verifier::external_body]
fn is_alphanumeric(c: char) -> (r: bool)
    ensures
        r == alphanumeric(c),
{
    c.is_alphanumeric()
}

/// The TypeScript type of a primitive.
pub fn primitive_to_ts(p: &PrimitiveType) -> (r: String)
    ensures
        r@ == match p {
            PrimitiveType::Bool => "boolean"@,
            PrimitiveType::Int => "number"@,
            PrimitiveType::Float => "number"@,
            PrimitiveType::String(_) => "string"@,
        },
{
    match p {
        PrimitiveType::Bool => text_of("boolean"),
        PrimitiveType::Int => text_of("number"),
        PrimitiveType::Float => text_of("number"),
        PrimitiveType::String(_) => text_of("string"),
    }
}

/// The characters that separate the parts of a name.
pub open spec fn is_separator(c: char) -> bool {
    c == '-' || c == '_'
}

/// Position `i` of `s` opens a part: it is no separator and follows the
/// start or a separator.
pub open spec fn starts_part(s: Seq<char>, i: int) -> bool {
    !is_separator(s[i]) && (i == 0 || is_separator(s[i - 1]))
}

/// The first `n` characters of `s` in PascalCase: separators dropped, the
/// first character of each part upper-cased.
pub open spec fn pascal_upto(s: Seq<char>, n: nat) -> Seq<char>
    decreases n,
{
    if n == 0 || n > s.len() {
        Seq::empty()
    } else {
        let i = n - 1;
        if is_separator(s[i]) {
            pascal_upto(s, i as nat)
        } else if starts_part(s, i) {
            pascal_upto(s, i as nat) + upper_of(s[i])
        } else {
            pascal_upto(s, i as nat).push(s[i])
        }
    }
}

fn separator(c: char) -> (r: bool)
    ensures
        r == is_separator(c),
{
    c == '-' || c == '_'
}

/// `s` in PascalCase: split at `-` and `_`, each part capitalised.
pub fn to_pascal_case(s: &str) -> (r: String)
    ensures
        r@ == pascal_upto(s@, s@.len()),
{
    let n = s.unicode_len();
    let mut out = String::new();
    let mut previous_separates = true;
    let mut i: usize = 0;
    while i < n
        invariant
            n == s@.len(),
            i <= n,
            out@ == pascal_upto(s@, i as nat),
            previous_separates == (i == 0 || is_separator(s@[i - 1])),
        decreases n - i,
    {
        let c = s.get_char(i);
        if separator(c) {
            previous_separates = true;
        } else {
            if previous_separates {
                let u = upper_char(c);
                push_text(&mut out, u.as_str());
            } else {
                push_char(&mut out, c);
            }
            previous_separates = false;
        }
        i += 1;
    }
    out
}

/// The non-empty parts of the first `n` characters of `s`, split at separators.
pub open spec fn parts_upto(s: Seq<char>, n: nat) -> Seq<Seq<char>>
    decreases n,
{
    if n == 0 || n > s.len() {
        Seq::empty()
    } else {
        let i = n - 1;
        let prev = parts_upto(s, i as nat);
        if is_separator(s[i]) {
            prev
        } else if starts_part(s, i) {
            prev.push(seq![s[i]])
        } else {
            prev.update(prev.len() - 1, prev.last().push(s[i]))
        }
    }
}

/// Parts `1..n` in camelCase: each upper-cases its first character and
/// lower-cases the rest.
pub open spec fn camel_tail(parts: Seq<Seq<char>>, n: nat) -> Seq<char>
    decreases n,
{
    if n <= 1 || n > parts.len() {
        Seq::empty()
    } else {
        camel_tail(parts, (n - 1) as nat) + upper_of(parts[n - 1][0]) + lower_of(parts[n - 1].skip(1))
    }
}

/// `s` in camelCase: the first part lower-cased, the others capitalised.
pub open spec fn camel(s: Seq<char>) -> Seq<char> {
    let parts = parts_upto(s, s.len());
    if parts.len() == 0 {
        Seq::empty()
    } else {
        lower_of(parts[0]) + camel_tail(parts, parts.len())
    }
}

pub open spec fn texts_of(v: Seq<String>) -> Seq<Seq<char>> {
    v.map_values(|t: String| t@)
}

proof fn lemma_parts_nonempty(s: Seq<char>, n: nat)
    requires
        n <= s.len(),
    ensures
        forall|k: int| 0 <= k < parts_upto(s, n).len() ==> (#[trigger] parts_upto(s, n)[k]).len() > 0,
        n > 0 && !is_separator(s[n - 1]) ==> parts_upto(s, n).len() > 0,
    decreases n,
{
    if n > 0 {
        lemma_parts_nonempty(s, (n - 1) as nat);
        if n > 1 && !is_separator(s[n - 1]) && !starts_part(s, n - 1) {
            assert(!is_separator(s[n - 2]));
        }
    }
}

/// `s` in camelCase: split at `-` and `_`, the first part lower-cased,
/// the others capitalised with the rest lower-cased.
pub fn to_camel_case(s: &str) -> (r: String)
    ensures
        r@ == camel(s@),
{
    let n = s.unicode_len();
    let mut parts: Vec<String> = Vec::new();
    let mut previous_separates = true;
    let mut i: usize = 0;
    assert(texts_of(parts@) =~= Seq::empty());
    while i < n
        invariant
            n == s@.len(),
            i <= n,
            texts_of(parts@) == parts_upto(s@, i as nat),
            previous_separates == (i == 0 || is_separator(s@[i - 1])),
        decreases n - i,
    {
        let c = s.get_char(i);
        proof { lemma_parts_nonempty(s@, i as nat); }
        if separator(c) {
            previous_separates = true;
        } else {
            if previous_separates {
                let mut part = String::new();
                push_char(&mut part, c);
                parts.push(part);
                assert(texts_of(parts@) =~= parts_upto(s@, i as nat).push(seq![c]));
            } else {
                proof { lemma_parts_nonempty(s@, i as nat); }
                let last = parts.len() - 1;
                let mut part = parts.remove(last);
                push_char(&mut part, c);
                parts.push(part);
                assert(texts_of(parts@) =~= parts_upto(s@, i as nat).update(last as int, parts_upto(s@, i as nat).last().push(c)));
            }
            previous_separates = false;
        }
        i += 1;
    }
    proof { lemma_parts_nonempty(s@, n as nat); }
    if parts.len() == 0 {
        return String::new();
    }
    let mut out = lower_text(parts[0].as_str());
    let mut k: usize = 1;
    assert forall|j: int| 0 <= j < parts.len() implies (#[trigger] parts@[j])@.len() > 0 by {
        assert(parts@[j]@ == texts_of(parts@)[j]);
    }
    assert(out@ =~= lower_of(parts@[0]@) + camel_tail(texts_of(parts@), 1));
    while k < parts.len()
        invariant
            1 <= k <= parts.len(),
            texts_of(parts@) == parts_upto(s@, s@.len()),
            forall|j: int| 0 <= j < parts.len() ==> (#[trigger] parts@[j])@.len() > 0,
            out@ == lower_of(parts@[0]@) + camel_tail(texts_of(parts@), k as nat),
        decreases parts.len() - k,
    {
        let part = &parts[k];
        assert(part@ == texts_of(parts@)[k as int]);
        let first = part.as_str().get_char(0);
        let len = part.as_str().unicode_len();
        let rest = part.as_str().substring_char(1, len);
        let u = upper_char(first);
        push_text(&mut out, u.as_str());
        let l = lower_text(rest);
        push_text(&mut out, l.as_str());
        assert(out@ =~= lower_of(parts@[0]@) + camel_tail(texts_of(parts@), (k + 1) as nat));
        k += 1;
    }
    out
}

/// A name TypeScript accepts unquoted as a property: a letter, `_` or `$`,
/// then letters, digits, `_` or `$`.
pub open spec fn ts_identifier(s: Seq<char>) -> bool {
    &&& s.len() > 0
    &&& (alphabetic(s[0]) || s[0] == '_' || s[0] == '$')
    &&& forall|i: int| 1 <= i < s.len() ==> (alphanumeric(#[trigger] s[i]) || s[i] == '_' || s[i] == '$')
}

/// Whether TypeScript accepts `s` unquoted as a property name.
pub fn is_valid_ts_identifier(s: &str) -> (r: bool)
    ensures
        r == ts_identifier(s@),
{
    let n = s.unicode_len();
    if n == 0 {
        return false;
    }
    let first = s.get_char(0);
    if !(is_alphabetic(first) || first == '_' || first == '$') {
        return false;
    }
    let mut i: usize = 1;
    while i < n
        invariant
            n == s@.len(),
            1 <= i <= n,
            forall|k: int| 1 <= k < i ==> (alphanumeric(#[trigger] s@[k]) || s@[k] == '_' || s@[k] == '$'),
        decreases n - i,
    {
        let c = s.get_char(i);
        if !(is_alphanumeric(c) || c == '_' || c == '$') {
            return false;
        }
        i += 1;
    }
    true
}

/// `s` as it is when TypeScript accepts it unquoted, else in double quotes.
pub fn quote_if_needed(s: &str) -> (r: String)
    ensures
        ts_identifier(s@) ==> r@ == s@,
        !ts_identifier(s@) ==> r@ == seq!['"'] + s@ + seq!['"'],
{
    if is_valid_ts_identifier(s) {
        text_of(s)
    } else {
        let mut out = String::new();
        push_char(&mut out, '"');
        push_text(&mut out, s);
        push_char(&mut out, '"');
        assert(out@ =~= seq!['"'] + s@ + seq!['"']);
        out
    }
}

} // verus!
