use vstd::prelude::*;
use crate::text::{lemma_text_le_transitive, lemma_text_lt_le, text_le, text_less, text_lt};

verus! {

/// A value ordered by a name.
pub trait Named {
    spec fn key(&self) -> Seq<char>;

    fn key_text(&self) -> (r: &String)
        ensures
            r@ == self.key(),
    ;
}

/// `x` put into `s` after every element whose key does not exceed its own:
/// one step of a stable insertion sort.
pub open spec fn insert_by<A>(s: Seq<A>, x: A, key: spec_fn(A) -> Seq<char>) -> Seq<A>
    decreases s.len(),
{
    if s.len() == 0 {
        seq![x]
    } else if text_lt(key(x), key(s.last())) {
        insert_by(s.drop_last(), x, key).push(s.last())
    } else {
        s.push(x)
    }
}

/// `s` sorted by key; elements with equal keys keep their order.
pub open spec fn sort_by<A>(s: Seq<A>, key: spec_fn(A) -> Seq<char>) -> Seq<A>
    decreases s.len(),
{
    if s.len() == 0 {
        s
    } else {
        insert_by(sort_by(s.drop_last(), key), s.last(), key)
    }
}

proof fn lemma_insert_at<A>(s: Seq<A>, x: A, key: spec_fn(A) -> Seq<char>, p: int)
    requires
        0 <= p <= s.len(),
        forall|k: int| p <= k < s.len() ==> text_lt(key(x), key(#[trigger] s[k])),
        p == 0 || !text_lt(key(x), key(s[p - 1])),
    ensures
        insert_by(s, x, key) == s.take(p).push(x) + s.skip(p),
    decreases s.len(),
{
    if s.len() == 0 {
        assert(s.take(p).push(x) + s.skip(p) =~= seq![x]);
    } else if p == s.len() {
        assert(s.take(p).push(x) + s.skip(p) =~= s.push(x));
    } else {
        let t = s.drop_last();
        assert(text_lt(key(x), key(s.last())));
        assert forall|k: int| p <= k < t.len() implies text_lt(key(x), key(#[trigger] t[k])) by {
            assert(t[k] == s[k]);
        }
        lemma_insert_at(t, x, key, p);
        assert(s.take(p).push(x) + s.skip(p) =~= (t.take(p).push(x) + t.skip(p)).push(s.last()));
    }
}

/// Inserts `x` into `v`, which holds `sort_by` of some sequence, as `insert_by` does.
fn insert_named<T: Named>(v: &mut Vec<T>, x: T)
    ensures
        final(v)@ == insert_by(old(v)@, x, |t: T| t.key()),
{
    let mut p: usize = v.len();
    while p > 0 && text_less(x.key_text().as_str(), v[p - 1].key_text().as_str())
        invariant
            p <= v.len(),
            forall|k: int| p <= k < v.len() ==> text_lt(x.key(), (#[trigger] v@[k]).key()),
        decreases p,
    {
        p -= 1;
    }
    proof {
        lemma_insert_at(v@, x, |t: T| t.key(), p as int);
    }
    let ghost before = v@;
    v.insert(p, x);
    assert(v@ =~= before.take(p as int).push(x) + before.skip(p as int));
}

/// Sorts by name, stably.
pub fn sort_by_name<T: Named>(v: &mut Vec<T>)
    ensures
        final(v)@ == sort_by(old(v)@, |t: T| t.key()),
{
    let ghost original = v@;
    assert(original.len() == v.len());
    let mut out: Vec<T> = Vec::new();
    let mut i: usize = 0;
    while v.len() > 0
        invariant
            i + v@.len() == original.len(),
            original.len() <= usize::MAX,
            v@ == original.skip(i as int),
            out@ == sort_by(original.take(i as int), |t: T| t.key()),
        decreases v.len(),
    {
        let x = v.remove(0);
        assert(original.take(i + 1).drop_last() =~= original.take(i as int));
        assert(original.take(i + 1).last() == x);
        insert_named(&mut out, x);
        i += 1;
        assert(v@ =~= original.skip(i as int));
    }
    assert(original.take(i as int) =~= original);
    *v = out;
}

/// Sorting commutes with a map that keeps keys.
pub proof fn lemma_sort_map<A, B>(s: Seq<A>, f: spec_fn(A) -> B, ka: spec_fn(A) -> Seq<char>, kb: spec_fn(B) -> Seq<char>)
    requires
        forall|x: A| #[trigger] kb(f(x)) == ka(x),
    ensures
        sort_by(s, ka).map_values(f) == sort_by(s.map_values(f), kb),
    decreases s.len(),
{
    if s.len() > 0 {
        lemma_sort_map(s.drop_last(), f, ka, kb);
        assert(s.map_values(f).drop_last() =~= s.drop_last().map_values(f));
        lemma_insert_map(sort_by(s.drop_last(), ka), s.last(), f, ka, kb);
    } else {
        assert(sort_by(s, ka).map_values(f) =~= sort_by(s.map_values(f), kb));
    }
}

proof fn lemma_insert_map<A, B>(s: Seq<A>, x: A, f: spec_fn(A) -> B, ka: spec_fn(A) -> Seq<char>, kb: spec_fn(B) -> Seq<char>)
    requires
        forall|y: A| #[trigger] kb(f(y)) == ka(y),
    ensures
        insert_by(s, x, ka).map_values(f) == insert_by(s.map_values(f), f(x), kb),
    decreases s.len(),
{
    if s.len() == 0 {
        assert(insert_by(s, x, ka).map_values(f) =~= seq![f(x)]);
    } else {
        assert(s.map_values(f).last() == f(s.last()));
        assert(kb(f(s.last())) == ka(s.last()));
        assert(kb(f(x)) == ka(x));
        assert(s.map_values(f).drop_last() =~= s.drop_last().map_values(f));
        if text_lt(ka(x), ka(s.last())) {
            lemma_insert_map(s.drop_last(), x, f, ka, kb);
            assert(insert_by(s, x, ka).map_values(f) =~= insert_by(s.drop_last(), x, ka).map_values(f).push(f(s.last())));
        } else {
            assert(insert_by(s, x, ka).map_values(f) =~= s.map_values(f).push(f(x)));
        }
    }
}

/// The keys of `s` never decrease.
pub open spec fn sorted_by<A>(s: Seq<A>, key: spec_fn(A) -> Seq<char>) -> bool {
    forall|i: int, j: int| 0 <= i < j < s.len() ==> text_le(key(#[trigger] s[i]), key(#[trigger] s[j]))
}

proof fn lemma_insert_bounded<A>(s: Seq<A>, x: A, key: spec_fn(A) -> Seq<char>, b: Seq<char>)
    requires
        forall|i: int| 0 <= i < s.len() ==> text_le(key(#[trigger] s[i]), b),
        text_le(key(x), b),
    ensures
        forall|i: int| 0 <= i < insert_by(s, x, key).len() ==> text_le(key(#[trigger] insert_by(s, x, key)[i]), b),
        insert_by(s, x, key).len() == s.len() + 1,
    decreases s.len(),
{
    if s.len() > 0 && text_lt(key(x), key(s.last())) {
        lemma_insert_bounded(s.drop_last(), x, key, b);
        let r = insert_by(s.drop_last(), x, key);
        assert forall|i: int| 0 <= i < r.push(s.last()).len() implies text_le(key(#[trigger] r.push(s.last())[i]), b) by {
            if i < r.len() {
                assert(r.push(s.last())[i] == r[i]);
            }
        }
    }
}

proof fn lemma_insert_sorted<A>(s: Seq<A>, x: A, key: spec_fn(A) -> Seq<char>)
    requires
        sorted_by(s, key),
    ensures
        sorted_by(insert_by(s, x, key), key),
        insert_by(s, x, key).len() == s.len() + 1,
    decreases s.len(),
{
    if s.len() == 0 {
    } else if text_lt(key(x), key(s.last())) {
        let t = s.drop_last();
        assert(sorted_by(t, key));
        lemma_insert_sorted(t, x, key);
        lemma_text_lt_le(key(x), key(s.last()));
        lemma_insert_bounded(t, x, key, key(s.last()));
        let r = insert_by(t, x, key);
        let out = r.push(s.last());
        assert forall|i: int, j: int| 0 <= i < j < out.len() implies text_le(key(#[trigger] out[i]), key(#[trigger] out[j])) by {
            if j < r.len() {
                assert(out[i] == r[i] && out[j] == r[j]);
            } else {
                assert(out[i] == r[i]);
            }
        }
    } else {
        lemma_text_lt_le(key(x), key(s.last()));
        let out = s.push(x);
        assert forall|i: int, j: int| 0 <= i < j < out.len() implies text_le(key(#[trigger] out[i]), key(#[trigger] out[j])) by {
            if j < s.len() {
                assert(out[i] == s[i] && out[j] == s[j]);
            } else if i < s.len() - 1 {
                assert(out[i] == s[i]);
                assert(text_le(key(s[i]), key(s[s.len() - 1])));
                lemma_text_le_transitive(key(s[i]), key(s.last()), key(x));
            } else {
                assert(out[i] == s.last());
            }
        }
    }
}

/// What `sort_by` gives is sorted, and as long as what it was given.
pub proof fn lemma_sort_sorted<A>(s: Seq<A>, key: spec_fn(A) -> Seq<char>)
    ensures
        sorted_by(sort_by(s, key), key),
        sort_by(s, key).len() == s.len(),
    decreases s.len(),
{
    if s.len() > 0 {
        lemma_sort_sorted(s.drop_last(), key);
        lemma_insert_sorted(sort_by(s.drop_last(), key), s.last(), key);
    }
}

} // verus!
