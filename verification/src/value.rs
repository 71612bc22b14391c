//! Comparison and copying by content, and the order-preserving union of lists.

use vstd::prelude::*;

verus! {

/// A type whose values can be compared and copied by content.
///
/// Contracts throughout the crate speak of `deep_view()`, the mathematical
/// value; two values are "the same" when their deep views are equal.
pub trait Value: DeepView + Sized {
    /// Whether the two values have the same content.
    fn same(&self, other: &Self) -> (r: bool)
        ensures
            r == (self.deep_view() == other.deep_view()),
    ;

    /// A fresh value with the same content.
    fn copy(&self) -> (r: Self)
        ensures
            r.deep_view() == self.deep_view(),
    ;
}

impl Value for String {
    fn same(&self, other: &Self) -> (r: bool) {
        *self == *other
    }

    fn copy(&self) -> (r: Self) {
        self.clone()
    }
}

/// Compares two optional values by content.
pub fn opt_same<T: Value>(a: &Option<T>, b: &Option<T>) -> (r: bool)
    ensures
        r == (a.deep_view() == b.deep_view()),
{
    match a {
        Some(x) => match b {
            Some(y) => x.same(y),
            None => false,
        },
        None => b.is_none(),
    }
}

/// Copies an optional value.
pub fn opt_copy<T: Value>(a: &Option<T>) -> (r: Option<T>)
    ensures
        r.deep_view() == a.deep_view(),
{
    match a {
        Some(x) => Some(x.copy()),
        None => None,
    }
}

/// Compares two lists element by element.
pub fn vec_same<T: Value>(a: &Vec<T>, b: &Vec<T>) -> (r: bool)
    ensures
        r == (a.deep_view() == b.deep_view()),
{
    if a.len() != b.len() {
        assert(a.deep_view().len() != b.deep_view().len());
        return false;
    }
    let mut i: usize = 0;
    while i < a.len()
        invariant
            i <= a.len(),
            a.len() == b.len(),
            forall|k: int| 0 <= k < i ==> a[k].deep_view() == b[k].deep_view(),
        decreases a.len() - i,
    {
        if !a[i].same(&b[i]) {
            assert(a.deep_view()[i as int] != b.deep_view()[i as int]);
            return false;
        }
        i += 1;
    }
    assert(a.deep_view() =~= b.deep_view());
    true
}

/// Copies a list.
pub fn vec_copy<T: Value>(v: &Vec<T>) -> (r: Vec<T>)
    ensures
        r.deep_view() == v.deep_view(),
{
    let mut out: Vec<T> = Vec::new();
    let mut i: usize = 0;
    while i < v.len()
        invariant
            i <= v.len(),
            out.len() == i,
            forall|k: int| 0 <= k < i ==> out[k].deep_view() == v[k].deep_view(),
        decreases v.len() - i,
    {
        out.push(v[i].copy());
        i += 1;
    }
    assert(out.deep_view() =~= v.deep_view());
    out
}

/// Whether a value with the content of `needle` occurs in `list`.
pub fn vec_contains<T: Value>(list: &Vec<T>, needle: &T) -> (r: bool)
    ensures
        r == list.deep_view().contains(needle.deep_view()),
{
    let mut i: usize = 0;
    while i < list.len()
        invariant
            i <= list.len(),
            forall|k: int| 0 <= k < i ==> list[k].deep_view() != needle.deep_view(),
        decreases list.len() - i,
    {
        if list[i].same(needle) {
            assert(list.deep_view()[i as int] == needle.deep_view());
            return true;
        }
        i += 1;
    }
    assert(!list.deep_view().contains(needle.deep_view())) by {
        if list.deep_view().contains(needle.deep_view()) {
            let k = choose|k: int|
                0 <= k < list.deep_view().len() && list.deep_view()[k] == needle.deep_view();
            assert(list[k].deep_view() == needle.deep_view());
        }
    }
    false
}

impl<T: Value> Value for Option<T> {
    fn same(&self, other: &Self) -> (r: bool) {
        opt_same(self, other)
    }

    fn copy(&self) -> (r: Self) {
        opt_copy(self)
    }
}

impl<T: Value> Value for Vec<T> {
    fn same(&self, other: &Self) -> (r: bool) {
        vec_same(self, other)
    }

    fn copy(&self) -> (r: Self) {
        vec_copy(self)
    }
}

/// The union of two lists: `prior` in its own order, followed by each value
/// of `fresh` that has not occurred before, in order of first occurrence.
pub open spec fn union<A>(prior: Seq<A>, fresh: Seq<A>) -> Seq<A>
    decreases fresh.len(),
{
    if fresh.len() == 0 {
        prior
    } else {
        let before = union(prior, fresh.drop_last());
        if before.contains(fresh.last()) {
            before
        } else {
            before.push(fresh.last())
        }
    }
}

/// Unions `fresh` into `prior`: prior values keep their place and each new
/// value is appended once.
pub fn combine<T: Value>(prior: Vec<T>, fresh: Vec<T>) -> (r: Vec<T>)
    ensures
        r.deep_view() == union(prior.deep_view(), fresh.deep_view()),
{
    let ghost start = prior.deep_view();
    let mut out = prior;
    let mut i: usize = 0;
    while i < fresh.len()
        invariant
            i <= fresh.len(),
            out.deep_view() == union(start, fresh.deep_view().take(i as int)),
        decreases fresh.len() - i,
    {
        let ghost before = out.deep_view();
        let ghost upto = fresh.deep_view().take(i as int + 1);
        proof {
            assert(upto.drop_last() =~= fresh.deep_view().take(i as int));
            assert(upto.last() == fresh[i as int].deep_view());
        }
        if !vec_contains(&out, &fresh[i]) {
            out.push(fresh[i].copy());
            assert(out.deep_view() =~= before.push(fresh[i as int].deep_view()));
        }
        i += 1;
    }
    proof {
        assert(fresh.deep_view().take(fresh.len() as int) =~= fresh.deep_view());
    }
    out
}

/// Unions two optional lists: absent on both sides stays absent, otherwise an
/// absent side counts as empty.
pub open spec fn union_opt<A>(prior: Option<Seq<A>>, fresh: Option<Seq<A>>) -> Option<Seq<A>> {
    match (prior, fresh) {
        (None, None) => None,
        (Some(p), None) => Some(p),
        (None, Some(f)) => Some(union(Seq::empty(), f)),
        (Some(p), Some(f)) => Some(union(p, f)),
    }
}

/// Unions two optional lists, as [`union_opt`] describes.
pub fn combine_opt<T: Value>(prior: Option<Vec<T>>, fresh: Option<Vec<T>>) -> (r: Option<Vec<T>>)
    ensures
        r.deep_view() == union_opt(prior.deep_view(), fresh.deep_view()),
{
    match prior {
        Some(p) => match fresh {
            Some(f) => Some(combine(p, f)),
            None => Some(p),
        },
        None => match fresh {
            Some(f) => {
                let empty: Vec<T> = Vec::new();
                assert(empty.deep_view() =~= Seq::empty());
                Some(combine(empty, f))
            },
            None => None,
        },
    }
}

/// The union starts with the prior list, unchanged and in order.
pub proof fn lemma_union_keeps_prior<A>(prior: Seq<A>, fresh: Seq<A>)
    ensures
        prior.len() <= union(prior, fresh).len(),
        union(prior, fresh).take(prior.len() as int) == prior,
    decreases fresh.len(),
{
    if fresh.len() == 0 {
        assert(prior.take(prior.len() as int) =~= prior);
    } else {
        lemma_union_keeps_prior(prior, fresh.drop_last());
        let before = union(prior, fresh.drop_last());
        assert(before.push(fresh.last()).take(prior.len() as int) =~= before.take(
            prior.len() as int,
        ));
    }
}

/// A value is in the union exactly when it is in one of the two lists.
pub proof fn lemma_union_contains<A>(prior: Seq<A>, fresh: Seq<A>, x: A)
    ensures
        union(prior, fresh).contains(x) <==> prior.contains(x) || fresh.contains(x),
    decreases fresh.len(),
{
    if fresh.len() > 0 {
        let init = fresh.drop_last();
        let before = union(prior, init);
        lemma_union_contains(prior, init, x);
        if fresh.contains(x) {
            let k = choose|k: int| 0 <= k < fresh.len() && fresh[k] == x;
            if k < fresh.len() - 1 {
                assert(init[k] == x);
            }
        }
        if init.contains(x) {
            let k = choose|k: int| 0 <= k < init.len() && init[k] == x;
            assert(fresh[k] == x);
        }
        assert(fresh[fresh.len() - 1] == fresh.last());
        if !before.contains(fresh.last()) {
            let after = before.push(fresh.last());
            assert(after[after.len() - 1] == fresh.last());
            if before.contains(x) {
                let k = choose|k: int| 0 <= k < before.len() && before[k] == x;
                assert(after[k] == x);
            }
            if after.contains(x) {
                let k = choose|k: int| 0 <= k < after.len() && after[k] == x;
                if k < before.len() {
                    assert(before[k] == x);
                }
            }
        }
    }
}

/// The two orders of a union hold the same values.
pub proof fn lemma_union_same_content<A>(a: Seq<A>, b: Seq<A>)
    ensures
        union(a, b).to_set() == union(b, a).to_set(),
{
    assert forall|x: A| union(a, b).to_set().contains(x) == union(b, a).to_set().contains(x) by {
        lemma_union_contains(a, b, x);
        lemma_union_contains(b, a, x);
    }
    assert(union(a, b).to_set() =~= union(b, a).to_set());
}

/// Unioning with the empty list changes nothing.
pub proof fn lemma_union_empty<A>(prior: Seq<A>)
    ensures
        union(prior, Seq::<A>::empty()) == prior,
{
}

/// A list whose values all occur in `prior` adds nothing to it.
pub proof fn lemma_union_absorbs<A>(prior: Seq<A>, fresh: Seq<A>)
    requires
        forall|k: int| 0 <= k < fresh.len() ==> prior.contains(#[trigger] fresh[k]),
    ensures
        union(prior, fresh) == prior,
    decreases fresh.len(),
{
    if fresh.len() > 0 {
        let init = fresh.drop_last();
        assert forall|k: int| 0 <= k < init.len() implies prior.contains(#[trigger] init[k]) by {
            assert(init[k] == fresh[k]);
        }
        lemma_union_absorbs(prior, init);
        assert(fresh.last() == fresh[fresh.len() - 1]);
    }
}

/// A list unioned with itself is unchanged.
pub proof fn lemma_union_self<A>(list: Seq<A>)
    ensures
        union(list, list) == list,
{
    assert forall|k: int| 0 <= k < list.len() implies list.contains(#[trigger] list[k]) by {}
    lemma_union_absorbs(list, list);
}

/// Unioning the same list in a second time changes nothing.
pub proof fn lemma_union_idempotent<A>(prior: Seq<A>, fresh: Seq<A>)
    ensures
        union(union(prior, fresh), fresh) == union(prior, fresh),
{
    let u = union(prior, fresh);
    assert forall|k: int| 0 <= k < fresh.len() implies u.contains(#[trigger] fresh[k]) by {
        lemma_union_contains(prior, fresh, fresh[k]);
    }
    lemma_union_absorbs(u, fresh);
}

/// A union is no longer than its two lists together.
pub proof fn lemma_union_length<A>(prior: Seq<A>, fresh: Seq<A>)
    ensures
        union(prior, fresh).len() <= prior.len() + fresh.len(),
    decreases fresh.len(),
{
    if fresh.len() > 0 {
        lemma_union_length(prior, fresh.drop_last());
    }
}

/// A union adds no value twice: where `prior` has no duplicates, neither has
/// the union.
pub proof fn lemma_union_no_duplicates<A>(prior: Seq<A>, fresh: Seq<A>)
    requires
        prior.no_duplicates(),
    ensures
        union(prior, fresh).no_duplicates(),
    decreases fresh.len(),
{
    if fresh.len() > 0 {
        lemma_union_no_duplicates(prior, fresh.drop_last());
    }
}

} // verus!
