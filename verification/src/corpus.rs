//! Operations on the corpus of one crawl: collapsing duplicates, ordering by
//! identifier, and merging against a prior corpus.

use crate::course::{merged, Course, CourseView};
use crate::text::{lemma_text_le_total, str_le, text_le};
use crate::value::{combine, union, Value};
use vstd::prelude::*;

verus! {

/// Whether a record carries a title; records without one are parse noise.
pub open spec fn has_title(c: CourseView) -> bool {
    c.title.len() > 0
}

/// The records of `s` that carry a title, in order.
pub open spec fn titled(s: Seq<CourseView>) -> Seq<CourseView> {
    s.filter(|c: CourseView| has_title(c))
}

/// `s` with `c` placed behind the last record whose identifier does not come
/// after that of `c`.
pub open spec fn insert_by_id(s: Seq<CourseView>, c: CourseView) -> Seq<CourseView>
    decreases s.len(),
{
    if s.len() == 0 {
        seq![c]
    } else if text_le(s.last().id, c.id) {
        s.push(c)
    } else {
        insert_by_id(s.drop_last(), c).push(s.last())
    }
}

/// `s` ordered by identifier; records with equal identifiers keep their
/// relative order.
pub open spec fn sort_by_id(s: Seq<CourseView>) -> Seq<CourseView>
    decreases s.len(),
{
    if s.len() == 0 {
        s
    } else {
        insert_by_id(sort_by_id(s.drop_last()), s.last())
    }
}

/// Whether each record's identifier comes before or with that of the next.
pub open spec fn sorted_by_id(s: Seq<CourseView>) -> bool {
    forall|i: int| 0 <= i < s.len() - 1 ==> text_le(#[trigger] s[i].id, s[i + 1].id)
}

/// The corpus of one crawl: each distinct record once, in order of first
/// occurrence; then without the untitled records; then ordered by identifier.
pub open spec fn deduplicated(s: Seq<CourseView>) -> Seq<CourseView> {
    sort_by_id(titled(union(Seq::empty(), s)))
}

/// Inserting into an ordered corpus keeps it ordered, adds one record and
/// keeps all others.
pub proof fn lemma_insert_by_id(s: Seq<CourseView>, c: CourseView)
    requires
        sorted_by_id(s),
    ensures
        sorted_by_id(insert_by_id(s, c)),
        insert_by_id(s, c).len() == s.len() + 1,
        insert_by_id(s, c).to_multiset() == s.to_multiset().insert(c),
        insert_by_id(s, c).last() == c || (s.len() > 0 && insert_by_id(s, c).last() == s.last()),
    decreases s.len(),
{
    broadcast use vstd::seq_lib::group_to_multiset_ensures;

    let r = insert_by_id(s, c);
    if s.len() == 0 {
        assert(seq![c] =~= Seq::<CourseView>::empty().push(c));
        assert(s =~= Seq::<CourseView>::empty());
    } else if text_le(s.last().id, c.id) {
        assert forall|i: int| 0 <= i < r.len() - 1 implies text_le(#[trigger] r[i].id, r[i + 1].id) by {
            if i < s.len() - 1 {
                assert(text_le(s[i].id, s[i + 1].id));
            }
        }
    } else {
        let init = s.drop_last();
        assert forall|i: int| 0 <= i < init.len() - 1 implies text_le(
            #[trigger] init[i].id,
            init[i + 1].id,
        ) by {
            assert(text_le(s[i].id, s[i + 1].id));
        }
        lemma_insert_by_id(init, c);
        let mid = insert_by_id(init, c);
        lemma_text_le_total(s.last().id, c.id);
        assert forall|i: int| 0 <= i < r.len() - 1 implies text_le(#[trigger] r[i].id, r[i + 1].id) by {
            if i < mid.len() - 1 {
                assert(text_le(mid[i].id, mid[i + 1].id));
            } else {
                if mid.last() == c {
                } else {
                    assert(mid.last() == init.last());
                    assert(text_le(s[s.len() - 2].id, s[s.len() - 2 + 1].id));
                }
            }
        }
        assert(s =~= init.push(s.last()));
        assert(r.to_multiset() =~= s.to_multiset().insert(c));
    }
}

/// Ordering by identifier yields an ordered corpus with the same records,
/// each as often as before.
pub proof fn lemma_sort_by_id(s: Seq<CourseView>)
    ensures
        sorted_by_id(sort_by_id(s)),
        sort_by_id(s).len() == s.len(),
        sort_by_id(s).to_multiset() == s.to_multiset(),
    decreases s.len(),
{
    broadcast use vstd::seq_lib::group_to_multiset_ensures;

    if s.len() > 0 {
        lemma_sort_by_id(s.drop_last());
        lemma_insert_by_id(sort_by_id(s.drop_last()), s.last());
        assert(s =~= s.drop_last().push(s.last()));
    }
}

/// In an ordered corpus every record comes before or with every later one.
pub proof fn lemma_sorted_all_pairs(s: Seq<CourseView>, i: int, j: int)
    requires
        sorted_by_id(s),
        0 <= i <= j < s.len(),
    ensures
        text_le(s[i].id, s[j].id),
    decreases j - i,
{
    if i == j {
        crate::text::lemma_bytes_le_reflexive(vstd::utf8::encode_utf8(s[i].id), 0);
    } else {
        lemma_sorted_all_pairs(s, i, j - 1);
        assert(text_le(s[j - 1].id, s[j - 1 + 1].id));
        crate::text::lemma_text_le_transitive(s[i].id, s[j - 1].id, s[j].id);
    }
}

/// The corpus of a crawl is ordered by identifier, holds no untitled record
/// and no more records than were crawled.
pub proof fn lemma_deduplicated(s: Seq<CourseView>)
    ensures
        sorted_by_id(deduplicated(s)),
        deduplicated(s).len() <= s.len(),
        forall|k: int|
            0 <= k < deduplicated(s).len() ==> has_title(#[trigger] deduplicated(s)[k]) && s.contains(
                deduplicated(s)[k],
            ),
        deduplicated(s).no_duplicates(),
{
    broadcast use vstd::seq_lib::group_to_multiset_ensures;

    let distinct = union(Seq::<CourseView>::empty(), s);
    let kept = titled(distinct);
    let out = deduplicated(s);
    lemma_sort_by_id(kept);
    lemma_titled(distinct);
    crate::value::lemma_union_length(Seq::<CourseView>::empty(), s);
    crate::value::lemma_union_no_duplicates(Seq::<CourseView>::empty(), s);
    assert forall|k: int| 0 <= k < out.len() implies has_title(#[trigger] out[k]) && s.contains(
        out[k],
    ) by {
        assert(out.to_multiset().count(out[k]) > 0);
        assert(kept.to_multiset().count(out[k]) > 0);
        assert(kept.contains(out[k]));
        let m = choose|m: int| 0 <= m < kept.len() && kept[m] == out[k];
        assert(has_title(kept[m]) && distinct.contains(kept[m]));
        crate::value::lemma_union_contains(Seq::<CourseView>::empty(), s, out[k]);
    }
    assert(out.no_duplicates()) by {
        kept.lemma_multiset_has_no_duplicates();
        assert forall|x: CourseView| out.to_multiset().count(x) <= 1 by {
            assert(kept.to_multiset().count(x) <= 1);
        }
        out.lemma_multiset_has_no_duplicates_conv();
    }
}

/// Dropping the untitled records keeps the others in order, each one
/// titled and from the list, and keeps a list without duplicates so.
pub proof fn lemma_titled(s: Seq<CourseView>)
    ensures
        titled(s).len() <= s.len(),
        forall|k: int|
            0 <= k < titled(s).len() ==> has_title(#[trigger] titled(s)[k]) && s.contains(
                titled(s)[k],
            ),
        s.no_duplicates() ==> titled(s).no_duplicates(),
    decreases s.len(),
{
    reveal(Seq::filter);
    if s.len() > 0 {
        let init = s.drop_last();
        lemma_titled(init);
        let t = titled(s);
        assert forall|k: int| 0 <= k < t.len() implies has_title(#[trigger] t[k]) && s.contains(
            t[k],
        ) by {
            if k < titled(init).len() {
                assert(titled(init)[k] == t[k]);
                let m = choose|m: int| 0 <= m < init.len() && init[m] == t[k];
                assert(s[m] == t[k]);
            } else {
                assert(t[k] == s[s.len() - 1]);
            }
        }
        if s.no_duplicates() {
            assert forall|a: int, b: int| 0 <= a < init.len() && 0 <= b < init.len() && a
                != b implies init[a] != init[b] by {
                assert(init[a] == s[a] && init[b] == s[b]);
            }
            assert(init.no_duplicates());
            if has_title(s.last()) {
                assert forall|a: int, b: int| 0 <= a < t.len() && 0 <= b < t.len() && a
                    != b implies t[a] != t[b] by {
                    if a < titled(init).len() && b < titled(init).len() {
                        assert(titled(init)[a] != titled(init)[b]);
                    } else {
                        let inner = if a < b { a } else { b };
                        assert(titled(init)[inner] == t[inner]);
                        let m = choose|m: int| 0 <= m < init.len() && init[m] == titled(init)[inner];
                        assert(s[m] == t[inner]);
                        assert(s[m] != s[s.len() - 1]);
                    }
                }
            }
        }
    }
}

/// Places `c` into the ordered list `v`.
fn insert_sorted(v: &mut Vec<Course>, c: Course)
    ensures
        final(v).deep_view() == insert_by_id(old(v).deep_view(), c.deep_view()),
{
    let ghost start = v.deep_view();
    let ghost cv = c.deep_view();
    let mut k: usize = v.len();
    proof {
        assert(start.take(k as int) =~= start);
        assert(start.skip(k as int) =~= Seq::empty());
        assert(insert_by_id(start, cv) + Seq::<CourseView>::empty() =~= insert_by_id(start, cv));
    }
    while k > 0 && !str_le(v[k - 1].id.as_str(), c.id.as_str())
        invariant
            k <= v.len(),
            v.deep_view() == start,
            cv == c.deep_view(),
            insert_by_id(start, cv) == insert_by_id(start.take(k as int), cv) + start.skip(
                k as int,
            ),
        decreases k,
    {
        proof {
            let cur = start.take(k as int);
            assert(cur.last() == start[k - 1]);
            assert(start[k - 1] == v[k - 1].deep_view());
            assert(cur.drop_last() =~= start.take(k - 1));
            assert(insert_by_id(cur, cv) == insert_by_id(start.take(k - 1), cv).push(start[k - 1]));
            assert(insert_by_id(start.take(k - 1), cv).push(start[k - 1]) + start.skip(k as int)
                =~= insert_by_id(start.take(k - 1), cv) + start.skip(k - 1));
        }
        k -= 1;
    }
    proof {
        let cur = start.take(k as int);
        if k > 0 {
            assert(cur.last() == start[k - 1]);
            assert(start[k - 1] == v[k - 1].deep_view());
        }
        assert(insert_by_id(cur, cv) =~= cur.push(cv));
    }
    v.insert(k, c);
    assert(v.deep_view() =~= start.take(k as int).push(cv) + start.skip(k as int));
}

/// Orders a corpus by identifier; records with equal identifiers keep their
/// relative order.
pub fn sort_courses(courses: Vec<Course>) -> (r: Vec<Course>)
    ensures
        r.deep_view() == sort_by_id(courses.deep_view()),
{
    let mut out: Vec<Course> = Vec::new();
    let mut i: usize = 0;
    assert(out.deep_view() =~= Seq::empty());
    assert(courses.deep_view().take(0) =~= Seq::empty());
    while i < courses.len()
        invariant
            i <= courses.len(),
            out.deep_view() == sort_by_id(courses.deep_view().take(i as int)),
        decreases courses.len() - i,
    {
        proof {
            let upto = courses.deep_view().take(i as int + 1);
            assert(upto.drop_last() =~= courses.deep_view().take(i as int));
            assert(upto.last() == courses[i as int].deep_view());
        }
        insert_sorted(&mut out, courses[i].copy());
        i += 1;
    }
    assert(courses.deep_view().take(courses.len() as int) =~= courses.deep_view());
    out
}

/// Drops the records without a title.
pub fn drop_untitled(courses: Vec<Course>) -> (r: Vec<Course>)
    ensures
        r.deep_view() == titled(courses.deep_view()),
{
    let mut out: Vec<Course> = Vec::new();
    let mut i: usize = 0;
    proof {
        reveal(Seq::filter);
        assert(out.deep_view() =~= Seq::empty());
        assert(courses.deep_view().take(0) =~= Seq::empty());
    }
    while i < courses.len()
        invariant
            i <= courses.len(),
            out.deep_view() == titled(courses.deep_view().take(i as int)),
        decreases courses.len() - i,
    {
        let ghost before = out.deep_view();
        proof {
            reveal(Seq::filter);
            let upto = courses.deep_view().take(i as int + 1);
            assert(upto.drop_last() =~= courses.deep_view().take(i as int));
            assert(upto.last() == courses[i as int].deep_view());
        }
        if !courses[i].title.as_str().is_empty() {
            out.push(courses[i].copy());
            assert(out.deep_view() =~= before.push(courses[i as int].deep_view()));
        }
        i += 1;
    }
    assert(courses.deep_view().take(courses.len() as int) =~= courses.deep_view());
    out
}

/// Turns the raw records of one crawl into its corpus: identical records
/// collapse into one, untitled records are dropped, and the rest is ordered
/// by identifier.
///
/// Records that share an identifier but differ in some field all stay, in
/// the order in which the crawl first produced them.
pub fn deduplicate(courses: Vec<Course>) -> (r: Vec<Course>)
    ensures
        r.deep_view() == deduplicated(courses.deep_view()),
{
    let empty: Vec<Course> = Vec::new();
    assert(empty.deep_view() =~= Seq::empty());
    sort_courses(drop_untitled(combine(empty, courses)))
}

/// The position of the first record at or after `from` with identifier `id`,
/// or the length of `s` where there is none.
pub open spec fn first_with_id(s: Seq<CourseView>, id: Seq<char>, from: int) -> int
    decreases s.len() - from,
{
    if from >= s.len() {
        s.len() as int
    } else if s[from].id == id {
        from
    } else {
        first_with_id(s, id, from + 1)
    }
}

/// Whether some record of `s` has identifier `id`.
pub open spec fn has_id(s: Seq<CourseView>, id: Seq<char>) -> bool {
    exists|k: int| 0 <= k < s.len() && (#[trigger] s[k]).id == id
}

/// `first_with_id` finds the first record with the identifier, and fails
/// only where no record has it.
pub proof fn lemma_first_with_id(s: Seq<CourseView>, id: Seq<char>, from: int)
    requires
        0 <= from <= s.len(),
    ensures
        from <= first_with_id(s, id, from) <= s.len(),
        first_with_id(s, id, from) < s.len() ==> s[first_with_id(s, id, from)].id == id,
        forall|j: int| from <= j < first_with_id(s, id, from) ==> (#[trigger] s[j]).id != id,
        from == 0 ==> (has_id(s, id) <==> first_with_id(s, id, 0) < s.len()),
    decreases s.len() - from,
{
    if from < s.len() && s[from].id != id {
        lemma_first_with_id(s, id, from + 1);
    }
}

/// Finds the first record with identifier `id`; the result is the length of
/// the list where there is none.
pub fn find_course(courses: &Vec<Course>, id: &str) -> (k: usize)
    ensures
        k == first_with_id(courses.deep_view(), id@, 0),
        k <= courses.len(),
{
    let mut i: usize = 0;
    while i < courses.len()
        invariant
            i <= courses.len(),
            first_with_id(courses.deep_view(), id@, 0) == first_with_id(
                courses.deep_view(),
                id@,
                i as int,
            ),
        decreases courses.len() - i,
    {
        assert(courses.deep_view()[i as int] == courses[i as int].deep_view());
        if crate::text::str_eq(courses[i].id.as_str(), id) {
            return i;
        }
        i += 1;
    }
    i
}

/// One fresh record against a prior corpus: merged into the first prior
/// record with its identifier, or unchanged where there is none.
pub open spec fn merged_with(prior: Seq<CourseView>, c: CourseView) -> CourseView {
    let k = first_with_id(prior, c.id, 0);
    if k < prior.len() {
        merged(prior[k], c)
    } else {
        c
    }
}

/// A fresh corpus against a prior one, record by record.
pub open spec fn merged_corpus(fresh: Seq<CourseView>, prior: Seq<CourseView>) -> Seq<CourseView> {
    Seq::new(fresh.len(), |i: int| merged_with(prior, fresh[i]))
}

/// Merges each fresh record into the prior record with the same identifier;
/// a record without a prior match passes through unchanged.
pub fn merge_with_prior(fresh: &Vec<Course>, prior: &Vec<Course>) -> (r: Vec<Course>)
    ensures
        r.deep_view() == merged_corpus(fresh.deep_view(), prior.deep_view()),
{
    let mut out: Vec<Course> = Vec::new();
    let mut i: usize = 0;
    while i < fresh.len()
        invariant
            i <= fresh.len(),
            out.len() == i,
            forall|k: int|
                0 <= k < i ==> out[k].deep_view() == merged_with(
                    prior.deep_view(),
                    fresh[k].deep_view(),
                ),
        decreases fresh.len() - i,
    {
        let k = find_course(prior, fresh[i].id.as_str());
        if k < prior.len() {
            assert(prior.deep_view()[k as int] == prior[k as int].deep_view());
            out.push(prior[k].copy().merge(fresh[i].copy()));
        } else {
            out.push(fresh[i].copy());
        }
        i += 1;
    }
    assert(out.deep_view() =~= merged_corpus(fresh.deep_view(), prior.deep_view()));
    out
}

} // verus!
