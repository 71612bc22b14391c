//! The derived graph: for each course, the courses that name it as a
//! prerequisite.

use crate::course::{Course, CourseView};
use crate::value::{vec_contains, Value};
use vstd::prelude::*;

verus! {

/// Whether course `j` names course `i` as a prerequisite; a course never
/// leads to itself.
pub open spec fn leads(courses: Seq<CourseView>, i: int, j: int) -> bool {
    j != i && courses[j].prerequisites.contains(courses[i].id)
}

/// The identifiers of the courses among the first `n` that course `i` leads
/// to, in corpus order.
pub open spec fn leading_to_within(courses: Seq<CourseView>, i: int, n: int) -> Seq<Seq<char>>
    decreases n,
{
    if n <= 0 {
        Seq::empty()
    } else if leads(courses, i, n - 1) {
        leading_to_within(courses, i, n - 1).push(courses[n - 1].id)
    } else {
        leading_to_within(courses, i, n - 1)
    }
}

/// The identifiers of all courses that course `i` leads to, in corpus order.
pub open spec fn leading_to(courses: Seq<CourseView>, i: int) -> Seq<Seq<char>> {
    leading_to_within(courses, i, courses.len() as int)
}

/// The corpus with every `leading_to` list recomputed from the prerequisite
/// lists; nothing else changes.
pub open spec fn with_graph(courses: Seq<CourseView>) -> Seq<CourseView> {
    Seq::new(
        courses.len(),
        |i: int| CourseView { leading_to: leading_to(courses, i), ..courses[i] },
    )
}

/// An identifier is in a derived list exactly when it belongs to another
/// course whose prerequisites name course `i`.
pub proof fn lemma_leading_to_contains(courses: Seq<CourseView>, i: int, n: int, x: Seq<char>)
    requires
        0 <= n <= courses.len(),
    ensures
        leading_to_within(courses, i, n).contains(x) <==> exists|j: int|
            0 <= j < n && #[trigger] leads(courses, i, j) && courses[j].id == x,
    decreases n,
{
    if n > 0 {
        lemma_leading_to_contains(courses, i, n - 1, x);
        let before = leading_to_within(courses, i, n - 1);
        if leads(courses, i, n - 1) {
            let after = before.push(courses[n - 1].id);
            assert(after[after.len() - 1] == courses[n - 1].id);
            if before.contains(x) {
                let k = choose|k: int| 0 <= k < before.len() && before[k] == x;
                assert(after[k] == x);
            }
            if after.contains(x) {
                let k = choose|k: int| 0 <= k < after.len() && after[k] == x;
                if k < before.len() {
                    assert(before[k] == x);
                }
            }
        }
    }
}

/// The derived lists depend only on identifiers and prerequisite lists, so
/// recomputing them a second time changes nothing.
pub proof fn lemma_with_graph_idempotent(courses: Seq<CourseView>)
    ensures
        with_graph(with_graph(courses)) == with_graph(courses),
{
    let once = with_graph(courses);
    assert forall|i: int| 0 <= i < courses.len() implies leading_to(once, i) == leading_to(
        courses,
        i,
    ) by {
        lemma_leading_to_same(courses, once, i, courses.len() as int);
    }
    assert(with_graph(once) =~= once);
}

/// Two corpora that agree on identifiers and prerequisites have the same
/// derived lists.
pub proof fn lemma_leading_to_same(a: Seq<CourseView>, b: Seq<CourseView>, i: int, n: int)
    requires
        a.len() == b.len(),
        0 <= i < a.len(),
        0 <= n <= a.len(),
        forall|k: int|
            0 <= k < a.len() ==> (#[trigger] a[k]).id == b[k].id && a[k].prerequisites
                == b[k].prerequisites,
    ensures
        leading_to_within(a, i, n) == leading_to_within(b, i, n),
    decreases n,
{
    if n > 0 {
        lemma_leading_to_same(a, b, i, n - 1);
        assert(a[n - 1].id == b[n - 1].id);
        assert(a[i].id == b[i].id);
    }
}

/// Computes the derived list of course `i`.
fn leading_to_list(courses: &Vec<Course>, i: usize) -> (r: Vec<String>)
    requires
        i < courses.len(),
    ensures
        r.deep_view() == leading_to(courses.deep_view(), i as int),
{
    let mut out: Vec<String> = Vec::new();
    let mut j: usize = 0;
    assert(out.deep_view() =~= Seq::empty());
    while j < courses.len()
        invariant
            i < courses.len(),
            j <= courses.len(),
            out.deep_view() == leading_to_within(courses.deep_view(), i as int, j as int),
        decreases courses.len() - j,
    {
        let ghost before = out.deep_view();
        assert(courses.deep_view()[j as int] == courses[j as int].deep_view());
        assert(courses.deep_view()[i as int] == courses[i as int].deep_view());
        if j != i && vec_contains(&courses[j].prerequisites, &courses[i].id) {
            out.push(courses[j].id.copy());
            assert(out.deep_view() =~= before.push(courses[j as int].id@));
        }
        j += 1;
    }
    out
}

/// Recomputes every `leading_to` list of the corpus from scratch.
///
/// All lists are first computed from the unchanged corpus and then applied,
/// so no list is read while another is written.
pub fn derive_leading_to(courses: &mut Vec<Course>)
    ensures
        final(courses).deep_view() == with_graph(old(courses).deep_view()),
{
    let ghost start = courses.deep_view();
    let mut out: Vec<Course> = Vec::new();
    let mut i: usize = 0;
    while i < courses.len()
        invariant
            i <= courses.len(),
            courses.deep_view() == start,
            out.len() == i,
            forall|k: int| 0 <= k < i ==> out[k].deep_view() == with_graph(start)[k],
        decreases courses.len() - i,
    {
        let list = leading_to_list(courses, i);
        let mut course = courses[i].copy();
        assert(courses.deep_view()[i as int] == courses[i as int].deep_view());
        course.leading_to = list;
        out.push(course);
        i += 1;
    }
    *courses = out;
    assert(courses.deep_view() =~= with_graph(start));
}

} // verus!
