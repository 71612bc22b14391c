//! The store: a collection of courses keyed by identifier and a collection
//! of reviews keyed by course and user, with the rules by which seeding
//! reconciles fresh records against stored ones.

use crate::corpus::{find_course, first_with_id, has_id, lemma_first_with_id};
use crate::course::{Course, CourseView};
use crate::review::{review_of, Review, ReviewView};
use crate::value::{combine, combine_opt, union, union_opt, Value};
use vstd::prelude::*;

verus! {

/// What seeding makes of a stored record when a fresh record has the same
/// identifier: requirements, credits, description, restrictions and the two
/// URLs are overwritten, the three history lists are unioned, and everything
/// else stays as stored.
pub open spec fn updated(stored: CourseView, fresh: CourseView) -> CourseView {
    CourseView {
        corequisites: fresh.corequisites,
        credits: fresh.credits,
        description: fresh.description,
        faculty_url: fresh.faculty_url,
        instructors: union(stored.instructors, fresh.instructors),
        prerequisites: fresh.prerequisites,
        restrictions: fresh.restrictions,
        schedule: union_opt(stored.schedule, fresh.schedule),
        terms: union(stored.terms, fresh.terms),
        url: fresh.url,
        ..stored
    }
}

/// The stored courses after one record is seeded: the record with its
/// identifier is updated, or the record is appended where there is none.
pub open spec fn seed_one(store: Seq<CourseView>, c: CourseView) -> Seq<CourseView> {
    let k = first_with_id(store, c.id, 0);
    if k < store.len() {
        store.update(k, updated(store[k], c))
    } else {
        store.push(c)
    }
}

/// The stored courses after a list of records is seeded, one after the other.
pub open spec fn seeded(store: Seq<CourseView>, records: Seq<CourseView>) -> Seq<CourseView>
    decreases records.len(),
{
    if records.len() == 0 {
        store
    } else {
        seed_one(seeded(store, records.drop_last()), records.last())
    }
}

/// Whether no two courses share an identifier.
pub open spec fn unique_ids(s: Seq<CourseView>) -> bool {
    forall|i: int, j: int|
        0 <= i < s.len() && 0 <= j < s.len() && i != j ==> (#[trigger] s[i]).id != (
        #[trigger] s[j]).id
}

/// Whether no two reviews share both course and user.
pub open spec fn unique_reviews(s: Seq<ReviewView>) -> bool {
    forall|i: int, j: int|
        0 <= i < s.len() && 0 <= j < s.len() && i != j ==> !review_of(
            #[trigger] s[i],
            (#[trigger] s[j]).course_id,
            s[j].user_id,
        )
}

/// Seeding one record keeps identifiers unique.
pub proof fn lemma_seed_one_unique(store: Seq<CourseView>, c: CourseView)
    requires
        unique_ids(store),
    ensures
        unique_ids(seed_one(store, c)),
{
    lemma_first_with_id(store, c.id, 0);
    let k = first_with_id(store, c.id, 0);
    let next = seed_one(store, c);
    assert forall|i: int, j: int|
        0 <= i < next.len() && 0 <= j < next.len() && i != j implies (#[trigger] next[i]).id != (
    #[trigger] next[j]).id by {
        if k < store.len() {
            assert(next[i].id == store[i].id);
            assert(next[j].id == store[j].id);
        } else {
            if i < store.len() && j < store.len() {
                assert(next[i].id == store[i].id);
                assert(next[j].id == store[j].id);
            } else if i < store.len() {
                assert(store[i].id != c.id);
            } else {
                assert(store[j].id != c.id);
            }
        }
    }
}

/// Seeding keeps identifiers unique.
pub proof fn lemma_seeded_unique(store: Seq<CourseView>, records: Seq<CourseView>)
    requires
        unique_ids(store),
    ensures
        unique_ids(seeded(store, records)),
    decreases records.len(),
{
    if records.len() > 0 {
        lemma_seeded_unique(store, records.drop_last());
        lemma_seed_one_unique(seeded(store, records.drop_last()), records.last());
    }
}

/// Records that all carry one identifier end up as a single stored course,
/// however many they are.
pub proof fn lemma_seeded_same_id(records: Seq<CourseView>, id: Seq<char>)
    requires
        records.len() > 0,
        forall|i: int| 0 <= i < records.len() ==> (#[trigger] records[i]).id == id,
    ensures
        seeded(Seq::empty(), records).len() == 1,
        seeded(Seq::empty(), records)[0].id == id,
    decreases records.len(),
{
    let init = records.drop_last();
    if init.len() == 0 {
        assert(seeded(Seq::<CourseView>::empty(), init) =~= Seq::empty());
    } else {
        assert forall|i: int| 0 <= i < init.len() implies (#[trigger] init[i]).id == id by {
            assert(init[i] == records[i]);
        }
        lemma_seeded_same_id(init, id);
        let before = seeded(Seq::<CourseView>::empty(), init);
        assert(records.last() == records[records.len() - 1]);
        assert(first_with_id(before, id, 0) == 0);
    }
}

/// What the store is to do with one fresh record.
#[derive(Clone, Debug, PartialEq, Eq)]
pub enum SeedAction {
    /// No record with the identifier is stored: store this one as it is.
    Insert(Course),
    /// A record with the identifier is stored: replace it by this one.
    Update(Course),
}

/// Brings a stored record up to date with a fresh one, as [`updated`] says.
pub fn update_course(stored: Course, fresh: Course) -> (r: Course)
    ensures
        r.deep_view() == updated(stored.deep_view(), fresh.deep_view()),
{
    Course {
        corequisites: fresh.corequisites,
        credits: fresh.credits,
        description: fresh.description,
        faculty_url: fresh.faculty_url,
        instructors: combine(stored.instructors, fresh.instructors),
        prerequisites: fresh.prerequisites,
        restrictions: fresh.restrictions,
        schedule: combine_opt(stored.schedule, fresh.schedule),
        terms: combine(stored.terms, fresh.terms),
        url: fresh.url,
        id: stored.id,
        title: stored.title,
        subject: stored.subject,
        code: stored.code,
        level: stored.level,
        department: stored.department,
        faculty: stored.faculty,
        prerequisites_text: stored.prerequisites_text,
        corequisites_text: stored.corequisites_text,
        leading_to: stored.leading_to,
        logical_prerequisites: stored.logical_prerequisites,
        logical_corequisites: stored.logical_corequisites,
    }
}

/// Decides what seeding does with a fresh record, given the stored record
/// with its identifier, if there is one.
pub fn seed_action(found: Option<Course>, fresh: Course) -> (r: SeedAction)
    ensures
        match found {
            Some(stored) => r matches SeedAction::Update(c) && c.deep_view() == updated(
                stored.deep_view(),
                fresh.deep_view(),
            ),
            None => r matches SeedAction::Insert(c) && c.deep_view() == fresh.deep_view(),
        },
{
    match found {
        Some(stored) => SeedAction::Update(update_course(stored, fresh)),
        None => SeedAction::Insert(fresh),
    }
}

/// A field of a course that the full-text index covers.
#[derive(Clone, Copy, Debug, PartialEq, Eq)]
pub enum IndexField {
    Subject,
    Code,
    Id,
    Title,
    Description,
}

/// The weight of a field in the full-text index: subject and code weigh
/// most, then the identifier, then the title, and the description least.
pub open spec fn weight_of(field: IndexField) -> u32 {
    match field {
        IndexField::Subject => 4,
        IndexField::Code => 4,
        IndexField::Id => 3,
        IndexField::Title => 2,
        IndexField::Description => 1,
    }
}

/// The weight of a field in the full-text index.
pub fn index_weight(field: IndexField) -> (r: u32)
    ensures
        r == weight_of(field),
{
    match field {
        IndexField::Subject => 4,
        IndexField::Code => 4,
        IndexField::Id => 3,
        IndexField::Title => 2,
        IndexField::Description => 1,
    }
}

/// The full-text index over the courses: its fields, each with its weight.
pub open spec fn weighted_index() -> Seq<(IndexField, u32)> {
    seq![
        (IndexField::Subject, 4u32),
        (IndexField::Code, 4u32),
        (IndexField::Id, 3u32),
        (IndexField::Title, 2u32),
        (IndexField::Description, 1u32),
    ]
}

/// The fields of the full-text index, each with its weight. The index is
/// the same however often it is built.
pub fn course_index() -> (r: Vec<(IndexField, u32)>)
    ensures
        r@ == weighted_index(),
        forall|k: int| 0 <= k < r.len() ==> (#[trigger] r[k]).1 == weight_of(r[k].0),
{
    let mut out: Vec<(IndexField, u32)> = Vec::new();
    out.push((IndexField::Subject, index_weight(IndexField::Subject)));
    out.push((IndexField::Code, index_weight(IndexField::Code)));
    out.push((IndexField::Id, index_weight(IndexField::Id)));
    out.push((IndexField::Title, index_weight(IndexField::Title)));
    out.push((IndexField::Description, index_weight(IndexField::Description)));
    assert(out@ =~= weighted_index());
    out
}

/// Identifier, subject and code outweigh the title, and every field
/// outweighs or equals the description.
pub proof fn lemma_index_weights(field: IndexField)
    ensures
        weight_of(IndexField::Description) <= weight_of(field),
        weight_of(IndexField::Title) < weight_of(IndexField::Id),
        weight_of(IndexField::Id) < weight_of(IndexField::Subject),
        weight_of(IndexField::Subject) == weight_of(IndexField::Code),
        field != IndexField::Description ==> weight_of(IndexField::Description) < weight_of(field),
{
}

/// Decides whether a review may be added, given the stored review of the
/// same course by the same user, if there is one: a second review is
/// rejected.
pub fn admit_review(found: &Option<Review>) -> (r: Result<(), DbError>)
    ensures
        r == if found is Some {
            Err::<(), DbError>(DbError::DuplicateReview)
        } else {
            Ok::<(), DbError>(())
        },
{
    if found.is_some() {
        Err(DbError::DuplicateReview)
    } else {
        Ok(())
    }
}

/// An in-memory store of courses and reviews.
///
/// No two stored courses share an identifier, and no two stored reviews
/// share both course and user.
#[derive(Clone, Debug)]
pub struct Db {
    courses: Vec<Course>,
    reviews: Vec<Review>,
    index: Vec<(IndexField, u32)>,
}

/// Why the store refused a record.
#[derive(Clone, Copy, Debug, PartialEq, Eq)]
pub enum DbError {
    /// A course with the identifier is already stored.
    DuplicateCourse,
    /// The user has already reviewed the course.
    DuplicateReview,
}

impl DbError {
    /// A message for the error, fit for a log or a terminal.
    pub fn message(&self) -> (r: &'static str)
        ensures
            r@ == match self {
                DbError::DuplicateCourse => "A course with this identifier is already stored"@,
                DbError::DuplicateReview => "Cannot review this course twice"@,
            },
    {
        match self {
            DbError::DuplicateCourse => "A course with this identifier is already stored",
            DbError::DuplicateReview => "Cannot review this course twice",
        }
    }
}

/// How many reviews an update matched and how many it changed.
#[derive(Clone, Copy, Debug, PartialEq, Eq)]
pub struct UpdateResult {
    pub matched_count: u64,
    pub modified_count: u64,
}

/// How many reviews a deletion removed.
#[derive(Clone, Copy, Debug, PartialEq, Eq)]
pub struct DeleteResult {
    pub deleted_count: u64,
}

/// The part of a listing that a limit and an offset select: the first
/// `offset` records are skipped, then at most `|limit|` records follow; a
/// limit of zero, like an absent one, bounds nothing.
pub open spec fn window<A>(s: Seq<A>, limit: Option<i64>, offset: Option<u64>) -> Seq<A> {
    let from = match offset {
        Some(o) => if o < s.len() { o as int } else { s.len() as int },
        None => 0,
    };
    let rest = s.len() - from;
    let count = match limit {
        Some(l) => if l == 0 {
            rest
        } else if l < 0 {
            if -l < rest {
                -l
            } else {
                rest
            }
        } else if l < rest {
            l as int
        } else {
            rest
        },
        None => rest,
    };
    s.subrange(from, from + count)
}

/// The position of the first review at or after `from` of the given course
/// and user, or the length of `s` where there is none.
pub open spec fn first_review_of(
    s: Seq<ReviewView>,
    course_id: Seq<char>,
    user_id: Seq<char>,
    from: int,
) -> int
    decreases s.len() - from,
{
    if from >= s.len() {
        s.len() as int
    } else if review_of(s[from], course_id, user_id) {
        from
    } else {
        first_review_of(s, course_id, user_id, from + 1)
    }
}

/// Whether the user has a stored review of the course.
pub open spec fn has_review(s: Seq<ReviewView>, course_id: Seq<char>, user_id: Seq<char>) -> bool {
    exists|k: int| 0 <= k < s.len() && review_of(#[trigger] s[k], course_id, user_id)
}

/// `first_review_of` finds the first review of the course and user, and
/// fails only where there is none.
pub proof fn lemma_first_review_of(
    s: Seq<ReviewView>,
    course_id: Seq<char>,
    user_id: Seq<char>,
    from: int,
)
    requires
        0 <= from <= s.len(),
    ensures
        from <= first_review_of(s, course_id, user_id, from) <= s.len(),
        first_review_of(s, course_id, user_id, from) < s.len() ==> review_of(
            s[first_review_of(s, course_id, user_id, from)],
            course_id,
            user_id,
        ),
        forall|j: int|
            from <= j < first_review_of(s, course_id, user_id, from) ==> !review_of(
                #[trigger] s[j],
                course_id,
                user_id,
            ),
        from == 0 ==> (has_review(s, course_id, user_id) <==> first_review_of(
            s,
            course_id,
            user_id,
            0,
        ) < s.len()),
    decreases s.len() - from,
{
    if from < s.len() && !review_of(s[from], course_id, user_id) {
        lemma_first_review_of(s, course_id, user_id, from + 1);
    }
}

/// The stored reviews after an attempt to add `r`: unchanged where the user
/// has already reviewed the course, else with `r` at the end.
pub open spec fn after_add(s: Seq<ReviewView>, r: ReviewView) -> Seq<ReviewView> {
    if has_review(s, r.course_id, r.user_id) {
        s
    } else {
        s.push(r)
    }
}

/// A review with the content, instructor, rating and timestamp of `r`, and
/// the course and user of `stored`.
pub open spec fn revised(stored: ReviewView, r: ReviewView) -> ReviewView {
    ReviewView {
        content: r.content,
        instructor: r.instructor,
        rating: r.rating,
        timestamp: r.timestamp,
        ..stored
    }
}

/// The stored reviews after `r` updates the review of its course and user,
/// if there is one.
pub open spec fn after_update(s: Seq<ReviewView>, r: ReviewView) -> Seq<ReviewView> {
    let k = first_review_of(s, r.course_id, r.user_id, 0);
    if k < s.len() {
        s.update(k, revised(s[k], r))
    } else {
        s
    }
}

/// The stored reviews after the review of the course and user is deleted,
/// if there is one.
pub open spec fn after_delete(
    s: Seq<ReviewView>,
    course_id: Seq<char>,
    user_id: Seq<char>,
) -> Seq<ReviewView> {
    let k = first_review_of(s, course_id, user_id, 0);
    if k < s.len() {
        s.remove(k)
    } else {
        s
    }
}

/// The reviews of one course, in stored order.
pub open spec fn reviews_of_course(s: Seq<ReviewView>, course_id: Seq<char>) -> Seq<ReviewView> {
    s.filter(|r: ReviewView| r.course_id == course_id)
}

/// The reviews by one user, in stored order.
pub open spec fn reviews_of_user(s: Seq<ReviewView>, user_id: Seq<char>) -> Seq<ReviewView> {
    s.filter(|r: ReviewView| r.user_id == user_id)
}

/// A second review by the same user of the same course is rejected and
/// leaves the stored reviews, the first one among them, as they were.
pub proof fn lemma_second_review_rejected(s: Seq<ReviewView>, first: ReviewView, second: ReviewView)
    requires
        review_of(second, first.course_id, first.user_id),
    ensures
        has_review(after_add(s, first), second.course_id, second.user_id),
        after_add(after_add(s, first), second) == after_add(s, first),
{
    let once = after_add(s, first);
    if has_review(s, first.course_id, first.user_id) {
    } else {
        assert(review_of(once[once.len() - 1], second.course_id, second.user_id));
    }
}

/// Adding, updating and deleting reviews keep the (course, user) pairs
/// unique.
pub proof fn lemma_reviews_stay_unique(s: Seq<ReviewView>, r: ReviewView)
    requires
        unique_reviews(s),
    ensures
        unique_reviews(after_add(s, r)),
        unique_reviews(after_update(s, r)),
        unique_reviews(after_delete(s, r.course_id, r.user_id)),
{
    lemma_first_review_of(s, r.course_id, r.user_id, 0);
    let k = first_review_of(s, r.course_id, r.user_id, 0);
    let a = after_add(s, r);
    assert forall|i: int, j: int| 0 <= i < a.len() && 0 <= j < a.len() && i != j implies !review_of(
        #[trigger] a[i],
        (#[trigger] a[j]).course_id,
        a[j].user_id,
    ) by {
        if !has_review(s, r.course_id, r.user_id) {
            if i < s.len() && j < s.len() {
                assert(!review_of(s[i], s[j].course_id, s[j].user_id));
            } else if i < s.len() {
                assert(!review_of(s[i], r.course_id, r.user_id));
            } else {
                assert(!review_of(s[j], r.course_id, r.user_id));
            }
        }
    }
    let u = after_update(s, r);
    assert forall|i: int, j: int| 0 <= i < u.len() && 0 <= j < u.len() && i != j implies !review_of(
        #[trigger] u[i],
        (#[trigger] u[j]).course_id,
        u[j].user_id,
    ) by {
        assert(!review_of(s[i], s[j].course_id, s[j].user_id));
    }
    let d = after_delete(s, r.course_id, r.user_id);
    assert forall|i: int, j: int| 0 <= i < d.len() && 0 <= j < d.len() && i != j implies !review_of(
        #[trigger] d[i],
        (#[trigger] d[j]).course_id,
        d[j].user_id,
    ) by {
        if k < s.len() {
            let si = if i < k { i } else { i + 1 };
            let sj = if j < k { j } else { j + 1 };
            assert(d[i] == s[si]);
            assert(d[j] == s[sj]);
            assert(!review_of(s[si], s[sj].course_id, s[sj].user_id));
        }
    }
}

impl Db {
    /// Whether the store is well formed: identifiers are unique, and so are
    /// the (course, user) pairs of the reviews.
    pub closed spec fn wf(&self) -> bool {
        unique_ids(self.courses.deep_view()) && unique_reviews(self.reviews.deep_view())
    }

    /// What well-formedness means for the stored collections.
    pub proof fn lemma_wf(self)
        ensures
            self.wf() <==> unique_ids(self.stored_courses()) && unique_reviews(
                self.stored_reviews(),
            ),
    {
    }

    /// The stored courses, in the order in which they were first stored.
    pub closed spec fn stored_courses(&self) -> Seq<CourseView> {
        self.courses.deep_view()
    }

    /// The stored reviews, in the order in which they were added.
    pub closed spec fn stored_reviews(&self) -> Seq<ReviewView> {
        self.reviews.deep_view()
    }

    /// The full-text index over the courses, by its fields and weights; it
    /// is empty until the store is first seeded.
    pub closed spec fn index(&self) -> Seq<(IndexField, u32)> {
        self.index@
    }

    /// The empty store.
    pub fn new() -> (db: Db)
        ensures
            db.wf(),
            db.stored_courses() == Seq::<CourseView>::empty(),
            db.stored_reviews() == Seq::<ReviewView>::empty(),
            db.index() == Seq::<(IndexField, u32)>::empty(),
    {
        let courses: Vec<Course> = Vec::new();
        let reviews: Vec<Review> = Vec::new();
        assert(courses.deep_view() =~= Seq::empty());
        assert(reviews.deep_view() =~= Seq::empty());
        Db { courses, reviews, index: Vec::new() }
    }

    /// Seeds the records one after the other: a record whose identifier is
    /// stored updates that course, any other record is stored as it is.
    /// Then the full-text index is built anew, the same each time.
    pub fn seed(&mut self, records: Vec<Course>)
        requires
            old(self).wf(),
        ensures
            final(self).wf(),
            final(self).stored_courses() == seeded(old(self).stored_courses(), records.deep_view()),
            final(self).stored_reviews() == old(self).stored_reviews(),
            final(self).index() == weighted_index(),
    {
        let ghost start = self.courses.deep_view();
        let mut i: usize = 0;
        assert(records.deep_view().take(0) =~= Seq::empty());
        while i < records.len()
            invariant
                i <= records.len(),
                self.reviews == old(self).reviews,
                self.wf(),
                self.courses.deep_view() == seeded(start, records.deep_view().take(i as int)),
            decreases records.len() - i,
        {
            proof {
                let upto = records.deep_view().take(i as int + 1);
                assert(upto.drop_last() =~= records.deep_view().take(i as int));
                assert(upto.last() == records[i as int].deep_view());
                lemma_seed_one_unique(self.courses.deep_view(), records[i as int].deep_view());
            }
            let ghost before = self.courses.deep_view();
            let k = find_course(&self.courses, &records[i].id);
            if k < self.courses.len() {
                assert(before[k as int] == self.courses[k as int].deep_view());
                let next = update_course(self.courses[k].copy(), records[i].copy());
                self.courses.set(k, next);
                assert(self.courses.deep_view() =~= before.update(k as int, next.deep_view()));
            } else {
                self.courses.push(records[i].copy());
                assert(self.courses.deep_view() =~= before.push(records[i as int].deep_view()));
            }
            i += 1;
        }
        assert(records.deep_view().take(records.len() as int) =~= records.deep_view());
        self.index = course_index();
    }

    /// Stores a course under a new identifier; a course whose identifier is
    /// already stored is refused and nothing changes.
    pub fn add_course(&mut self, course: Course) -> (r: Result<(), DbError>)
        requires
            old(self).wf(),
        ensures
            final(self).wf(),
            final(self).stored_reviews() == old(self).stored_reviews(),
            final(self).index() == old(self).index(),
            has_id(old(self).stored_courses(), course.deep_view().id) ==> r == Err::<(), DbError>(
                DbError::DuplicateCourse,
            ) && final(self).stored_courses() == old(self).stored_courses(),
            !has_id(old(self).stored_courses(), course.deep_view().id) ==> r is Ok
                && final(self).stored_courses() == old(self).stored_courses().push(
                course.deep_view(),
            ),
    {
        let ghost before = self.courses.deep_view();
        proof {
            lemma_first_with_id(before, course.id@, 0);
        }
        let k = find_course(&self.courses, &course.id);
        if k < self.courses.len() {
            Err(DbError::DuplicateCourse)
        } else {
            proof {
                lemma_seed_one_unique(before, course.deep_view());
            }
            self.courses.push(course);
            assert(self.courses.deep_view() =~= before.push(course.deep_view()));
            Ok(())
        }
    }

    /// Lists the stored courses in stored order, after skipping `offset`
    /// of them and up to the number that `limit` allows.
    pub fn courses(&self, limit: Option<i64>, offset: Option<u64>) -> (r: Vec<Course>)
        ensures
            r.deep_view() == window(self.stored_courses(), limit, offset),
    {
        let len = self.courses.len();
        let from: usize = match offset {
            Some(o) => if o < len as u64 { o as usize } else { len },
            None => 0,
        };
        let rest: usize = len - from;
        let count: usize = match limit {
            Some(l) => {
                if l == 0 {
                    rest
                } else if l < 0 {
                    let magnitude: u64 = if l == i64::MIN {
                        9223372036854775808u64
                    } else {
                        (-l) as u64
                    };
                    if magnitude < rest as u64 {
                        magnitude as usize
                    } else {
                        rest
                    }
                } else if (l as u64) < rest as u64 {
                    l as usize
                } else {
                    rest
                }
            },
            None => rest,
        };
        let mut out: Vec<Course> = Vec::new();
        let mut i: usize = 0;
        while i < count
            invariant
                i <= count,
                from + count <= self.courses.len(),
                out.len() == i,
                forall|k: int| 0 <= k < i ==> out[k].deep_view() == self.courses[from + k].deep_view(),
            decreases count - i,
        {
            out.push(self.courses[from + i].copy());
            i += 1;
        }
        assert(out.deep_view() =~= window(self.courses.deep_view(), limit, offset));
        out
    }

    /// Looks up the course with identifier `id`.
    pub fn find_course_by_id(&self, id: &str) -> (r: Option<Course>)
        ensures
            match r {
                Some(c) => has_id(self.stored_courses(), id@) && c.deep_view()
                    == self.stored_courses()[first_with_id(self.stored_courses(), id@, 0)],
                None => !has_id(self.stored_courses(), id@),
            },
    {
        proof {
            lemma_first_with_id(self.courses.deep_view(), id@, 0);
        }
        let key = id.to_owned();
        let k = find_course(&self.courses, &key);
        if k < self.courses.len() {
            assert(self.courses.deep_view()[k as int] == self.courses[k as int].deep_view());
            Some(self.courses[k].copy())
        } else {
            None
        }
    }

    /// Finds the position of the review of the course and user.
    fn find_review_index(&self, course_id: &String, user_id: &String) -> (k: usize)
        ensures
            k == first_review_of(self.stored_reviews(), course_id@, user_id@, 0),
            k <= self.reviews.len(),
    {
        let mut i: usize = 0;
        while i < self.reviews.len()
            invariant
                i <= self.reviews.len(),
                first_review_of(self.reviews.deep_view(), course_id@, user_id@, 0)
                    == first_review_of(self.reviews.deep_view(), course_id@, user_id@, i as int),
            decreases self.reviews.len() - i,
        {
            assert(self.reviews.deep_view()[i as int] == self.reviews[i as int].deep_view());
            if self.reviews[i].course_id == *course_id && self.reviews[i].user_id == *user_id {
                return i;
            }
            i += 1;
        }
        i
    }

    /// Adds a review. A user's second review of the same course is rejected
    /// and nothing changes; the existing review is to be updated instead.
    pub fn add_review(&mut self, review: Review) -> (r: Result<(), DbError>)
        requires
            old(self).wf(),
        ensures
            final(self).wf(),
            final(self).stored_courses() == old(self).stored_courses(),
            final(self).index() == old(self).index(),
            final(self).stored_reviews() == after_add(
                old(self).stored_reviews(),
                review.deep_view(),
            ),
            r == if has_review(
                old(self).stored_reviews(),
                review.deep_view().course_id,
                review.deep_view().user_id,
            ) {
                Err::<(), DbError>(DbError::DuplicateReview)
            } else {
                Ok::<(), DbError>(())
            },
    {
        let ghost before = self.reviews.deep_view();
        proof {
            lemma_first_review_of(before, review.course_id@, review.user_id@, 0);
            lemma_reviews_stay_unique(before, review.deep_view());
        }
        let k = self.find_review_index(&review.course_id, &review.user_id);
        if k < self.reviews.len() {
            Err(DbError::DuplicateReview)
        } else {
            self.reviews.push(review);
            assert(self.reviews.deep_view() =~= before.push(review.deep_view()));
            Ok(())
        }
    }

    /// Replaces content, instructor, rating and timestamp of the review of
    /// the same course and user, if there is one.
    pub fn update_review(&mut self, review: Review) -> (r: UpdateResult)
        requires
            old(self).wf(),
        ensures
            final(self).wf(),
            final(self).stored_courses() == old(self).stored_courses(),
            final(self).index() == old(self).index(),
            final(self).stored_reviews() == after_update(
                old(self).stored_reviews(),
                review.deep_view(),
            ),
            r.matched_count == if has_review(
                old(self).stored_reviews(),
                review.deep_view().course_id,
                review.deep_view().user_id,
            ) {
                1u64
            } else {
                0u64
            },
            r.modified_count == if final(self).stored_reviews() == old(self).stored_reviews() {
                0u64
            } else {
                1u64
            },
    {
        let ghost before = self.reviews.deep_view();
        proof {
            lemma_first_review_of(before, review.course_id@, review.user_id@, 0);
            lemma_reviews_stay_unique(before, review.deep_view());
        }
        let k = self.find_review_index(&review.course_id, &review.user_id);
        if k < self.reviews.len() {
            assert(before[k as int] == self.reviews[k as int].deep_view());
            let stored = self.reviews[k].copy();
            let next = Review {
                content: review.content,
                instructor: review.instructor,
                rating: review.rating,
                timestamp: review.timestamp,
                course_id: stored.course_id,
                user_id: stored.user_id,
            };
            let changed = !next.same(&self.reviews[k]);
            self.reviews.set(k, next);
            assert(self.reviews.deep_view() =~= before.update(k as int, next.deep_view()));
            assert(changed <==> self.reviews.deep_view() != before) by {
                if !changed {
                    assert(before.update(k as int, next.deep_view()) =~= before);
                } else {
                    assert(self.reviews.deep_view()[k as int] != before[k as int]);
                }
            }
            UpdateResult { matched_count: 1, modified_count: if changed { 1 } else { 0 } }
        } else {
            UpdateResult { matched_count: 0, modified_count: 0 }
        }
    }

    /// Deletes the review of the course and user, if there is one.
    pub fn delete_review(&mut self, course_id: &str, user_id: &str) -> (r: DeleteResult)
        requires
            old(self).wf(),
        ensures
            final(self).wf(),
            final(self).stored_courses() == old(self).stored_courses(),
            final(self).index() == old(self).index(),
            final(self).stored_reviews() == after_delete(
                old(self).stored_reviews(),
                course_id@,
                user_id@,
            ),
            r.deleted_count == if has_review(old(self).stored_reviews(), course_id@, user_id@) {
                1u64
            } else {
                0u64
            },
    {
        let ghost before = self.reviews.deep_view();
        let course = course_id.to_owned();
        let user = user_id.to_owned();
        proof {
            lemma_first_review_of(before, course_id@, user_id@, 0);
            let probe = ReviewView {
                content: Seq::empty(),
                course_id: course_id@,
                instructor: Seq::empty(),
                rating: 0,
                timestamp: 0,
                user_id: user_id@,
            };
            lemma_reviews_stay_unique(before, probe);
        }
        let k = self.find_review_index(&course, &user);
        if k < self.reviews.len() {
            let _ = self.reviews.remove(k);
            assert(self.reviews.deep_view() =~= before.remove(k as int));
            DeleteResult { deleted_count: 1 }
        } else {
            DeleteResult { deleted_count: 0 }
        }
    }

    /// Looks up the review of the course by the user.
    pub fn find_review(&self, course_id: &str, user_id: &str) -> (r: Option<Review>)
        ensures
            match r {
                Some(found) => has_review(self.stored_reviews(), course_id@, user_id@)
                    && found.deep_view() == self.stored_reviews()[first_review_of(
                    self.stored_reviews(),
                    course_id@,
                    user_id@,
                    0,
                )],
                None => !has_review(self.stored_reviews(), course_id@, user_id@),
            },
    {
        proof {
            lemma_first_review_of(self.reviews.deep_view(), course_id@, user_id@, 0);
        }
        let course = course_id.to_owned();
        let user = user_id.to_owned();
        let k = self.find_review_index(&course, &user);
        if k < self.reviews.len() {
            assert(self.reviews.deep_view()[k as int] == self.reviews[k as int].deep_view());
            Some(self.reviews[k].copy())
        } else {
            None
        }
    }

    /// Lists the reviews of one course, in stored order.
    pub fn find_reviews_by_course_id(&self, course_id: &str) -> (r: Vec<Review>)
        ensures
            r.deep_view() == reviews_of_course(self.stored_reviews(), course_id@),
    {
        let key = course_id.to_owned();
        let mut out: Vec<Review> = Vec::new();
        let mut i: usize = 0;
        proof {
            reveal(Seq::filter);
            assert(out.deep_view() =~= Seq::empty());
            assert(self.reviews.deep_view().take(0) =~= Seq::empty());
        }
        while i < self.reviews.len()
            invariant
                i <= self.reviews.len(),
                key@ == course_id@,
                out.deep_view() == reviews_of_course(
                    self.reviews.deep_view().take(i as int),
                    course_id@,
                ),
            decreases self.reviews.len() - i,
        {
            let ghost before = out.deep_view();
            proof {
                reveal(Seq::filter);
                let upto = self.reviews.deep_view().take(i as int + 1);
                assert(upto.drop_last() =~= self.reviews.deep_view().take(i as int));
                assert(upto.last() == self.reviews[i as int].deep_view());
            }
            if self.reviews[i].course_id == key {
                out.push(self.reviews[i].copy());
                assert(out.deep_view() =~= before.push(self.reviews[i as int].deep_view()));
            }
            i += 1;
        }
        assert(self.reviews.deep_view().take(self.reviews.len() as int)
            =~= self.reviews.deep_view());
        out
    }

    /// Lists the reviews by one user, in stored order.
    pub fn find_reviews_by_user_id(&self, user_id: &str) -> (r: Vec<Review>)
        ensures
            r.deep_view() == reviews_of_user(self.stored_reviews(), user_id@),
    {
        let key = user_id.to_owned();
        let mut out: Vec<Review> = Vec::new();
        let mut i: usize = 0;
        proof {
            reveal(Seq::filter);
            assert(out.deep_view() =~= Seq::empty());
            assert(self.reviews.deep_view().take(0) =~= Seq::empty());
        }
        while i < self.reviews.len()
            invariant
                i <= self.reviews.len(),
                key@ == user_id@,
                out.deep_view() == reviews_of_user(
                    self.reviews.deep_view().take(i as int),
                    user_id@,
                ),
            decreases self.reviews.len() - i,
        {
            let ghost before = out.deep_view();
            proof {
                reveal(Seq::filter);
                let upto = self.reviews.deep_view().take(i as int + 1);
                assert(upto.drop_last() =~= self.reviews.deep_view().take(i as int));
                assert(upto.last() == self.reviews[i as int].deep_view());
            }
            if self.reviews[i].user_id == key {
                out.push(self.reviews[i].copy());
                assert(out.deep_view() =~= before.push(self.reviews[i as int].deep_view()));
            }
            i += 1;
        }
        assert(self.reviews.deep_view().take(self.reviews.len() as int)
            =~= self.reviews.deep_view());
        out
    }

    /// The fields and weights of the full-text index as it was last built.
    pub fn indexes(&self) -> (r: Vec<(IndexField, u32)>)
        ensures
            r@ == self.index(),
    {
        let mut out: Vec<(IndexField, u32)> = Vec::new();
        let mut i: usize = 0;
        while i < self.index.len()
            invariant
                i <= self.index.len(),
                out@ == self.index@.take(i as int),
            decreases self.index.len() - i,
        {
            out.push(self.index[i]);
            assert(self.index@.take(i + 1) =~= self.index@.take(i as int).push(self.index@[i as int]));
            i += 1;
        }
        assert(self.index@.take(self.index.len() as int) =~= self.index@);
        out
    }

    /// Lists all stored reviews, in stored order.
    pub fn reviews(&self) -> (r: Vec<Review>)
        ensures
            r.deep_view() == self.stored_reviews(),
    {
        self.reviews.copy()
    }
}

} // verus!
