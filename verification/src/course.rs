//! The course record and the rule by which a fresh record is merged into a
//! prior one.

use crate::requirement::{ReqNode, ReqNodeView};
use crate::schedule::{Schedule, ScheduleView};
use crate::value::{combine, combine_opt, union, union_opt, Value};
use vstd::prelude::*;

verus! {

/// An instructor of a course: a name and, where known, an identifier.
#[derive(Clone, Debug, PartialEq, Eq)]
pub struct Instructor {
    pub name: String,
    pub id: Option<String>,
}

/// The mathematical value of an [`Instructor`].
pub struct InstructorView {
    pub name: Seq<char>,
    pub id: Option<Seq<char>>,
}

impl DeepView for Instructor {
    type V = InstructorView;

    open spec fn deep_view(&self) -> InstructorView {
        InstructorView { name: self.name@, id: self.id.deep_view() }
    }
}

impl Value for Instructor {
    fn same(&self, other: &Self) -> (r: bool) {
        self.name.same(&other.name) && self.id.same(&other.id)
    }

    fn copy(&self) -> (r: Self) {
        Instructor { name: self.name.copy(), id: self.id.copy() }
    }
}

/// One course of the catalog.
///
/// `id` is the subject followed by the code and identifies the course.
/// `leading_to` is derived: it lists the courses that name this one as a
/// prerequisite.
#[derive(Clone, Debug, PartialEq, Eq)]
pub struct Course {
    pub id: String,
    pub title: String,
    pub credits: String,
    pub subject: String,
    pub code: String,
    pub level: String,
    pub url: String,
    pub department: String,
    pub faculty: String,
    pub faculty_url: String,
    pub terms: Vec<String>,
    pub description: String,
    pub instructors: Vec<Instructor>,
    pub prerequisites_text: Option<String>,
    pub corequisites_text: Option<String>,
    pub prerequisites: Vec<String>,
    pub corequisites: Vec<String>,
    pub leading_to: Vec<String>,
    pub logical_prerequisites: Option<ReqNode>,
    pub logical_corequisites: Option<ReqNode>,
    pub restrictions: Option<String>,
    pub schedule: Option<Vec<Schedule>>,
}

/// The mathematical value of a [`Course`].
pub struct CourseView {
    pub id: Seq<char>,
    pub title: Seq<char>,
    pub credits: Seq<char>,
    pub subject: Seq<char>,
    pub code: Seq<char>,
    pub level: Seq<char>,
    pub url: Seq<char>,
    pub department: Seq<char>,
    pub faculty: Seq<char>,
    pub faculty_url: Seq<char>,
    pub terms: Seq<Seq<char>>,
    pub description: Seq<char>,
    pub instructors: Seq<InstructorView>,
    pub prerequisites_text: Option<Seq<char>>,
    pub corequisites_text: Option<Seq<char>>,
    pub prerequisites: Seq<Seq<char>>,
    pub corequisites: Seq<Seq<char>>,
    pub leading_to: Seq<Seq<char>>,
    pub logical_prerequisites: Option<ReqNodeView>,
    pub logical_corequisites: Option<ReqNodeView>,
    pub restrictions: Option<Seq<char>>,
    pub schedule: Option<Seq<ScheduleView>>,
}

impl DeepView for Course {
    type V = CourseView;

    open spec fn deep_view(&self) -> CourseView {
        CourseView {
            id: self.id@,
            title: self.title@,
            credits: self.credits@,
            subject: self.subject@,
            code: self.code@,
            level: self.level@,
            url: self.url@,
            department: self.department@,
            faculty: self.faculty@,
            faculty_url: self.faculty_url@,
            terms: self.terms.deep_view(),
            description: self.description@,
            instructors: self.instructors.deep_view(),
            prerequisites_text: self.prerequisites_text.deep_view(),
            corequisites_text: self.corequisites_text.deep_view(),
            prerequisites: self.prerequisites.deep_view(),
            corequisites: self.corequisites.deep_view(),
            leading_to: self.leading_to.deep_view(),
            logical_prerequisites: self.logical_prerequisites.deep_view(),
            logical_corequisites: self.logical_corequisites.deep_view(),
            restrictions: self.restrictions.deep_view(),
            schedule: self.schedule.deep_view(),
        }
    }
}

impl Value for Course {
    fn same(&self, other: &Self) -> (r: bool) {
        self.id.same(&other.id) && self.title.same(&other.title) && self.credits.same(
            &other.credits,
        ) && self.subject.same(&other.subject) && self.code.same(&other.code) && self.level.same(
            &other.level,
        ) && self.url.same(&other.url) && self.department.same(&other.department)
            && self.faculty.same(&other.faculty) && self.faculty_url.same(&other.faculty_url)
            && self.terms.same(&other.terms) && self.description.same(&other.description)
            && self.instructors.same(&other.instructors) && self.prerequisites_text.same(
            &other.prerequisites_text,
        ) && self.corequisites_text.same(&other.corequisites_text) && self.prerequisites.same(
            &other.prerequisites,
        ) && self.corequisites.same(&other.corequisites) && self.leading_to.same(&other.leading_to)
            && self.logical_prerequisites.same(&other.logical_prerequisites)
            && self.logical_corequisites.same(&other.logical_corequisites)
            && self.restrictions.same(&other.restrictions) && self.schedule.same(&other.schedule)
    }

    fn copy(&self) -> (r: Self) {
        Course {
            id: self.id.copy(),
            title: self.title.copy(),
            credits: self.credits.copy(),
            subject: self.subject.copy(),
            code: self.code.copy(),
            level: self.level.copy(),
            url: self.url.copy(),
            department: self.department.copy(),
            faculty: self.faculty.copy(),
            faculty_url: self.faculty_url.copy(),
            terms: self.terms.copy(),
            description: self.description.copy(),
            instructors: self.instructors.copy(),
            prerequisites_text: self.prerequisites_text.copy(),
            corequisites_text: self.corequisites_text.copy(),
            prerequisites: self.prerequisites.copy(),
            corequisites: self.corequisites.copy(),
            leading_to: self.leading_to.copy(),
            logical_prerequisites: self.logical_prerequisites.copy(),
            logical_corequisites: self.logical_corequisites.copy(),
            restrictions: self.restrictions.copy(),
            schedule: self.schedule.copy(),
        }
    }
}

/// The record with every text empty, every list empty and every optional
/// field absent.
pub open spec fn empty_course() -> CourseView {
    CourseView {
        id: Seq::empty(),
        title: Seq::empty(),
        credits: Seq::empty(),
        subject: Seq::empty(),
        code: Seq::empty(),
        level: Seq::empty(),
        url: Seq::empty(),
        department: Seq::empty(),
        faculty: Seq::empty(),
        faculty_url: Seq::empty(),
        terms: Seq::empty(),
        description: Seq::empty(),
        instructors: Seq::empty(),
        prerequisites_text: None,
        corequisites_text: None,
        prerequisites: Seq::empty(),
        corequisites: Seq::empty(),
        leading_to: Seq::empty(),
        logical_prerequisites: None,
        logical_corequisites: None,
        restrictions: None,
        schedule: None,
    }
}

impl Default for Course {
    fn default() -> (r: Self)
        ensures
            r.deep_view() == empty_course(),
    {
        let terms: Vec<String> = Vec::new();
        let instructors: Vec<Instructor> = Vec::new();
        let prerequisites: Vec<String> = Vec::new();
        let corequisites: Vec<String> = Vec::new();
        let leading_to: Vec<String> = Vec::new();
        assert(terms.deep_view() =~= Seq::empty());
        assert(instructors.deep_view() =~= Seq::empty());
        assert(prerequisites.deep_view() =~= Seq::empty());
        assert(corequisites.deep_view() =~= Seq::empty());
        assert(leading_to.deep_view() =~= Seq::empty());
        Course {
            id: String::new(),
            title: String::new(),
            credits: String::new(),
            subject: String::new(),
            code: String::new(),
            level: String::new(),
            url: String::new(),
            department: String::new(),
            faculty: String::new(),
            faculty_url: String::new(),
            terms,
            description: String::new(),
            instructors,
            prerequisites_text: None,
            corequisites_text: None,
            prerequisites,
            corequisites,
            leading_to,
            logical_prerequisites: None,
            logical_corequisites: None,
            restrictions: None,
            schedule: None,
        }
    }
}

/// What merging a fresh record into a prior one gives: the three history
/// lists are the union of the prior and the fresh list, every other field is
/// the fresh one.
pub open spec fn merged(prior: CourseView, fresh: CourseView) -> CourseView {
    CourseView {
        instructors: union(prior.instructors, fresh.instructors),
        terms: union(prior.terms, fresh.terms),
        schedule: union_opt(prior.schedule, fresh.schedule),
        ..fresh
    }
}

/// Whatever is unioned, a merge takes every other field from the fresh
/// record: the description and the title among them.
pub proof fn lemma_merge_overwrites(prior: CourseView, fresh: CourseView)
    ensures
        merged(prior, fresh) == (CourseView {
            instructors: merged(prior, fresh).instructors,
            terms: merged(prior, fresh).terms,
            schedule: merged(prior, fresh).schedule,
            ..fresh
        }),
        merged(prior, fresh).description == fresh.description,
        merged(prior, fresh).title == fresh.title,
        merged(prior, fresh).credits == fresh.credits,
        merged(prior, fresh).url == fresh.url,
{
}

/// A merge loses nothing of the prior history: the prior instructors and
/// terms come first in the merged lists, as they were.
pub proof fn lemma_merge_keeps_history(prior: CourseView, fresh: CourseView)
    ensures
        merged(prior, fresh).instructors.take(prior.instructors.len() as int)
            == prior.instructors,
        merged(prior, fresh).terms.take(prior.terms.len() as int) == prior.terms,
        prior.schedule matches Some(p) ==> (merged(prior, fresh).schedule matches Some(m) && m.take(
            p.len() as int,
        ) == p),
{
    crate::value::lemma_union_keeps_prior(prior.instructors, fresh.instructors);
    crate::value::lemma_union_keeps_prior(prior.terms, fresh.terms);
    if prior.schedule is Some {
        let p = prior.schedule->0;
        match fresh.schedule {
            Some(f) => {
                crate::value::lemma_union_keeps_prior(p, f);
            },
            None => {
                assert(p.take(p.len() as int) =~= p);
            },
        }
    }
}

impl Course {
    /// Merges a freshly crawled record into this prior record.
    ///
    /// Instructors, terms and schedule keep every prior value in its place
    /// and gain each new value once; all other fields are overwritten.
    pub fn merge(self, other: Course) -> (r: Course)
        ensures
            r.deep_view() == merged(self.deep_view(), other.deep_view()),
    {
        Course {
            instructors: combine(self.instructors, other.instructors),
            terms: combine(self.terms, other.terms),
            schedule: combine_opt(self.schedule, other.schedule),
            id: other.id,
            title: other.title,
            credits: other.credits,
            subject: other.subject,
            code: other.code,
            level: other.level,
            url: other.url,
            department: other.department,
            faculty: other.faculty,
            faculty_url: other.faculty_url,
            description: other.description,
            prerequisites_text: other.prerequisites_text,
            corequisites_text: other.corequisites_text,
            prerequisites: other.prerequisites,
            corequisites: other.corequisites,
            leading_to: other.leading_to,
            logical_prerequisites: other.logical_prerequisites,
            logical_corequisites: other.logical_corequisites,
            restrictions: other.restrictions,
        }
    }
}

} // verus!
