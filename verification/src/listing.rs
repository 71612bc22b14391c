//! What the catalog's pages yield: listing rows, course pages and the
//! requirements stated on them.

use crate::course::{Instructor, InstructorView};
use crate::requirement::{ReqNode, ReqNodeView};
use crate::value::Value;
use vstd::prelude::*;

verus! {

/// One page of the catalog's listing.
#[derive(Clone, Debug, PartialEq, Eq)]
pub struct Page {
    pub number: usize,
    pub url: String,
}

/// The mathematical value of a [`Page`].
pub struct PageView {
    pub number: usize,
    pub url: Seq<char>,
}

impl DeepView for Page {
    type V = PageView;

    open spec fn deep_view(&self) -> PageView {
        PageView { number: self.number, url: self.url@ }
    }
}

/// One row of a listing page: the subject and code of the course, where
/// the course's own page is, and what else the listing says of the course.
#[derive(Clone, Debug, PartialEq, Eq)]
pub struct CourseListing {
    pub subject: String,
    pub code: String,
    pub department: String,
    pub faculty: String,
    pub level: String,
    pub terms: Vec<String>,
    pub url: String,
}

/// The mathematical value of a [`CourseListing`].
pub struct CourseListingView {
    pub subject: Seq<char>,
    pub code: Seq<char>,
    pub department: Seq<char>,
    pub faculty: Seq<char>,
    pub level: Seq<char>,
    pub terms: Seq<Seq<char>>,
    pub url: Seq<char>,
}

impl DeepView for CourseListing {
    type V = CourseListingView;

    open spec fn deep_view(&self) -> CourseListingView {
        CourseListingView {
            subject: self.subject@,
            code: self.code@,
            department: self.department@,
            faculty: self.faculty@,
            level: self.level@,
            terms: self.terms.deep_view(),
            url: self.url@,
        }
    }
}

impl Value for CourseListing {
    fn same(&self, other: &Self) -> (r: bool) {
        self.subject.same(&other.subject) && self.code.same(&other.code) && self.department.same(
            &other.department,
        ) && self.faculty.same(&other.faculty)
            && self.level.same(&other.level) && self.terms.same(&other.terms) && self.url.same(
            &other.url,
        )
    }

    fn copy(&self) -> (r: Self) {
        CourseListing {
            subject: self.subject.copy(),
            code: self.code.copy(),
            department: self.department.copy(),
            faculty: self.faculty.copy(),
            level: self.level.copy(),
            terms: self.terms.copy(),
            url: self.url.copy(),
        }
    }
}

/// The requirements stated on a course page: the identifiers named, the
/// statements as written, and their logical form.
#[derive(Clone, Debug, PartialEq, Eq)]
pub struct Requirements {
    pub prerequisites_text: Option<String>,
    pub corequisites_text: Option<String>,
    pub prerequisites: Vec<String>,
    pub corequisites: Vec<String>,
    pub restrictions: Option<String>,
    pub logical_prerequisites: Option<ReqNode>,
    pub logical_corequisites: Option<ReqNode>,
}

/// The mathematical value of [`Requirements`].
pub struct RequirementsView {
    pub prerequisites_text: Option<Seq<char>>,
    pub corequisites_text: Option<Seq<char>>,
    pub prerequisites: Seq<Seq<char>>,
    pub corequisites: Seq<Seq<char>>,
    pub restrictions: Option<Seq<char>>,
    pub logical_prerequisites: Option<ReqNodeView>,
    pub logical_corequisites: Option<ReqNodeView>,
}

impl DeepView for Requirements {
    type V = RequirementsView;

    open spec fn deep_view(&self) -> RequirementsView {
        RequirementsView {
            prerequisites_text: self.prerequisites_text.deep_view(),
            corequisites_text: self.corequisites_text.deep_view(),
            prerequisites: self.prerequisites.deep_view(),
            corequisites: self.corequisites.deep_view(),
            restrictions: self.restrictions.deep_view(),
            logical_prerequisites: self.logical_prerequisites.deep_view(),
            logical_corequisites: self.logical_corequisites.deep_view(),
        }
    }
}

/// The requirements of a course that states none.
pub open spec fn no_requirements() -> RequirementsView {
    RequirementsView {
        prerequisites_text: None,
        corequisites_text: None,
        prerequisites: Seq::empty(),
        corequisites: Seq::empty(),
        restrictions: None,
        logical_prerequisites: None,
        logical_corequisites: None,
    }
}

impl Default for Requirements {
    fn default() -> (r: Self)
        ensures
            r.deep_view() == no_requirements(),
    {
        let prerequisites: Vec<String> = Vec::new();
        let corequisites: Vec<String> = Vec::new();
        assert(prerequisites.deep_view() =~= Seq::empty());
        assert(corequisites.deep_view() =~= Seq::empty());
        Requirements {
            prerequisites_text: None,
            corequisites_text: None,
            prerequisites,
            corequisites,
            restrictions: None,
            logical_prerequisites: None,
            logical_corequisites: None,
        }
    }
}

/// What a course's own page says of it.
#[derive(Clone, Debug, PartialEq, Eq)]
pub struct CoursePage {
    pub title: String,
    pub credits: String,
    pub subject: String,
    pub code: String,
    pub faculty_url: String,
    pub description: String,
    pub instructors: Vec<Instructor>,
    pub requirements: Requirements,
}

/// The mathematical value of a [`CoursePage`].
pub struct CoursePageView {
    pub title: Seq<char>,
    pub credits: Seq<char>,
    pub subject: Seq<char>,
    pub code: Seq<char>,
    pub faculty_url: Seq<char>,
    pub description: Seq<char>,
    pub instructors: Seq<InstructorView>,
    pub requirements: RequirementsView,
}

impl DeepView for CoursePage {
    type V = CoursePageView;

    open spec fn deep_view(&self) -> CoursePageView {
        CoursePageView {
            title: self.title@,
            credits: self.credits@,
            subject: self.subject@,
            code: self.code@,
            faculty_url: self.faculty_url@,
            description: self.description@,
            instructors: self.instructors.deep_view(),
            requirements: self.requirements.deep_view(),
        }
    }
}

} // verus!
