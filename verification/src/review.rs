//! Reviews of courses, one per course and user.

use crate::value::Value;
use vstd::prelude::*;

verus! {

/// A user's review of a course. `timestamp` counts milliseconds since the
/// start of 1970, UTC.
#[derive(Clone, Debug, PartialEq, Eq)]
pub struct Review {
    pub content: String,
    pub course_id: String,
    pub instructor: String,
    pub rating: u32,
    pub timestamp: i64,
    pub user_id: String,
}

/// The mathematical value of a [`Review`].
pub struct ReviewView {
    pub content: Seq<char>,
    pub course_id: Seq<char>,
    pub instructor: Seq<char>,
    pub rating: u32,
    pub timestamp: i64,
    pub user_id: Seq<char>,
}

impl DeepView for Review {
    type V = ReviewView;

    open spec fn deep_view(&self) -> ReviewView {
        ReviewView {
            content: self.content@,
            course_id: self.course_id@,
            instructor: self.instructor@,
            rating: self.rating,
            timestamp: self.timestamp,
            user_id: self.user_id@,
        }
    }
}

impl Value for Review {
    fn same(&self, other: &Self) -> (r: bool) {
        self.content.same(&other.content) && self.course_id.same(&other.course_id)
            && self.instructor.same(&other.instructor) && self.rating == other.rating
            && self.timestamp == other.timestamp && self.user_id.same(&other.user_id)
    }

    fn copy(&self) -> (r: Self) {
        Review {
            content: self.content.copy(),
            course_id: self.course_id.copy(),
            instructor: self.instructor.copy(),
            rating: self.rating,
            timestamp: self.timestamp,
            user_id: self.user_id.copy(),
        }
    }
}

/// The review with empty texts, rating 0 and the timestamp of the epoch.
pub open spec fn empty_review() -> ReviewView {
    ReviewView {
        content: Seq::empty(),
        course_id: Seq::empty(),
        instructor: Seq::empty(),
        rating: 0,
        timestamp: 0,
        user_id: Seq::empty(),
    }
}

impl Default for Review {
    fn default() -> (r: Self)
        ensures
            r.deep_view() == empty_review(),
    {
        Review {
            content: String::new(),
            course_id: String::new(),
            instructor: String::new(),
            rating: 0,
            timestamp: 0,
            user_id: String::new(),
        }
    }
}

/// Whether a review belongs to the given course and user.
pub open spec fn review_of(r: ReviewView, course_id: Seq<char>, user_id: Seq<char>) -> bool {
    r.course_id == course_id && r.user_id == user_id
}

} // verus!
