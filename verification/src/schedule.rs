//! Schedule data of a course: blocks, their time blocks, and the term they
//! belong to.

use crate::value::Value;
use vstd::prelude::*;

verus! {

/// One meeting time: a day code with a start and an end time.
#[derive(Clone, Debug, PartialEq, Eq)]
pub struct TimeBlock {
    pub day: Option<String>,
    pub t1: Option<String>,
    pub t2: Option<String>,
}

/// The mathematical value of a [`TimeBlock`].
pub struct TimeBlockView {
    pub day: Option<Seq<char>>,
    pub t1: Option<Seq<char>>,
    pub t2: Option<Seq<char>>,
}

impl DeepView for TimeBlock {
    type V = TimeBlockView;

    open spec fn deep_view(&self) -> TimeBlockView {
        TimeBlockView {
            day: self.day.deep_view(),
            t1: self.t1.deep_view(),
            t2: self.t2.deep_view(),
        }
    }
}

impl Value for TimeBlock {
    fn same(&self, other: &Self) -> (r: bool) {
        self.day.same(&other.day) && self.t1.same(&other.t1) && self.t2.same(&other.t2)
    }

    fn copy(&self) -> (r: Self) {
        TimeBlock { day: self.day.copy(), t1: self.t1.copy(), t2: self.t2.copy() }
    }
}

/// One schedule block: where it takes place, how it is displayed, and when
/// it meets.
#[derive(Clone, Debug, PartialEq, Eq)]
pub struct Block {
    pub campus: Option<String>,
    pub display: Option<String>,
    pub location: Option<String>,
    pub timeblocks: Option<Vec<TimeBlock>>,
}

/// The mathematical value of a [`Block`].
pub struct BlockView {
    pub campus: Option<Seq<char>>,
    pub display: Option<Seq<char>>,
    pub location: Option<Seq<char>>,
    pub timeblocks: Option<Seq<TimeBlockView>>,
}

impl DeepView for Block {
    type V = BlockView;

    open spec fn deep_view(&self) -> BlockView {
        BlockView {
            campus: self.campus.deep_view(),
            display: self.display.deep_view(),
            location: self.location.deep_view(),
            timeblocks: self.timeblocks.deep_view(),
        }
    }
}

impl Value for Block {
    fn same(&self, other: &Self) -> (r: bool) {
        self.campus.same(&other.campus) && self.display.same(&other.display)
            && self.location.same(&other.location) && self.timeblocks.same(&other.timeblocks)
    }

    fn copy(&self) -> (r: Self) {
        Block {
            campus: self.campus.copy(),
            display: self.display.copy(),
            location: self.location.copy(),
            timeblocks: self.timeblocks.copy(),
        }
    }
}

/// The schedule of a course in one term.
#[derive(Clone, Debug, PartialEq, Eq)]
pub struct Schedule {
    pub blocks: Option<Vec<Block>>,
    pub term: Option<String>,
}

/// The mathematical value of a [`Schedule`].
pub struct ScheduleView {
    pub blocks: Option<Seq<BlockView>>,
    pub term: Option<Seq<char>>,
}

impl DeepView for Schedule {
    type V = ScheduleView;

    open spec fn deep_view(&self) -> ScheduleView {
        ScheduleView { blocks: self.blocks.deep_view(), term: self.term.deep_view() }
    }
}

impl Value for Schedule {
    fn same(&self, other: &Self) -> (r: bool) {
        self.blocks.same(&other.blocks) && self.term.same(&other.term)
    }

    fn copy(&self) -> (r: Self) {
        Schedule { blocks: self.blocks.copy(), term: self.term.copy() }
    }
}

} // verus!
