//! Turning what was selected from a page's markup into records: schedules
//! with their blocks and terms, and course pages with their required fields.

use crate::course::{Instructor, InstructorView};
use crate::error::{CrawlError, RequiredField};
use crate::listing::{CourseListing, CoursePage, CoursePageView, Requirements, RequirementsView};
use crate::loader::into_option;
use crate::schedule::{Block, BlockView, Schedule, ScheduleView, TimeBlock, TimeBlockView};
use crate::text::{concat2, str_eq, to_chars};
use crate::value::Value;
use vstd::prelude::*;
use vstd::string::StrSliceExecFns;

verus! {

/// The position of the first comma at or after `from`, or the length of `s`
/// where there is none.
pub open spec fn comma_at(s: Seq<char>, from: int) -> int
    decreases s.len() - from,
{
    if from >= s.len() {
        s.len() as int
    } else if s[from] == ',' {
        from
    } else {
        comma_at(s, from + 1)
    }
}

/// The parts of `s` between its commas; a text without a comma is its own
/// single part, and so is the empty text.
pub open spec fn segments(s: Seq<char>) -> Seq<Seq<char>>
    decreases s.len(),
{
    let k = comma_at(s, 0);
    if 0 <= k < s.len() {
        seq![s.take(k)] + segments(s.skip(k + 1))
    } else {
        seq![s]
    }
}

/// Whether `id` is one of the comma-separated parts of `ids`.
pub open spec fn lists_id(ids: Seq<char>, id: Seq<char>) -> bool {
    segments(ids).contains(id)
}

/// The term that a session code names: its first four characters are the
/// year, the two after them the season. Codes shorter than six characters
/// and seasons other than `01`, `05` and `09` name no term.
pub open spec fn term_of(ssid: Seq<char>) -> Option<Seq<char>> {
    if ssid.len() < 6 {
        None
    } else {
        let year = ssid.subrange(0, 4);
        let season = ssid.subrange(4, 6);
        if season == seq!['0', '1'] {
            Some("Winter "@ + year)
        } else if season == seq!['0', '5'] {
            Some("Summer "@ + year)
        } else if season == seq!['0', '9'] {
            Some("Fall "@ + year)
        } else {
            None
        }
    }
}

/// A session code names a term exactly when it has six characters or more
/// and its season is `01`, `05` or `09`; the term then ends in the year.
pub proof fn lemma_term_of(ssid: Seq<char>)
    ensures
        term_of(ssid) is Some <==> ssid.len() >= 6 && ssid[4] == '0' && (ssid[5] == '1' || ssid[5]
            == '5' || ssid[5] == '9'),
        term_of(ssid) matches Some(term) ==> term.len() >= 4 && term.skip(term.len() - 4)
            == ssid.subrange(0, 4),
{
    if ssid.len() >= 6 {
        let season = ssid.subrange(4, 6);
        assert(season[0] == ssid[4] && season[1] == ssid[5]);
        assert(season == seq!['0', '1'] <==> ssid[4] == '0' && ssid[5] == '1') by {
            if ssid[4] == '0' && ssid[5] == '1' {
                assert(season =~= seq!['0', '1']);
            }
        }
        assert(season == seq!['0', '5'] <==> ssid[4] == '0' && ssid[5] == '5') by {
            if ssid[4] == '0' && ssid[5] == '5' {
                assert(season =~= seq!['0', '5']);
            }
        }
        assert(season == seq!['0', '9'] <==> ssid[4] == '0' && ssid[5] == '9') by {
            if ssid[4] == '0' && ssid[5] == '9' {
                assert(season =~= seq!['0', '9']);
            }
        }
        let year = ssid.subrange(0, 4);
        if term_of(ssid) is Some {
            let term = term_of(ssid)->0;
            let head = if season == seq!['0', '1'] {
                "Winter "@
            } else if season == seq!['0', '5'] {
                "Summer "@
            } else {
                "Fall "@
            };
            assert(term == head + year);
            assert(term.skip(term.len() - 4) =~= year);
        }
    }
}

/// Decodes a session code into its term, as [`term_of`] says.
pub fn decode_term(ssid: &str) -> (r: Option<String>)
    ensures
        r.deep_view() == term_of(ssid@),
{
    if ssid.unicode_len() < 6 {
        return None;
    }
    let year = ssid.substring_char(0, 4);
    let season = ssid.substring_char(4, 6);
    proof {
        reveal_strlit("01");
        reveal_strlit("05");
        reveal_strlit("09");
        assert("01"@ =~= seq!['0', '1']);
        assert("05"@ =~= seq!['0', '5']);
        assert("09"@ =~= seq!['0', '9']);
    }
    if str_eq(season, "01") {
        Some(concat2("Winter ", year))
    } else if str_eq(season, "05") {
        Some(concat2("Summer ", year))
    } else if str_eq(season, "09") {
        Some(concat2("Fall ", year))
    } else {
        None
    }
}

/// Looking for a comma in what follows position `a` is looking for it in
/// the whole text from `a` on.
pub proof fn lemma_comma_at_skip(s: Seq<char>, a: int, b: int)
    requires
        0 <= a <= s.len(),
        0 <= b <= s.len() - a,
    ensures
        comma_at(s.skip(a), b) + a == comma_at(s, a + b),
    decreases s.len() - a - b,
{
    if a + b < s.len() && s[a + b] != ',' {
        lemma_comma_at_skip(s, a, b + 1);
    }
}

/// Whether the characters of `ids` from `start` up to `end` spell `id`.
fn spells(ids: &Vec<char>, start: usize, end: usize, id: &Vec<char>) -> (r: bool)
    requires
        start <= end <= ids.len(),
    ensures
        r == (ids@.subrange(start as int, end as int) == id@),
{
    if end - start != id.len() {
        return false;
    }
    let mut i: usize = 0;
    while i < id.len()
        invariant
            i <= id.len(),
            start <= end <= ids.len(),
            end - start == id.len(),
            forall|k: int| 0 <= k < i ==> ids[start + k] == id[k],
        decreases id.len() - i,
    {
        if ids[start + i] != id[i] {
            assert(ids@.subrange(start as int, end as int)[i as int] != id@[i as int]);
            return false;
        }
        i += 1;
    }
    assert(ids@.subrange(start as int, end as int) =~= id@);
    true
}

/// Whether `id` is one of the comma-separated parts of `ids`, compared
/// character by character.
pub fn lists(ids: &Vec<char>, id: &Vec<char>) -> (r: bool)
    ensures
        r == lists_id(ids@, id@),
{
    let mut start: usize = 0;
    assert(ids@.skip(0) =~= ids@);
    loop
        invariant
            start <= ids.len(),
            lists_id(ids@, id@) == lists_id(ids@.skip(start as int), id@),
        decreases ids.len() - start,
    {
        let mut end: usize = start;
        while end < ids.len() && ids[end] != ','
            invariant
                start <= end <= ids.len(),
                comma_at(ids@, start as int) == comma_at(ids@, end as int),
            decreases ids.len() - end,
        {
            end += 1;
        }
        let ghost rest = ids@.skip(start as int);
        let ghost k = end - start;
        proof {
            lemma_comma_at_skip(ids@, start as int, 0);
            assert(comma_at(rest, 0) == k);
            assert(rest.take(k) =~= ids@.subrange(start as int, end as int));
        }
        let found = spells(ids, start, end, id);
        if end >= ids.len() {
            proof {
                assert(rest.take(k) =~= rest);
                assert(segments(rest) == seq![rest]);
                assert(seq![rest][0] == rest);
            }
            return found;
        }
        proof {
            let tail = segments(rest.skip(k + 1));
            assert(segments(rest) == seq![rest.take(k)] + tail);
            assert(rest.skip(k + 1) =~= ids@.skip(end + 1));
            assert(segments(rest)[0] == rest.take(k));
            if tail.contains(id@) {
                let j = choose|j: int| 0 <= j < tail.len() && tail[j] == id@;
                assert(segments(rest)[j + 1] == id@);
            }
            if segments(rest).contains(id@) && !found {
                let j = choose|j: int| 0 <= j < segments(rest).len() && segments(rest)[j] == id@;
                assert(tail[j - 1] == id@);
            }
        }
        if found {
            return true;
        }
        start = end + 1;
    }
}

/// A `block` node of schedule markup, by its attributes.
#[derive(Clone, Debug, PartialEq, Eq)]
pub struct BlockNode {
    pub campus: Option<String>,
    pub disp: Option<String>,
    pub location: Option<String>,
    pub timeblockids: Option<String>,
}

/// A `timeblock` node of schedule markup, by its attributes.
#[derive(Clone, Debug, PartialEq, Eq)]
pub struct TimeBlockNode {
    pub id: Option<String>,
    pub day: Option<String>,
    pub t1: Option<String>,
    pub t2: Option<String>,
}

/// What was selected from the schedule markup of one session: its `block`
/// and `timeblock` nodes in document order and, where the markup has a
/// `selection` node, the session code that node carries, if any.
#[derive(Clone, Debug, PartialEq, Eq)]
pub struct Selection {
    pub blocks: Vec<BlockNode>,
    pub timeblocks: Vec<TimeBlockNode>,
    pub selection: Option<Option<String>>,
}

/// The mathematical value of a [`BlockNode`].
pub struct BlockNodeView {
    pub campus: Option<Seq<char>>,
    pub disp: Option<Seq<char>>,
    pub location: Option<Seq<char>>,
    pub timeblockids: Option<Seq<char>>,
}

/// The mathematical value of a [`TimeBlockNode`].
pub struct TimeBlockNodeView {
    pub id: Option<Seq<char>>,
    pub day: Option<Seq<char>>,
    pub t1: Option<Seq<char>>,
    pub t2: Option<Seq<char>>,
}

/// The mathematical value of a [`Selection`].
pub struct SelectionView {
    pub blocks: Seq<BlockNodeView>,
    pub timeblocks: Seq<TimeBlockNodeView>,
    pub selection: Option<Option<Seq<char>>>,
}

impl DeepView for BlockNode {
    type V = BlockNodeView;

    open spec fn deep_view(&self) -> BlockNodeView {
        BlockNodeView {
            campus: self.campus.deep_view(),
            disp: self.disp.deep_view(),
            location: self.location.deep_view(),
            timeblockids: self.timeblockids.deep_view(),
        }
    }
}

impl DeepView for TimeBlockNode {
    type V = TimeBlockNodeView;

    open spec fn deep_view(&self) -> TimeBlockNodeView {
        TimeBlockNodeView {
            id: self.id.deep_view(),
            day: self.day.deep_view(),
            t1: self.t1.deep_view(),
            t2: self.t2.deep_view(),
        }
    }
}

impl DeepView for Selection {
    type V = SelectionView;

    open spec fn deep_view(&self) -> SelectionView {
        SelectionView {
            blocks: self.blocks.deep_view(),
            timeblocks: self.timeblocks.deep_view(),
            selection: self.selection.deep_view(),
        }
    }
}

/// An attribute's text, an absent attribute counting as empty.
pub open spec fn or_empty(attribute: Option<Seq<char>>) -> Seq<char> {
    match attribute {
        Some(text) => text,
        None => Seq::empty(),
    }
}

/// Whether a block names a time block among its identifiers.
pub open spec fn belongs(block: BlockNodeView, timeblock: TimeBlockNodeView) -> bool {
    lists_id(or_empty(block.timeblockids), or_empty(timeblock.id))
}

/// The time block that a node describes.
pub open spec fn time_of(node: TimeBlockNodeView) -> TimeBlockView {
    TimeBlockView { day: node.day, t1: node.t1, t2: node.t2 }
}

/// The time blocks among the first `n` that the block names, in document
/// order.
pub open spec fn times_within(
    block: BlockNodeView,
    timeblocks: Seq<TimeBlockNodeView>,
    n: int,
) -> Seq<TimeBlockView>
    decreases n,
{
    if n <= 0 {
        Seq::empty()
    } else if belongs(block, timeblocks[n - 1]) {
        times_within(block, timeblocks, n - 1).push(time_of(timeblocks[n - 1]))
    } else {
        times_within(block, timeblocks, n - 1)
    }
}

/// The schedule block that a node describes, with the time blocks it names.
pub open spec fn block_of(block: BlockNodeView, timeblocks: Seq<TimeBlockNodeView>) -> BlockView {
    BlockView {
        campus: block.campus,
        display: block.disp,
        location: block.location,
        timeblocks: Some(times_within(block, timeblocks, timeblocks.len() as int)),
    }
}

/// The schedule that a selection with session code `ssid` describes.
pub open spec fn schedule_of(selection: SelectionView, ssid: Option<Seq<char>>) -> ScheduleView {
    ScheduleView {
        blocks: Some(
            Seq::new(
                selection.blocks.len(),
                |i: int| block_of(selection.blocks[i], selection.timeblocks),
            ),
        ),
        term: match ssid {
            Some(code) => term_of(code),
            None => None,
        },
    }
}

/// The characters of an attribute, an absent one counting as empty.
fn attribute_chars(attribute: &Option<String>) -> (r: Vec<char>)
    ensures
        r@ == or_empty(attribute.deep_view()),
{
    match attribute {
        Some(text) => to_chars(text.as_str()),
        None => Vec::new(),
    }
}

/// Builds the schedule block of a node.
fn block_from_node(block: &BlockNode, timeblocks: &Vec<TimeBlockNode>) -> (r: Block)
    ensures
        r.deep_view() == block_of(block.deep_view(), timeblocks.deep_view()),
{
    let ids = attribute_chars(&block.timeblockids);
    let mut times: Vec<TimeBlock> = Vec::new();
    let mut i: usize = 0;
    assert(times.deep_view() =~= Seq::empty());
    while i < timeblocks.len()
        invariant
            i <= timeblocks.len(),
            ids@ == or_empty(block.deep_view().timeblockids),
            times.deep_view() == times_within(
                block.deep_view(),
                timeblocks.deep_view(),
                i as int,
            ),
        decreases timeblocks.len() - i,
    {
        let ghost before = times.deep_view();
        assert(timeblocks.deep_view()[i as int] == timeblocks[i as int].deep_view());
        let id = attribute_chars(&timeblocks[i].id);
        if lists(&ids, &id) {
            let node = &timeblocks[i];
            times.push(TimeBlock { day: node.day.copy(), t1: node.t1.copy(), t2: node.t2.copy() });
            assert(times.deep_view() =~= before.push(time_of(timeblocks[i as int].deep_view())));
        }
        i += 1;
    }
    Block {
        campus: block.campus.copy(),
        display: block.disp.copy(),
        location: block.location.copy(),
        timeblocks: Some(times),
    }
}

impl Schedule {
    /// Reads a schedule from what was selected of one session's markup.
    ///
    /// Each block takes the time blocks whose identifier is one of the
    /// comma-separated identifiers that the block lists, compared as text.
    /// The term comes from the session code of the `selection` node; markup
    /// without that node is refused.
    pub fn from_selection(selection: &Selection) -> (r: Result<Schedule, CrawlError>)
        ensures
            match selection.deep_view().selection {
                Some(ssid) => r matches Ok(schedule) && schedule.deep_view() == schedule_of(
                    selection.deep_view(),
                    ssid,
                ),
                None => r == Err::<Schedule, CrawlError>(CrawlError::MissingSelection),
            },
    {
        let mut blocks: Vec<Block> = Vec::new();
        let mut i: usize = 0;
        while i < selection.blocks.len()
            invariant
                i <= selection.blocks.len(),
                blocks.len() == i,
                forall|k: int|
                    0 <= k < i ==> blocks[k].deep_view() == block_of(
                        selection.blocks[k].deep_view(),
                        selection.timeblocks.deep_view(),
                    ),
            decreases selection.blocks.len() - i,
        {
            blocks.push(block_from_node(&selection.blocks[i], &selection.timeblocks));
            i += 1;
        }
        match &selection.selection {
            None => Err(CrawlError::MissingSelection),
            Some(ssid) => {
                let term = match ssid {
                    Some(code) => decode_term(code.as_str()),
                    None => None,
                };
                let schedule = Schedule { blocks: Some(blocks), term };
                assert(schedule.deep_view().blocks->0 =~= schedule_of(
                    selection.deep_view(),
                    ssid.deep_view(),
                ).blocks->0);
                Ok(schedule)
            },
        }
    }
}

/// What was selected from a course's own page: each text where the page
/// has it, the instructors, and the requirements as far as they were read.
#[derive(Clone, Debug, PartialEq, Eq)]
pub struct CoursePageFields {
    pub title: Option<String>,
    pub credits: Option<String>,
    pub subject: Option<String>,
    pub code: Option<String>,
    pub faculty_url: Option<String>,
    pub description: Option<String>,
    pub instructors: Vec<Instructor>,
    pub requirements: Option<Requirements>,
}

/// The mathematical value of [`CoursePageFields`].
pub struct CoursePageFieldsView {
    pub title: Option<Seq<char>>,
    pub credits: Option<Seq<char>>,
    pub subject: Option<Seq<char>>,
    pub code: Option<Seq<char>>,
    pub faculty_url: Option<Seq<char>>,
    pub description: Option<Seq<char>>,
    pub instructors: Seq<InstructorView>,
    pub requirements: Option<RequirementsView>,
}

impl DeepView for CoursePageFields {
    type V = CoursePageFieldsView;

    open spec fn deep_view(&self) -> CoursePageFieldsView {
        CoursePageFieldsView {
            title: self.title.deep_view(),
            credits: self.credits.deep_view(),
            subject: self.subject.deep_view(),
            code: self.code.deep_view(),
            faculty_url: self.faculty_url.deep_view(),
            description: self.description.deep_view(),
            instructors: self.instructors.deep_view(),
            requirements: self.requirements.deep_view(),
        }
    }
}

/// The required field that the page lacks, title before subject before
/// code, if it lacks one.
pub open spec fn missing_field(fields: CoursePageFieldsView) -> Option<RequiredField> {
    if fields.title is None {
        Some(RequiredField::Title)
    } else if fields.subject is None {
        Some(RequiredField::Subject)
    } else if fields.code is None {
        Some(RequiredField::Code)
    } else {
        None
    }
}

/// The course page that complete fields describe: what the page lacks
/// beyond the required fields is empty.
pub open spec fn page_of(fields: CoursePageFieldsView) -> CoursePageView {
    CoursePageView {
        title: or_empty(fields.title),
        credits: or_empty(fields.credits),
        subject: or_empty(fields.subject),
        code: or_empty(fields.code),
        faculty_url: or_empty(fields.faculty_url),
        description: or_empty(fields.description),
        instructors: fields.instructors,
        requirements: match fields.requirements {
            Some(r) => r,
            None => crate::listing::no_requirements(),
        },
    }
}

/// An optional text, an absent one counting as empty.
fn text_or_empty(text: Option<String>) -> (r: String)
    ensures
        r@ == or_empty(text.deep_view()),
{
    match text {
        Some(t) => t,
        None => String::new(),
    }
}

/// Reads a course page from what was selected of its markup. A page
/// without title, subject or code is refused, naming the first of them
/// that is absent; every other absent field is empty.
pub fn extract_course_page(fields: CoursePageFields) -> (r: Result<CoursePage, CrawlError>)
    ensures
        match missing_field(fields.deep_view()) {
            Some(field) => r == Err::<CoursePage, CrawlError>(CrawlError::MissingField(field)),
            None => r matches Ok(page) && page.deep_view() == page_of(fields.deep_view()),
        },
{
    if fields.title.is_none() {
        return Err(CrawlError::MissingField(RequiredField::Title));
    }
    if fields.subject.is_none() {
        return Err(CrawlError::MissingField(RequiredField::Subject));
    }
    if fields.code.is_none() {
        return Err(CrawlError::MissingField(RequiredField::Code));
    }
    Ok(
        CoursePage {
            title: text_or_empty(fields.title),
            credits: text_or_empty(fields.credits),
            subject: text_or_empty(fields.subject),
            code: text_or_empty(fields.code),
            faculty_url: text_or_empty(fields.faculty_url),
            description: text_or_empty(fields.description),
            instructors: fields.instructors,
            requirements: match fields.requirements {
                Some(r) => r,
                None => Requirements::default(),
            },
        },
    )
}

/// Reads the listings of a listing page from its rows: a page without rows
/// has no listings, which tells the crawl that the listing has ended.
pub fn extract_course_listings(rows: Vec<CourseListing>) -> (r: Option<Vec<CourseListing>>)
    ensures
        r.deep_view() == if rows.len() == 0 {
            None
        } else {
            Some(rows.deep_view())
        },
{
    into_option(rows)
}

} // verus!
