//! The crawl of the catalog: its configuration, the addresses of the listing
//! pages, what a batch of pages amounts to, and how a course is assembled
//! from its listing row and its own page.

use crate::course::{Course, CourseView};
use crate::error::CrawlError;
use crate::graph::{derive_leading_to, with_graph};
use crate::listing::{CourseListing, CourseListingView, CoursePage, CoursePageView, Page, PageView};
use crate::schedule::{Schedule, ScheduleView};
use crate::text::{concat2, decimal, push_decimal};
use crate::value::Value;
use vstd::prelude::*;
use vstd::string::StringExecFns;

verus! {

/// The address of the catalog's site, without a trailing slash.
pub const BASE_URL: &'static str = "https://www.mcgill.ca";

/// The configuration of a crawl.
#[derive(Clone, Debug, PartialEq, Eq)]
pub struct Loader {
    /// The user agent that requests carry.
    pub user_agent: String,
    /// Milliseconds to wait after each course page.
    pub course_delay: u64,
    /// Milliseconds to wait after each listing page.
    pub page_delay: u64,
    /// How often a failed request is tried again.
    pub retries: usize,
    /// How many listing pages a batch reaches beyond its first.
    pub batch_size: usize,
    /// The catalog terms to crawl, oldest first.
    pub mcgill_terms: Vec<String>,
    /// The sessions for which schedules are fetched.
    pub vsb_terms: Vec<usize>,
    /// Whether schedules are fetched at all.
    pub scrape_vsb: bool,
}

/// The catalog terms that are crawled unless others are configured.
pub open spec fn default_terms() -> Seq<Seq<char>> {
    seq![
        "2009-2010"@,
        "2010-2011"@,
        "2011-2012"@,
        "2012-2013"@,
        "2013-2014"@,
        "2014-2015"@,
        "2015-2016"@,
        "2016-2017"@,
        "2017-2018"@,
        "2018-2019"@,
        "2019-2020"@,
        "2020-2021"@,
        "2021-2022"@,
        "2022-2023"@,
        "2023-2024"@,
    ]
}

/// The sessions for which schedules are fetched unless others are
/// configured.
pub open spec fn default_sessions() -> Seq<usize> {
    seq![202305usize, 202309usize, 202401usize]
}

/// The address of listing page `index` of a catalog term.
pub open spec fn page_url(term: Seq<char>, index: nat) -> Seq<char> {
    BASE_URL@ + "/study/"@ + term + "/courses/search?page="@ + decimal(index)
}

/// Listing page `index` of a catalog term.
pub open spec fn page_at(term: Seq<char>, index: int) -> PageView {
    PageView { number: index as usize, url: page_url(term, index as nat) }
}

/// The listings of a batch of pages, page after page; a page without
/// listings adds nothing.
pub open spec fn flattened(pages: Seq<Option<Seq<CourseListingView>>>) -> Seq<CourseListingView>
    decreases pages.len(),
{
    if pages.len() == 0 {
        Seq::empty()
    } else {
        match pages.last() {
            Some(listings) => flattened(pages.drop_last()) + listings,
            None => flattened(pages.drop_last()),
        }
    }
}

/// A listing with the site's address put before its own.
pub open spec fn absolute(listing: CourseListingView) -> CourseListingView {
    CourseListingView { url: BASE_URL@ + listing.url, ..listing }
}

/// The course that a listing row, the course's own page and its schedules
/// describe together.
pub open spec fn assembled(
    listing: CourseListingView,
    page: CoursePageView,
    schedule: Option<Seq<ScheduleView>>,
) -> CourseView {
    CourseView {
        id: page.subject + page.code,
        title: page.title,
        credits: page.credits,
        subject: page.subject,
        code: page.code,
        level: listing.level,
        url: listing.url,
        department: listing.department,
        faculty: listing.faculty,
        faculty_url: BASE_URL@ + page.faculty_url,
        terms: listing.terms,
        description: page.description,
        instructors: page.instructors,
        prerequisites_text: page.requirements.prerequisites_text,
        corequisites_text: page.requirements.corequisites_text,
        prerequisites: page.requirements.prerequisites,
        corequisites: page.requirements.corequisites,
        leading_to: Seq::empty(),
        logical_prerequisites: page.requirements.logical_prerequisites,
        logical_corequisites: page.requirements.logical_corequisites,
        restrictions: page.requirements.restrictions,
        schedule,
    }
}

/// `Some` of a list that holds something, `None` of an empty one.
pub fn into_option<T>(v: Vec<T>) -> (r: Option<Vec<T>>)
    ensures
        r == if v@.len() == 0 {
            None
        } else {
            Some(v)
        },
{
    if v.len() == 0 {
        None
    } else {
        Some(v)
    }
}

impl Loader {
    /// The configuration with the given user agent and every other option
    /// at its default: no pauses, ten retries, batches of twenty pages, the
    /// catalog terms from 2009-2010 to 2023-2024, and no schedules.
    pub fn new(user_agent: String) -> (r: Loader)
        ensures
            r.user_agent@ == user_agent@,
            r.course_delay == 0,
            r.page_delay == 0,
            r.retries == 10,
            r.batch_size == 20,
            r.mcgill_terms.deep_view() == default_terms(),
            r.vsb_terms@ == default_sessions(),
            !r.scrape_vsb,
    {
        let mut mcgill_terms: Vec<String> = Vec::new();
        mcgill_terms.push("2009-2010".to_owned());
        mcgill_terms.push("2010-2011".to_owned());
        mcgill_terms.push("2011-2012".to_owned());
        mcgill_terms.push("2012-2013".to_owned());
        mcgill_terms.push("2013-2014".to_owned());
        mcgill_terms.push("2014-2015".to_owned());
        mcgill_terms.push("2015-2016".to_owned());
        mcgill_terms.push("2016-2017".to_owned());
        mcgill_terms.push("2017-2018".to_owned());
        mcgill_terms.push("2018-2019".to_owned());
        mcgill_terms.push("2019-2020".to_owned());
        mcgill_terms.push("2020-2021".to_owned());
        mcgill_terms.push("2021-2022".to_owned());
        mcgill_terms.push("2022-2023".to_owned());
        mcgill_terms.push("2023-2024".to_owned());
        assert(mcgill_terms.deep_view() =~= default_terms());
        let mut vsb_terms: Vec<usize> = Vec::new();
        vsb_terms.push(202305);
        vsb_terms.push(202309);
        vsb_terms.push(202401);
        assert(vsb_terms@ =~= default_sessions());
        Loader {
            user_agent,
            course_delay: 0,
            page_delay: 0,
            retries: 10,
            batch_size: 20,
            mcgill_terms,
            vsb_terms,
            scrape_vsb: false,
        }
    }

    /// The pages `start` to `end`, both included, of a catalog term.
    pub fn aggregate_urls(&self, term: &str, start: usize, end: usize) -> (r: Vec<Page>)
        requires
            end - start < usize::MAX,
        ensures
            r.len() == if start <= end {
                end - start + 1
            } else {
                0
            },
            forall|k: int| 0 <= k < r.len() ==> r[k].deep_view() == page_at(term@, start + k),
    {
        let mut out: Vec<Page> = Vec::new();
        if start > end {
            return out;
        }
        let mut index: usize = start;
        loop
            invariant_except_break
                start <= index <= end,
                out.len() == index - start,
            invariant
                end - start < usize::MAX,
                forall|k: int| 0 <= k < out.len() ==> out[k].deep_view() == page_at(term@, start + k),
            ensures
                out.len() == end - start + 1,
            decreases end - index,
        {
            let mut url = concat2(BASE_URL, "/study/");
            url.append(term);
            url.append("/courses/search?page=");
            push_decimal(&mut url, index);
            assert(url@ =~= page_url(term@, index as nat));
            out.push(Page { number: index, url });
            if index == end {
                break ;
            }
            index += 1;
        }
        out
    }

    /// Puts the listings of a batch of pages together, page after page.
    ///
    /// A page without listings counts as empty. The result is `None` where
    /// no page of the batch has a listing, which ends the pagination.
    pub fn parse_course_listing_pages(&self, pages: Vec<Option<Vec<CourseListing>>>) -> (r: Option<
        Vec<CourseListing>,
    >)
        ensures
            r.deep_view() == if flattened(pages.deep_view()).len() == 0 {
                None
            } else {
                Some(flattened(pages.deep_view()))
            },
    {
        let mut out: Vec<CourseListing> = Vec::new();
        let ghost start = pages.deep_view();
        let mut i: usize = 0;
        assert(start.take(0) =~= Seq::empty());
        assert(out.deep_view() =~= Seq::empty());
        while i < pages.len()
            invariant
                i <= pages.len(),
                pages.deep_view() == start,
                out.deep_view() == flattened(start.take(i as int)),
            decreases pages.len() - i,
        {
            proof {
                let upto = start.take(i as int + 1);
                assert(upto.drop_last() =~= start.take(i as int));
                assert(upto.last() == pages[i as int].deep_view());
            }
            let ghost before = out.deep_view();
            match &pages[i] {
                None => {},
                Some(listings) => {
                    let mut j: usize = 0;
                    assert(listings.deep_view().take(0) =~= Seq::empty());
                    assert(before + Seq::<CourseListingView>::empty() =~= before);
                    while j < listings.len()
                        invariant
                            j <= listings.len(),
                            out.deep_view() == before + listings.deep_view().take(j as int),
                        decreases listings.len() - j,
                    {
                        let ghost inner = out.deep_view();
                        out.push(listings[j].copy());
                        assert(out.deep_view() =~= inner.push(listings[j as int].deep_view()));
                        assert(listings.deep_view().take(j as int + 1) =~= listings.deep_view().take(
                            j as int,
                        ).push(listings[j as int].deep_view()));
                        j += 1;
                    }
                    assert(listings.deep_view().take(listings.len() as int)
                        =~= listings.deep_view());
                },
            }
            i += 1;
        }
        assert(start.take(pages.len() as int) =~= start);
        into_option(out)
    }

    /// What a listing page yields once each listing's address is made
    /// absolute; a page without listings stays without.
    pub fn parse_course_listing_page(&self, listings: Option<Vec<CourseListing>>) -> (r: Option<
        Vec<CourseListing>,
    >)
        ensures
            r.deep_view() == match listings.deep_view() {
                Some(rows) => Some(rows.map_values(|l: CourseListingView| absolute(l))),
                None => None,
            },
    {
        match listings {
            None => None,
            Some(rows) => {
                let mut out: Vec<CourseListing> = Vec::new();
                let mut i: usize = 0;
                while i < rows.len()
                    invariant
                        i <= rows.len(),
                        out.len() == i,
                        forall|k: int| 0 <= k < i ==> out[k].deep_view() == absolute(rows[k].deep_view()),
                    decreases rows.len() - i,
                {
                    let row = &rows[i];
                    out.push(
                        CourseListing {
                            subject: row.subject.copy(),
                            code: row.code.copy(),
                            department: row.department.copy(),
                            faculty: row.faculty.copy(),
                            level: row.level.copy(),
                            terms: row.terms.copy(),
                            url: concat2(BASE_URL, row.url.as_str()),
                        },
                    );
                    i += 1;
                }
                assert(out.deep_view() =~= rows.deep_view().map_values(
                    |l: CourseListingView| absolute(l),
                ));
                Some(out)
            },
        }
    }

    /// Whether schedules are fetched for the term at position `index` of
    /// the configured terms: only for the last one, and only if enabled.
    pub fn scrapes_schedule(&self, index: usize) -> (r: bool)
        ensures
            r == (self.scrape_vsb && index + 1 == self.mcgill_terms.len()),
    {
        self.scrape_vsb && self.mcgill_terms.len() > 0 && index == self.mcgill_terms.len() - 1
    }

    /// Assembles a course from its listing row, its own page and, where they
    /// were fetched, its schedules.
    pub fn parse_course(
        &self,
        listing: CourseListing,
        course_page: CoursePage,
        schedule: Option<Vec<Schedule>>,
    ) -> (r: Course)
        ensures
            r.deep_view() == assembled(
                listing.deep_view(),
                course_page.deep_view(),
                schedule.deep_view(),
            ),
    {
        let leading_to: Vec<String> = Vec::new();
        assert(leading_to.deep_view() =~= Seq::empty());
        Course {
            id: concat2(course_page.subject.as_str(), course_page.code.as_str()),
            title: course_page.title,
            credits: course_page.credits,
            subject: course_page.subject,
            code: course_page.code,
            level: listing.level,
            url: listing.url,
            department: listing.department,
            faculty: listing.faculty,
            faculty_url: concat2(BASE_URL, course_page.faculty_url.as_str()),
            terms: listing.terms,
            description: course_page.description,
            instructors: course_page.instructors,
            prerequisites_text: course_page.requirements.prerequisites_text,
            corequisites_text: course_page.requirements.corequisites_text,
            prerequisites: course_page.requirements.prerequisites,
            corequisites: course_page.requirements.corequisites,
            leading_to,
            logical_prerequisites: course_page.requirements.logical_prerequisites,
            logical_corequisites: course_page.requirements.logical_corequisites,
            restrictions: course_page.requirements.restrictions,
            schedule,
        }
    }

    /// Recomputes every `leading_to` list of the corpus and hands back a
    /// copy of the result. This never fails.
    pub fn post_process(&self, courses: &mut Vec<Course>) -> (r: Result<Vec<Course>, CrawlError>)
        ensures
            final(courses).deep_view() == with_graph(old(courses).deep_view()),
            r matches Ok(copy) && copy.deep_view() == final(courses).deep_view(),
    {
        derive_leading_to(courses);
        Ok(courses.copy())
    }
}

} // verus!
