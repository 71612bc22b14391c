//! The crawl of one catalog term as a state machine: the crawl says what is
//! to be fetched next, and is told what came back.

use crate::corpus::{deduplicate, deduplicated, merge_with_prior, merged_corpus};
use crate::course::{Course, CourseView};
use crate::graph::{derive_leading_to, with_graph};
use crate::listing::{CourseListing, CourseListingView, CoursePage, Page, PageView};
use crate::loader::{absolute, page_at, Loader};
use vstd::prelude::*;

verus! {

/// Milliseconds to pause before a page whose markup could not be read is
/// fetched again.
pub const EXTRACTION_RETRY_MILLIS: u64 = 500;

/// The state of the crawl of one term: the first page of the current batch
/// and the courses collected from the batches before it.
pub struct TermCrawl {
    pub page: usize,
    pub courses: Vec<Course>,
}

/// What the crawl asks for next.
pub enum CrawlStep {
    /// Fetch these listing pages and report their listings.
    FetchListings { crawl: TermCrawl, pages: Vec<Page> },
    /// Fetch the courses of these listings and report them.
    FetchCourses { crawl: TermCrawl, listings: Vec<CourseListing>, scrape_vsb: bool },
    /// The term is crawled: these are its courses.
    Finish(Vec<Course>),
}

/// The mathematical value of a [`CrawlStep`].
pub enum CrawlStepView {
    FetchListings { page: usize, courses: Seq<CourseView>, pages: Seq<PageView> },
    FetchCourses {
        page: usize,
        courses: Seq<CourseView>,
        listings: Seq<CourseListingView>,
        scrape_vsb: bool,
    },
    Finish(Seq<CourseView>),
}

impl DeepView for CrawlStep {
    type V = CrawlStepView;

    open spec fn deep_view(&self) -> CrawlStepView {
        match self {
            CrawlStep::FetchListings { crawl, pages } => CrawlStepView::FetchListings {
                page: crawl.page,
                courses: crawl.courses.deep_view(),
                pages: pages.deep_view(),
            },
            CrawlStep::FetchCourses { crawl, listings, scrape_vsb } => CrawlStepView::FetchCourses {
                page: crawl.page,
                courses: crawl.courses.deep_view(),
                listings: listings.deep_view(),
                scrape_vsb: *scrape_vsb,
            },
            CrawlStep::Finish(courses) => CrawlStepView::Finish(courses.deep_view()),
        }
    }
}

/// The batch that starts at `page`: that page and the `batch_size` pages
/// after it.
pub open spec fn batch_pages(term: Seq<char>, page: int, batch_size: int) -> Seq<PageView> {
    Seq::new((batch_size + 1) as nat, |k: int| page_at(term, page + k))
}

/// The step that opens the batch at `page`: fetch its listing pages, or
/// finish where the page numbers of the batch no longer fit the machine.
pub open spec fn batch_step(
    term: Seq<char>,
    page: usize,
    batch_size: usize,
    courses: Seq<CourseView>,
) -> CrawlStepView {
    if page + batch_size < usize::MAX {
        CrawlStepView::FetchListings {
            page,
            courses,
            pages: batch_pages(term, page as int, batch_size as int),
        }
    } else {
        CrawlStepView::Finish(deduplicated(courses))
    }
}

/// What becomes of an attempt to read a fetched page.
pub enum Attempt<T> {
    /// The page was read: go on with `value` after the pause.
    Done { value: T, pause_millis: u64 },
    /// The page could not be read: fetch and read it again after the pause.
    Again { pause_millis: u64 },
}

impl Loader {
    /// Opens the batch at `crawl.page`.
    fn open_batch(&self, term: &str, crawl: TermCrawl) -> (r: CrawlStep)
        ensures
            r.deep_view() == batch_step(
                term@,
                crawl.page,
                self.batch_size,
                crawl.courses.deep_view(),
            ),
    {
        if crawl.page < usize::MAX - self.batch_size && self.batch_size < usize::MAX {
            let pages = self.aggregate_urls(term, crawl.page, crawl.page + self.batch_size);
            assert(pages.deep_view() =~= batch_pages(
                term@,
                crawl.page as int,
                self.batch_size as int,
            ));
            CrawlStep::FetchListings { crawl, pages }
        } else {
            CrawlStep::Finish(deduplicate(crawl.courses))
        }
    }

    /// Begins the crawl of a term with the batch at page 0.
    pub fn begin(&self, term: &str) -> (r: CrawlStep)
        ensures
            r.deep_view() == batch_step(term@, 0, self.batch_size, Seq::empty()),
    {
        let courses: Vec<Course> = Vec::new();
        assert(courses.deep_view() =~= Seq::empty());
        self.open_batch(term, TermCrawl { page: 0, courses })
    }

    /// Takes the listings of the current batch.
    ///
    /// A batch without any listing ends the pagination: the crawl finishes
    /// with the courses collected so far, identical records collapsed,
    /// untitled ones dropped, ordered by identifier. Otherwise the courses
    /// of all listings of the batch are asked for; schedules are asked for
    /// only if `index` is the position of the last configured term.
    pub fn on_listings(
        &self,
        index: usize,
        crawl: TermCrawl,
        listings: Option<Vec<CourseListing>>,
    ) -> (r: CrawlStep)
        ensures
            r.deep_view() == match listings.deep_view() {
                None => CrawlStepView::Finish(deduplicated(crawl.courses.deep_view())),
                Some(rows) => CrawlStepView::FetchCourses {
                    page: crawl.page,
                    courses: crawl.courses.deep_view(),
                    listings: rows,
                    scrape_vsb: self.scrape_vsb && index + 1 == self.mcgill_terms.len(),
                },
            },
    {
        match listings {
            None => CrawlStep::Finish(deduplicate(crawl.courses)),
            Some(rows) => CrawlStep::FetchCourses {
                crawl,
                listings: rows,
                scrape_vsb: self.scrapes_schedule(index),
            },
        }
    }

    /// Takes the courses of the current batch: they join the collected
    /// courses, and the crawl moves on by `batch_size` pages.
    pub fn on_courses(&self, term: &str, crawl: TermCrawl, fetched: Vec<Course>) -> (r: CrawlStep)
        ensures
            r.deep_view() == if crawl.page + self.batch_size <= usize::MAX {
                batch_step(
                    term@,
                    (crawl.page + self.batch_size) as usize,
                    self.batch_size,
                    crawl.courses.deep_view() + fetched.deep_view(),
                )
            } else {
                CrawlStepView::Finish(
                    deduplicated(crawl.courses.deep_view() + fetched.deep_view()),
                )
            },
    {
        let ghost before = crawl.courses.deep_view();
        let mut courses = crawl.courses;
        let mut fetched = fetched;
        let ghost added = fetched.deep_view();
        courses.append(&mut fetched);
        assert(courses.deep_view() =~= before + added);
        if crawl.page <= usize::MAX - self.batch_size {
            self.open_batch(term, TermCrawl { page: crawl.page + self.batch_size, courses })
        } else {
            CrawlStep::Finish(deduplicate(courses))
        }
    }

    /// Completes a term: the crawled courses are merged into the prior
    /// corpus, where there is one, and then every `leading_to` list is
    /// recomputed over the result.
    pub fn finish_term(&self, courses: Vec<Course>, prior: Option<Vec<Course>>) -> (r: Vec<Course>)
        ensures
            r.deep_view() == with_graph(
                match prior.deep_view() {
                    Some(p) => merged_corpus(courses.deep_view(), p),
                    None => courses.deep_view(),
                },
            ),
    {
        let mut out = match prior {
            Some(p) => merge_with_prior(&courses, &p),
            None => courses,
        };
        derive_leading_to(&mut out);
        out
    }

    /// Decides on an attempt to read a listing page: a page that was read
    /// yields its listings with absolute addresses, after the pause between
    /// pages; one that was not is fetched again after a fixed pause.
    ///
    /// The repetition has no bound of its own. A page whose markup never
    /// reads is fetched over and over, until a fetch uses up its retries: a
    /// caller that cannot accept this counts the `Again` answers and gives
    /// up by itself.
    pub fn listing_attempt<E>(&self, extracted: Result<Option<Vec<CourseListing>>, E>) -> (r:
        Attempt<Option<Vec<CourseListing>>>)
        ensures
            match extracted {
                Ok(listings) => r matches Attempt::Done { value, pause_millis }
                    && pause_millis == self.page_delay && value.deep_view() == (match listings.deep_view() {
                    Some(rows) => Some(rows.map_values(|l: CourseListingView| absolute(l))),
                    None => None,
                }),
                Err(_) => r == (Attempt::<Option<Vec<CourseListing>>>::Again {
                    pause_millis: EXTRACTION_RETRY_MILLIS,
                }),
            },
    {
        match extracted {
            Ok(listings) => Attempt::Done {
                value: self.parse_course_listing_page(listings),
                pause_millis: self.page_delay,
            },
            Err(_) => Attempt::Again { pause_millis: EXTRACTION_RETRY_MILLIS },
        }
    }

    /// Decides on an attempt to read a course page, as
    /// [`Loader::listing_attempt`] does for a listing page.
    pub fn course_attempt<E>(&self, extracted: Result<CoursePage, E>) -> (r: Attempt<CoursePage>)
        ensures
            match extracted {
                Ok(page) => r == (Attempt::Done { value: page, pause_millis: self.course_delay }),
                Err(_) => r == (Attempt::<CoursePage>::Again {
                    pause_millis: EXTRACTION_RETRY_MILLIS,
                }),
            },
    {
        match extracted {
            Ok(page) => Attempt::Done { value: page, pause_millis: self.course_delay },
            Err(_) => Attempt::Again { pause_millis: EXTRACTION_RETRY_MILLIS },
        }
    }
}

} // verus!
