use mcgill_courses::corpus::{deduplicate, drop_untitled, find_course, merge_with_prior, sort_courses};
use mcgill_courses::course::{Course, Instructor};
use mcgill_courses::crawl::{Attempt, CrawlStep, TermCrawl, EXTRACTION_RETRY_MILLIS};
use mcgill_courses::db::{course_index, index_weight, seed_action, IndexField, SeedAction};
use mcgill_courses::error::{CrawlError, RequiredField};
use mcgill_courses::graph::derive_leading_to;
use mcgill_courses::listing::{CourseListing, CoursePage, Page, Requirements};
use mcgill_courses::loader::{into_option, Loader, BASE_URL};
use mcgill_courses::requirement::ReqNode;
use mcgill_courses::retry::{Retry, RetryStep, RETRY_DELAY_SECS};
use mcgill_courses::schedule::Schedule;
use mcgill_courses::text::{concat2, push_decimal, str_eq, str_le, to_chars};
use mcgill_courses::value::{combine, combine_opt, Value};

fn strings(items: &[&str]) -> Vec<String> {
    items.iter().map(|s| s.to_string()).collect()
}

fn course(id: &str, title: &str) -> Course {
    Course { id: id.to_string(), title: title.to_string(), ..Course::default() }
}

fn with_prerequisites(id: &str, prerequisites: &[&str]) -> Course {
    Course { prerequisites: strings(prerequisites), ..course(id, id) }
}

fn listing(url: &str) -> CourseListing {
    CourseListing {
        subject: "COMP".to_string(),
        code: "202".to_string(),
        department: "Computer Science".to_string(),
        faculty: "Science".to_string(),
        level: "Undergraduate".to_string(),
        terms: strings(&["Fall 2023"]),
        url: url.to_string(),
    }
}

fn loader(batch_size: usize) -> Loader {
    Loader { batch_size, mcgill_terms: strings(&["2022-2023", "2023-2024"]), ..Loader::new("agent".to_string()) }
}

#[test]
fn union_keeps_prior_order_and_appends_new_values() {
    assert_eq!(combine(strings(&["A", "B"]), strings(&["B", "C"])), strings(&["A", "B", "C"]));
    assert_eq!(combine(strings(&["A", "B"]), strings(&[])), strings(&["A", "B"]));
    assert_eq!(combine(strings(&[]), strings(&["B", "A", "B"])), strings(&["B", "A"]));
    assert_eq!(combine(strings(&["A", "A"]), strings(&["A"])), strings(&["A", "A"]));
}

#[test]
fn union_has_the_same_content_in_either_order() {
    let mut one = combine(strings(&["A", "B"]), strings(&["C", "B", "D"]));
    let mut other = combine(strings(&["C", "B", "D"]), strings(&["A", "B"]));
    assert_eq!(one, strings(&["A", "B", "C", "D"]));
    assert_eq!(other, strings(&["C", "B", "D", "A"]));
    one.sort();
    other.sort();
    assert_eq!(one, other);
}

#[test]
fn union_of_optional_lists() {
    assert_eq!(combine_opt::<String>(None, None), None);
    assert_eq!(combine_opt(Some(strings(&["A"])), None), Some(strings(&["A"])));
    assert_eq!(combine_opt(None, Some(strings(&["A", "A"]))), Some(strings(&["A"])));
    assert_eq!(
        combine_opt(Some(strings(&["A"])), Some(strings(&["B", "A"]))),
        Some(strings(&["A", "B"]))
    );
}

#[test]
fn merge_overwrites_scalars_and_unions_lists() {
    let prior = Course {
        description: "old".to_string(),
        title: "Old title".to_string(),
        terms: strings(&["Fall 2022", "Winter 2023"]),
        instructors: vec![Instructor { name: "Ada".to_string(), id: Some("1".to_string()) }],
        schedule: Some(vec![Schedule { blocks: None, term: Some("Fall 2022".to_string()) }]),
        prerequisites: strings(&["COMP100"]),
        leading_to: strings(&["COMP300"]),
        ..course("COMP202", "Old title")
    };
    let fresh = Course {
        description: "new".to_string(),
        terms: strings(&["Winter 2023", "Fall 2023"]),
        instructors: vec![Instructor { name: "Ada".to_string(), id: None }],
        schedule: None,
        ..course("COMP202", "New title")
    };
    let merged = prior.clone().merge(fresh.clone());
    assert_eq!(merged.description, "new");
    assert_eq!(merged.title, "New title");
    assert_eq!(merged.terms, strings(&["Fall 2022", "Winter 2023", "Fall 2023"]));
    assert_eq!(
        merged.instructors,
        vec![
            Instructor { name: "Ada".to_string(), id: Some("1".to_string()) },
            Instructor { name: "Ada".to_string(), id: None }
        ]
    );
    assert_eq!(merged.schedule, prior.schedule);
    assert_eq!(merged.prerequisites, strings(&[]));
    assert_eq!(merged.leading_to, strings(&[]));
}

#[test]
fn merge_with_prior_passes_unmatched_records_through() {
    let prior = vec![
        Course { terms: strings(&["Fall 2022"]), ..course("COMP202", "Old") },
        Course { terms: strings(&["Fall 2021"]), ..course("COMP202", "Shadowed") },
    ];
    let fresh = vec![
        Course { terms: strings(&["Fall 2023"]), ..course("COMP202", "New") },
        course("MATH240", "Discrete Structures"),
    ];
    assert_eq!(
        merge_with_prior(&fresh, &prior),
        vec![
            Course { terms: strings(&["Fall 2022", "Fall 2023"]), ..course("COMP202", "New") },
            course("MATH240", "Discrete Structures"),
        ]
    );
    assert_eq!(merge_with_prior(&fresh, &vec![]), fresh);
    assert_eq!(find_course(&prior, &"COMP202".to_string()), 0);
    assert_eq!(find_course(&prior, &"COMP203".to_string()), 2);
}

#[test]
fn derived_graph_lists_the_courses_that_follow() {
    let mut courses = vec![
        with_prerequisites("A", &[]),
        with_prerequisites("B", &["A"]),
        with_prerequisites("C", &["A"]),
    ];
    derive_leading_to(&mut courses);
    assert_eq!(courses[0].leading_to, strings(&["B", "C"]));
    assert_eq!(courses[1].leading_to, strings(&[]));
    assert_eq!(courses[2].leading_to, strings(&[]));
    assert_eq!(courses[1].prerequisites, strings(&["A"]));
}

#[test]
fn derived_graph_is_recomputed_from_scratch() {
    let mut courses = vec![
        Course { leading_to: strings(&["STALE"]), ..with_prerequisites("A", &["A", "B"]) },
        with_prerequisites("B", &["A", "A"]),
        with_prerequisites("A", &[]),
    ];
    let loader = loader(20);
    let copy = loader.post_process(&mut courses).unwrap();
    assert_eq!(copy, courses);
    assert_eq!(courses[0].leading_to, strings(&["B"]));
    assert_eq!(courses[1].leading_to, strings(&["A"]));
    assert_eq!(courses[2].leading_to, strings(&["A", "B"]));
    let again = loader.post_process(&mut courses).unwrap();
    assert_eq!(again, copy);
}

#[test]
fn deduplicate_collapses_drops_and_orders() {
    let raw = vec![
        course("MATH240", "Discrete Structures"),
        course("COMP202", "Foundations"),
        course("NOPE000", ""),
        course("MATH240", "Discrete Structures"),
        course("COMP202", "Foundations, revised"),
        course("COMP2020", "Longer"),
        course("BIOL111", "Biology"),
    ];
    assert_eq!(
        deduplicate(raw),
        vec![
            course("BIOL111", "Biology"),
            course("COMP202", "Foundations"),
            course("COMP202", "Foundations, revised"),
            course("COMP2020", "Longer"),
            course("MATH240", "Discrete Structures"),
        ]
    );
    assert_eq!(deduplicate(vec![]), vec![]);
    assert_eq!(drop_untitled(vec![course("A", ""), course("B", "b")]), vec![course("B", "b")]);
    assert_eq!(
        sort_courses(vec![course("b", "1"), course("a", "2"), course("b", "3"), course("", "4")]),
        vec![course("", "4"), course("a", "2"), course("b", "1"), course("b", "3")]
    );
}

#[test]
fn text_order_is_the_order_of_strings() {
    let samples = ["", "a", "ab", "b", "B", "é", "z", "COMP202", "COMP2020", "日本"];
    for a in samples {
        for b in samples {
            assert_eq!(str_le(a, b), a <= b);
            assert_eq!(str_eq(a, b), a == b);
        }
    }
    assert_eq!(to_chars("aé日"), vec!['a', 'é', '日']);
    assert_eq!(concat2("ab", "cd"), "abcd");
}

#[test]
fn decimal_numerals() {
    for (n, expected) in [(0usize, "0"), (7, "7"), (10, "10"), (202401, "202401"), (1000, "1000")] {
        let mut out = String::from("p=");
        push_decimal(&mut out, n);
        assert_eq!(out, format!("p={expected}"));
    }
    let mut out = String::new();
    push_decimal(&mut out, usize::MAX);
    assert_eq!(out, usize::MAX.to_string());
}

#[test]
fn aggregate_urls_covers_both_ends() {
    let loader = loader(20);
    let pages = loader.aggregate_urls("2023-2024", 9, 11);
    assert_eq!(
        pages,
        vec![
            Page { number: 9, url: "https://www.mcgill.ca/study/2023-2024/courses/search?page=9".to_string() },
            Page { number: 10, url: "https://www.mcgill.ca/study/2023-2024/courses/search?page=10".to_string() },
            Page { number: 11, url: "https://www.mcgill.ca/study/2023-2024/courses/search?page=11".to_string() },
        ]
    );
    assert_eq!(loader.aggregate_urls("t", 3, 3).len(), 1);
    assert_eq!(loader.aggregate_urls("t", 4, 3), vec![]);
    assert_eq!(loader.aggregate_urls("t", 0, 20).len(), 21);
    assert_eq!(BASE_URL, "https://www.mcgill.ca");
}

#[test]
fn loader_defaults() {
    let loader = Loader::new("agent".to_string());
    assert_eq!(loader.user_agent, "agent");
    assert_eq!(loader.course_delay, 0);
    assert_eq!(loader.page_delay, 0);
    assert_eq!(loader.retries, 10);
    assert_eq!(loader.batch_size, 20);
    assert_eq!(loader.mcgill_terms.len(), 15);
    assert_eq!(loader.mcgill_terms[0], "2009-2010");
    assert_eq!(loader.mcgill_terms[14], "2023-2024");
    assert_eq!(loader.vsb_terms, vec![202305, 202309, 202401]);
    assert!(!loader.scrape_vsb);
}

#[test]
fn listing_pages_of_a_batch_are_flattened() {
    let loader = loader(2);
    assert_eq!(
        loader.parse_course_listing_pages(vec![
            Some(vec![listing("/a"), listing("/b")]),
            None,
            Some(vec![listing("/c")]),
        ]),
        Some(vec![listing("/a"), listing("/b"), listing("/c")])
    );
    assert_eq!(loader.parse_course_listing_pages(vec![None, None, None]), None);
    assert_eq!(loader.parse_course_listing_pages(vec![None, Some(vec![])]), None);
    assert_eq!(loader.parse_course_listing_pages(vec![]), None);
    assert_eq!(into_option(vec![1]), Some(vec![1]));
    assert_eq!(into_option::<u8>(vec![]), None);
}

#[test]
fn listing_page_addresses_become_absolute() {
    let loader = loader(2);
    assert_eq!(
        loader.parse_course_listing_page(Some(vec![listing("/study/comp-202")])),
        Some(vec![listing("https://www.mcgill.ca/study/comp-202")])
    );
    assert_eq!(loader.parse_course_listing_page(None), None);
}

#[test]
fn attempts_pause_and_repeat() {
    let loader = Loader { page_delay: 30, course_delay: 40, ..loader(2) };
    match loader.listing_attempt::<CrawlError>(Ok(Some(vec![listing("/x")]))) {
        Attempt::Done { value, pause_millis } => {
            assert_eq!(value, Some(vec![listing("https://www.mcgill.ca/x")]));
            assert_eq!(pause_millis, 30);
        }
        Attempt::Again { .. } => panic!("a page that was read is not fetched again"),
    }
    match loader.listing_attempt(Err(CrawlError::MissingField(RequiredField::Title))) {
        Attempt::Again { pause_millis } => assert_eq!(pause_millis, EXTRACTION_RETRY_MILLIS),
        Attempt::Done { .. } => panic!("a page that was not read is fetched again"),
    }
    assert_eq!(EXTRACTION_RETRY_MILLIS, 500);
    match loader.course_attempt::<CrawlError>(Ok(page("COMP", "202"))) {
        Attempt::Done { value, pause_millis } => {
            assert_eq!(value, page("COMP", "202"));
            assert_eq!(pause_millis, 40);
        }
        Attempt::Again { .. } => panic!("a page that was read is not fetched again"),
    }
    match loader.course_attempt(Err(CrawlError::MissingField(RequiredField::Code))) {
        Attempt::Again { pause_millis } => assert_eq!(pause_millis, 500),
        Attempt::Done { .. } => panic!("a page that was not read is fetched again"),
    }
}

fn page(subject: &str, code: &str) -> CoursePage {
    CoursePage {
        title: "Foundations of Programming".to_string(),
        credits: "3".to_string(),
        subject: subject.to_string(),
        code: code.to_string(),
        faculty_url: "/science".to_string(),
        description: "An introduction.".to_string(),
        instructors: vec![Instructor { name: "Ada".to_string(), id: None }],
        requirements: Requirements {
            prerequisites_text: Some("Prerequisite: MATH 133".to_string()),
            corequisites_text: None,
            prerequisites: strings(&["MATH133"]),
            corequisites: strings(&[]),
            restrictions: Some("None".to_string()),
            logical_prerequisites: Some(ReqNode::Identifier("MATH133".to_string())),
            logical_corequisites: None,
        },
    }
}

#[test]
fn a_course_is_assembled_from_listing_and_page() {
    let loader = loader(2);
    let schedule = Some(vec![Schedule { blocks: None, term: Some("Fall 2023".to_string()) }]);
    let built = loader.parse_course(listing("https://www.mcgill.ca/c"), page("COMP", "202"), schedule.clone());
    assert_eq!(
        built,
        Course {
            id: "COMP202".to_string(),
            title: "Foundations of Programming".to_string(),
            credits: "3".to_string(),
            subject: "COMP".to_string(),
            code: "202".to_string(),
            level: "Undergraduate".to_string(),
            url: "https://www.mcgill.ca/c".to_string(),
            department: "Computer Science".to_string(),
            faculty: "Science".to_string(),
            faculty_url: "https://www.mcgill.ca/science".to_string(),
            terms: strings(&["Fall 2023"]),
            description: "An introduction.".to_string(),
            instructors: vec![Instructor { name: "Ada".to_string(), id: None }],
            prerequisites_text: Some("Prerequisite: MATH 133".to_string()),
            corequisites_text: None,
            prerequisites: strings(&["MATH133"]),
            corequisites: strings(&[]),
            leading_to: strings(&[]),
            logical_prerequisites: Some(ReqNode::Identifier("MATH133".to_string())),
            logical_corequisites: None,
            restrictions: Some("None".to_string()),
            schedule,
        }
    );
}

fn site_page(site: &[Vec<&str>], number: usize) -> Option<Vec<CourseListing>> {
    match site.get(number) {
        Some(ids) if !ids.is_empty() => Some(ids.iter().map(|id| listing(id)).collect()),
        _ => None,
    }
}

fn crawl(loader: &Loader, index: usize, site: &[Vec<&str>]) -> (Vec<Course>, Vec<usize>, Vec<bool>) {
    let term = loader.mcgill_terms[index].clone();
    let mut fetched_pages = vec![];
    let mut schedules = vec![];
    let mut step = loader.begin(&term);
    for _ in 0..1000 {
        step = match step {
            CrawlStep::FetchListings { crawl, pages } => {
                let mut outcomes = vec![];
                for page in &pages {
                    assert_eq!(page.url, format!("{}/study/{}/courses/search?page={}", BASE_URL, term, page.number));
                    fetched_pages.push(page.number);
                    outcomes.push(site_page(site, page.number));
                }
                loader.on_listings(index, crawl, loader.parse_course_listing_pages(outcomes))
            }
            CrawlStep::FetchCourses { crawl, listings, scrape_vsb } => {
                schedules.push(scrape_vsb);
                let courses = listings.iter().map(|l| course(&l.url, "title")).collect();
                loader.on_courses(&term, crawl, courses)
            }
            CrawlStep::Finish(courses) => return (courses, fetched_pages, schedules),
        };
    }
    panic!("the crawl did not finish");
}

#[test]
fn pagination_stops_at_the_first_empty_batch() {
    let site = vec![vec!["C", "A"], vec!["B"], vec!["E", "D"]];
    let loader = loader(1);
    let (courses, pages, _) = crawl(&loader, 0, &site);
    assert_eq!(pages, vec![0, 1, 1, 2, 2, 3, 3, 4]);
    assert_eq!(
        courses,
        vec![course("A", "title"), course("B", "title"), course("C", "title"), course("D", "title"), course("E", "title")]
    );

    let loader = Loader { batch_size: 20, ..loader };
    let (courses, pages, _) = crawl(&loader, 0, &site);
    assert_eq!(pages, (0..=20).chain(20..=40).collect::<Vec<usize>>());
    assert_eq!(courses.len(), 5);

    let (courses, pages, schedules) = crawl(&loader, 0, &[]);
    assert_eq!(courses, vec![]);
    assert_eq!(pages, (0..=20).collect::<Vec<usize>>());
    assert_eq!(schedules, Vec::<bool>::new());
}

#[test]
fn a_batch_with_one_listing_is_fully_processed() {
    let site = vec![vec![], vec![], vec!["A"], vec![], vec![], vec![], vec!["LOST"]];
    let loader = loader(2);
    let (courses, pages, _) = crawl(&loader, 0, &site);
    assert_eq!(pages, vec![0, 1, 2, 2, 3, 4, 4, 5, 6, 6, 7, 8, 8, 9, 10]);
    assert_eq!(courses, vec![course("A", "title"), course("LOST", "title")]);

    let site = vec![vec!["A"], vec![], vec![], vec![], vec!["NEVER"]];
    let loader = Loader { batch_size: 1, ..loader };
    let (courses, pages, _) = crawl(&loader, 0, &site);
    assert_eq!(pages, vec![0, 1, 1, 2]);
    assert_eq!(courses, vec![course("A", "title")]);
}

#[test]
fn schedules_are_fetched_for_the_last_term_only() {
    let site = vec![vec!["A"]];
    let enabled = Loader { scrape_vsb: true, ..loader(1) };
    assert_eq!(crawl(&enabled, 0, &site).2, vec![false]);
    assert_eq!(crawl(&enabled, 1, &site).2, vec![true]);
    assert_eq!(crawl(&loader(1), 1, &site).2, vec![false]);
    assert!(enabled.scrapes_schedule(1));
    assert!(!enabled.scrapes_schedule(0));
    assert!(!enabled.scrapes_schedule(2));
    assert!(!Loader { mcgill_terms: vec![], ..enabled }.scrapes_schedule(0));
}

#[test]
fn the_crawl_ends_where_page_numbers_end() {
    let loader = loader(usize::MAX);
    assert!(matches!(loader.begin("t"), CrawlStep::Finish(courses) if courses.is_empty()));
    let loader = loader_with(usize::MAX / 2 + 1);
    let step = loader.on_courses("t", TermCrawl { page: usize::MAX / 2, courses: vec![] }, vec![course("A", "a")]);
    assert!(matches!(step, CrawlStep::Finish(courses) if courses == vec![course("A", "a")]));
    let step = loader.on_courses("t", TermCrawl { page: usize::MAX / 2 + 1, courses: vec![] }, vec![course("A", "a")]);
    assert!(matches!(step, CrawlStep::Finish(courses) if courses == vec![course("A", "a")]));
}

fn loader_with(batch_size: usize) -> Loader {
    loader(batch_size)
}

#[test]
fn a_term_is_finished_by_merge_and_graph() {
    let loader = loader(1);
    let fresh = vec![
        Course { terms: strings(&["Fall 2023"]), ..with_prerequisites("A", &[]) },
        with_prerequisites("B", &[]),
    ];
    let prior = vec![Course { terms: strings(&["Fall 2022"]), ..with_prerequisites("A", &["B"]) }];
    let finished = loader.finish_term(fresh.clone(), Some(prior));
    assert_eq!(finished[0].terms, strings(&["Fall 2022", "Fall 2023"]));
    assert_eq!(finished[0].prerequisites, strings(&[]));
    assert_eq!(finished[1].leading_to, strings(&[]));

    let fresh = vec![with_prerequisites("A", &["B"]), with_prerequisites("B", &[])];
    let finished = loader.finish_term(fresh, None);
    assert_eq!(finished[1].leading_to, strings(&["A"]));
    assert_eq!(finished[0].leading_to, strings(&[]));
}

#[test]
fn a_fetch_is_retried_until_the_retries_are_used_up() {
    let mut retry = Retry::new("https://example.org/a".to_string(), 2);
    let mut sends = 0;
    loop {
        match retry.next() {
            RetryStep::Send => {
                sends += 1;
                assert_eq!(retry.failed(), RETRY_DELAY_SECS);
            }
            RetryStep::Fail(error) => {
                assert_eq!(error, CrawlError::FetchExhausted { url: "https://example.org/a".to_string() });
                assert_eq!(error.message(), "request failed after all retries: https://example.org/a");
                break;
            }
        }
    }
    assert_eq!(sends, 3);
    assert_eq!(RETRY_DELAY_SECS, 1);

    let mut retry = Retry::new("u".to_string(), 0);
    assert_eq!(retry.next(), RetryStep::Send);
    retry.failed();
    assert_eq!(retry.next(), RetryStep::Fail(CrawlError::FetchExhausted { url: "u".to_string() }));

    let mut retry = Retry::new("u".to_string(), usize::MAX);
    for _ in 0..10 {
        assert_eq!(retry.next(), RetryStep::Send);
        retry.failed();
    }
    assert_eq!(retry.next(), RetryStep::Send);
}

#[test]
fn error_messages() {
    assert_eq!(CrawlError::MissingField(RequiredField::Title).message(), "course page has no title");
    assert_eq!(CrawlError::MissingField(RequiredField::Subject).message(), "course page has no subject");
    assert_eq!(CrawlError::MissingField(RequiredField::Code).message(), "course page has no code");
    assert_eq!(CrawlError::MissingSelection.message(), "schedule has no selection node");
}

#[test]
fn seeding_decides_between_insert_and_update() {
    let stored = Course { description: "old".to_string(), terms: strings(&["Fall 2022"]), ..course("A", "Stored") };
    let fresh = Course { description: "new".to_string(), terms: strings(&["Fall 2023"]), ..course("A", "Fresh") };
    assert_eq!(seed_action(None, fresh.clone()), SeedAction::Insert(fresh.clone()));
    assert_eq!(
        seed_action(Some(stored), fresh),
        SeedAction::Update(Course {
            description: "new".to_string(),
            terms: strings(&["Fall 2022", "Fall 2023"]),
            ..course("A", "Stored")
        })
    );
}

#[test]
fn index_weights_favour_identifier_and_code() {
    assert_eq!(
        course_index(),
        vec![
            (IndexField::Subject, 4),
            (IndexField::Code, 4),
            (IndexField::Id, 3),
            (IndexField::Title, 2),
            (IndexField::Description, 1)
        ]
    );
    assert_eq!(index_weight(IndexField::Id), 3);
    assert_eq!(index_weight(IndexField::Description), 1);
}

#[test]
fn values_compare_and_copy_by_content() {
    let a = Course {
        logical_prerequisites: Some(ReqNode::And(vec![
            ReqNode::Identifier("A".to_string()),
            ReqNode::Not(Box::new(ReqNode::Or(vec![ReqNode::Identifier("B".to_string())]))),
        ])),
        ..course("X", "x")
    };
    let b = a.copy();
    assert_eq!(a, b);
    assert!(a.same(&b));
    assert_eq!(a.clone(), a);
    let c = Course {
        logical_prerequisites: Some(ReqNode::And(vec![
            ReqNode::Identifier("A".to_string()),
            ReqNode::Not(Box::new(ReqNode::Or(vec![ReqNode::Identifier("C".to_string())]))),
        ])),
        ..course("X", "x")
    };
    assert!(!a.same(&c));
    assert!(!a.same(&Course { leading_to: strings(&["Y"]), ..a.clone() }));
}
