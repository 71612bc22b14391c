use mcgill_courses::course::Instructor;
use mcgill_courses::error::{CrawlError, RequiredField};
use mcgill_courses::extract::{
    decode_term, extract_course_listings, extract_course_page, lists, BlockNode, CoursePageFields,
    Selection, TimeBlockNode,
};
use mcgill_courses::listing::{CourseListing, CoursePage, Requirements};
use mcgill_courses::schedule::{Block, Schedule, TimeBlock};
use mcgill_courses::timestamp::{
    date_entry, deserialize_timestamp, parse_i64, resolve_instant, MapEntry, RawTimestamp,
    TimestampError,
};

fn some(text: &str) -> Option<String> {
    Some(text.to_string())
}

fn chars(text: &str) -> Vec<char> {
    text.chars().collect()
}

#[test]
fn term_decoding() {
    assert_eq!(decode_term("202401"), some("Winter 2024"));
    assert_eq!(decode_term("202305"), some("Summer 2023"));
    assert_eq!(decode_term("202309"), some("Fall 2023"));
    for season in ["00", "02", "03", "04", "06", "07", "08", "10", "11", "12", "1", "9 ", "ab"] {
        assert_eq!(decode_term(&format!("2024{season}")), None);
    }
}

#[test]
fn term_decoding_edges() {
    assert_eq!(decode_term(""), None);
    assert_eq!(decode_term("20240"), None);
    assert_eq!(decode_term("2024010"), some("Winter 2024"));
    assert_eq!(decode_term("abcd09"), some("Fall abcd"));
    assert_eq!(decode_term("二〇二四01"), some("Winter 二〇二四"));
    assert_eq!(decode_term("202400105"), None);
}

#[test]
fn identifier_lists_are_matched_by_whole_parts() {
    assert!(lists(&chars("1,2,3"), &chars("2")));
    assert!(lists(&chars("1,2,3"), &chars("1")));
    assert!(lists(&chars("1,2,3"), &chars("3")));
    assert!(!lists(&chars("12,23"), &chars("2")));
    assert!(!lists(&chars("12,23"), &chars("1")));
    assert!(!lists(&chars("1, 2"), &chars("2")));
    assert!(lists(&chars("01"), &chars("01")));
    assert!(!lists(&chars("01"), &chars("1")));
    assert!(lists(&chars(""), &chars("")));
    assert!(lists(&chars("1,"), &chars("")));
    assert!(lists(&chars(",1"), &chars("")));
    assert!(!lists(&chars("1"), &chars("")));
    assert!(!lists(&chars(""), &chars("1")));
    assert!(!lists(&chars("1,2"), &chars("1,2")));
}

fn block(ids: Option<&str>) -> BlockNode {
    BlockNode {
        campus: some("Downtown"),
        disp: some("Lec 001"),
        location: None,
        timeblockids: ids.map(String::from),
    }
}

fn timeblock(id: Option<&str>, day: &str) -> TimeBlockNode {
    TimeBlockNode { id: id.map(String::from), day: some(day), t1: some("515"), t2: None }
}

fn time(day: &str) -> TimeBlock {
    TimeBlock { day: some(day), t1: some("515"), t2: None }
}

#[test]
fn a_schedule_is_read_from_a_selection() {
    let selection = Selection {
        blocks: vec![block(Some("2,10")), block(Some("1")), block(None), block(Some("7"))],
        timeblocks: vec![
            timeblock(Some("1"), "2"),
            timeblock(Some("2"), "3"),
            timeblock(None, "4"),
            timeblock(Some("10"), "5"),
            timeblock(Some("2"), "6"),
        ],
        selection: Some(some("202309")),
    };
    let expected = |times: Vec<TimeBlock>| Block {
        campus: some("Downtown"),
        display: some("Lec 001"),
        location: None,
        timeblocks: Some(times),
    };
    assert_eq!(
        Schedule::from_selection(&selection),
        Ok(Schedule {
            blocks: Some(vec![
                expected(vec![time("3"), time("5"), time("6")]),
                expected(vec![time("2")]),
                expected(vec![time("4")]),
                expected(vec![]),
            ]),
            term: some("Fall 2023"),
        })
    );
}

#[test]
fn a_schedule_needs_its_selection_node() {
    let mut selection = Selection { blocks: vec![], timeblocks: vec![], selection: None };
    assert_eq!(Schedule::from_selection(&selection), Err(CrawlError::MissingSelection));
    selection.selection = Some(None);
    assert_eq!(Schedule::from_selection(&selection), Ok(Schedule { blocks: Some(vec![]), term: None }));
    selection.selection = Some(some("202413"));
    assert_eq!(Schedule::from_selection(&selection), Ok(Schedule { blocks: Some(vec![]), term: None }));
}

fn fields() -> CoursePageFields {
    CoursePageFields {
        title: some("Foundations of Programming"),
        credits: None,
        subject: some("COMP"),
        code: some("202"),
        faculty_url: None,
        description: None,
        instructors: vec![],
        requirements: None,
    }
}

#[test]
fn a_course_page_needs_title_subject_and_code() {
    assert_eq!(
        extract_course_page(fields()),
        Ok(CoursePage {
            title: "Foundations of Programming".to_string(),
            credits: String::new(),
            subject: "COMP".to_string(),
            code: "202".to_string(),
            faculty_url: String::new(),
            description: String::new(),
            instructors: vec![],
            requirements: Requirements::default(),
        })
    );
    assert_eq!(
        extract_course_page(CoursePageFields { title: None, subject: None, ..fields() }),
        Err(CrawlError::MissingField(RequiredField::Title))
    );
    assert_eq!(
        extract_course_page(CoursePageFields { subject: None, code: None, ..fields() }),
        Err(CrawlError::MissingField(RequiredField::Subject))
    );
    assert_eq!(
        extract_course_page(CoursePageFields { code: None, ..fields() }),
        Err(CrawlError::MissingField(RequiredField::Code))
    );
}

#[test]
fn a_course_page_keeps_what_was_selected() {
    let requirements = Requirements {
        restrictions: some("Not open to students who have taken COMP 208"),
        ..Requirements::default()
    };
    let page = extract_course_page(CoursePageFields {
        title: some(""),
        credits: some("3"),
        faculty_url: some("/science"),
        description: some("Text"),
        instructors: vec![Instructor { name: "Ada".to_string(), id: some("ada") }],
        requirements: Some(requirements.clone()),
        ..fields()
    })
    .unwrap();
    assert_eq!(page.title, "");
    assert_eq!(page.credits, "3");
    assert_eq!(page.faculty_url, "/science");
    assert_eq!(page.description, "Text");
    assert_eq!(page.instructors, vec![Instructor { name: "Ada".to_string(), id: some("ada") }]);
    assert_eq!(page.requirements, requirements);
}

#[test]
fn a_page_without_rows_has_no_listings() {
    let row = CourseListing {
        subject: "COMP".to_string(),
        code: "202".to_string(),
        department: String::new(),
        faculty: String::new(),
        level: String::new(),
        terms: vec![],
        url: "/a".to_string(),
    };
    assert_eq!(extract_course_listings(vec![]), None);
    assert_eq!(extract_course_listings(vec![row.clone()]), Some(vec![row]));
}

fn entry(key: &str, number_long: Option<&str>) -> MapEntry {
    MapEntry { key: key.to_string(), number_long: number_long.map(String::from) }
}

#[test]
fn timestamps_in_seconds() {
    assert_eq!(deserialize_timestamp(&RawTimestamp::Seconds(0)), Ok(0));
    assert_eq!(deserialize_timestamp(&RawTimestamp::Seconds(1_431_648_000)), Ok(1_431_648_000_000));
    assert_eq!(
        deserialize_timestamp(&RawTimestamp::Seconds(i64::MAX as u64 + 1)),
        Err(TimestampError::Conversion)
    );
    assert_eq!(deserialize_timestamp(&RawTimestamp::Seconds(u64::MAX)), Err(TimestampError::Conversion));
    assert_eq!(
        deserialize_timestamp(&RawTimestamp::Seconds(i64::MAX as u64)),
        Err(TimestampError::OutOfRange)
    );
}

#[test]
fn timestamps_in_maps() {
    let read = |entries: Vec<MapEntry>| deserialize_timestamp(&RawTimestamp::Document(entries));
    assert_eq!(read(vec![entry("$date", Some("1431648000123"))]), Ok(1_431_648_000_123));
    assert_eq!(read(vec![entry("$date", Some("-1"))]), Ok(-1));
    assert_eq!(read(vec![entry("$date", Some("+5"))]), Ok(5));
    assert_eq!(read(vec![]), Err(TimestampError::Missing));
    assert_eq!(read(vec![entry("date", Some("1"))]), Err(TimestampError::Missing));
    assert_eq!(read(vec![entry("$date", None)]), Err(TimestampError::Missing));
    assert_eq!(read(vec![entry("$date", Some("12x"))]), Err(TimestampError::Missing));
    assert_eq!(read(vec![entry("$date", Some(" 12"))]), Err(TimestampError::Missing));
    assert_eq!(read(vec![entry("$date", Some("99999999999999999999"))]), Err(TimestampError::Missing));
    assert_eq!(
        read(vec![entry("$date", Some("9223372036854775807"))]),
        Err(TimestampError::OutOfRange)
    );
    assert_eq!(read(vec![entry("$date", Some("1")), entry("other", Some("2"))]), Ok(1));
    assert_eq!(read(vec![entry("$date", Some("1")), entry("$date", Some("2"))]), Ok(2));
    assert_eq!(read(vec![entry("$date", Some("1")), entry("$date", None)]), Err(TimestampError::Missing));
}

#[test]
fn timestamp_steps() {
    assert_eq!(resolve_instant(Some(7)), Ok(7));
    assert_eq!(resolve_instant(None), Err(TimestampError::OutOfRange));
    assert_eq!(date_entry(Some(1), "$date", Some(2)), Some(2));
    assert_eq!(date_entry(Some(1), "$date", None), None);
    assert_eq!(date_entry(Some(1), "date", Some(2)), Some(1));
    assert_eq!(date_entry(None, "$numberLong", Some(2)), None);
}

#[test]
fn integers_are_read_as_the_standard_library_reads_them() {
    for text in [
        "", "0", "-0", "+0", "-", "+", "+-1", "--1", "7", "-7", "+7", "00012", "-00012", "12a", "a12",
        " 1", "1 ", "1_000", "1.0", "0x10", "١٢", "９", "9223372036854775807", "9223372036854775808",
        "+9223372036854775807", "-9223372036854775808", "-9223372036854775809",
        "99999999999999999999999", "-99999999999999999999999", "000000000000000000000000000001",
        "922337203685477580", "-922337203685477581", "1431648000123",
    ] {
        assert_eq!(parse_i64(text), text.parse::<i64>().ok(), "reading {text:?}");
    }
    assert_eq!(parse_i64("-9223372036854775808"), Some(i64::MIN));
    assert_eq!(parse_i64("9223372036854775807"), Some(i64::MAX));
    assert_eq!(parse_i64("42"), Some(42));
    assert_eq!(parse_i64("4 2"), None);
}

#[test]
fn timestamp_error_messages() {
    assert_eq!(TimestampError::Conversion.message(), "Failed to convert u64");
    assert_eq!(TimestampError::Missing.message(), "Failed to get timestamp from map");
    assert_eq!(TimestampError::OutOfRange.message(), "Failed to get unique conversion result");
}
