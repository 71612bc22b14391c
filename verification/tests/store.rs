use mcgill_courses::course::{Course, Instructor};
use mcgill_courses::db::{
    admit_review, course_index, Db, DbError, DeleteResult, IndexField, UpdateResult,
};
use mcgill_courses::review::Review;
use mcgill_courses::schedule::Schedule;

fn course(id: &str, title: &str) -> Course {
    Course {
        id: id.to_string(),
        title: title.to_string(),
        subject: id[..4].to_string(),
        code: id[4..].to_string(),
        ..Course::default()
    }
}

fn catalog(n: usize) -> Vec<Course> {
    (0..n).map(|i| course(&format!("COMP{}", 200 + i), &format!("Course {i}"))).collect()
}

fn instructor(name: &str) -> Instructor {
    Instructor { name: name.to_string(), id: None }
}

fn term_schedule(term: &str) -> Schedule {
    Schedule { blocks: Some(vec![]), term: Some(term.to_string()) }
}

#[test]
fn course_seeding_is_accurate() {
    let mut db = Db::new();
    db.seed(vec![course("COMP202", "Foundations of Programming"), course("MATH240", "Discrete Structures")]);
    assert_eq!(db.courses(None, None).len(), 2);
    assert_eq!(db.courses(None, None)[0], course("COMP202", "Foundations of Programming"));
    assert_eq!(db.courses(None, None)[1], course("MATH240", "Discrete Structures"));
}

#[test]
fn course_seeding_does_not_insert_duplicates() {
    let mut db = Db::new();
    db.seed((0..10).map(|_| Course::default()).collect::<Vec<Course>>());
    assert_eq!(db.courses(None, None).len(), 1);
    assert_eq!(db.courses(None, None), vec![Course::default()]);
}

#[test]
fn courses_get_updated_when_seeding() {
    let mut db = Db::new();
    let mut first = course("COMP202", "Foundations of Programming");
    first.description = "old".to_string();
    first.credits = "3".to_string();
    first.terms = vec!["Fall 2022".to_string(), "Winter 2023".to_string()];
    first.instructors = vec![instructor("Ada"), instructor("Grace")];
    first.schedule = Some(vec![term_schedule("Fall 2022")]);
    first.prerequisites = vec!["COMP100".to_string()];
    db.seed(vec![first.clone(), course("MATH240", "Discrete Structures")]);
    assert_eq!(db.courses(None, None).len(), 2);

    let mut update = course("COMP202", "A new title that seeding ignores");
    update.description = "new".to_string();
    update.credits = "4".to_string();
    update.url = "https://example.org/comp-202".to_string();
    update.faculty_url = "https://example.org/science".to_string();
    update.restrictions = Some("Not open to all".to_string());
    update.terms = vec!["Winter 2023".to_string(), "Fall 2023".to_string()];
    update.instructors = vec![instructor("Grace"), instructor("Edsger")];
    update.schedule = Some(vec![term_schedule("Fall 2023"), term_schedule("Fall 2022")]);
    update.prerequisites = vec![];
    update.corequisites = vec!["MATH240".to_string()];
    update.level = "Graduate".to_string();
    db.seed(vec![update, course("PHYS101", "Mechanics")]);

    let courses = db.courses(None, None);
    assert_eq!(courses.len(), 3);

    let mut expected = first;
    expected.description = "new".to_string();
    expected.credits = "4".to_string();
    expected.url = "https://example.org/comp-202".to_string();
    expected.faculty_url = "https://example.org/science".to_string();
    expected.restrictions = Some("Not open to all".to_string());
    expected.prerequisites = vec![];
    expected.corequisites = vec!["MATH240".to_string()];
    expected.terms =
        vec!["Fall 2022".to_string(), "Winter 2023".to_string(), "Fall 2023".to_string()];
    expected.instructors = vec![instructor("Ada"), instructor("Grace"), instructor("Edsger")];
    expected.schedule = Some(vec![term_schedule("Fall 2022"), term_schedule("Fall 2023")]);
    assert_eq!(
        courses,
        vec![expected, course("MATH240", "Discrete Structures"), course("PHYS101", "Mechanics")]
    );
}

#[test]
fn seeding_twice_is_seeding_once() {
    let mut a = course("COMP202", "Foundations");
    a.terms = vec!["Fall 2022".to_string(), "Fall 2022".to_string()];
    a.instructors = vec![instructor("Ada")];
    let mut b = course("COMP202", "Foundations, again");
    b.description = "later".to_string();
    b.terms = vec!["Winter 2023".to_string()];
    b.schedule = Some(vec![term_schedule("Winter 2023")]);
    let records = vec![a, course("MATH240", "Discrete Structures"), b];

    let mut once = Db::new();
    once.seed(records.clone());
    let mut twice = Db::new();
    twice.seed(records.clone());
    twice.seed(records);
    assert_eq!(once.courses(None, None), twice.courses(None, None));
    assert_eq!(once.courses(None, None).len(), 2);
    assert_eq!(once.courses(None, None)[0].description, "later");
    assert_eq!(once.courses(None, None)[0].title, "Foundations");
}

#[test]
fn seeding_unions_an_absent_schedule() {
    let mut db = Db::new();
    let mut stored = course("COMP202", "Foundations");
    stored.schedule = Some(vec![term_schedule("Fall 2022")]);
    db.seed(vec![stored.clone()]);
    db.seed(vec![course("COMP202", "Foundations")]);
    assert_eq!(db.courses(None, None)[0].schedule, stored.schedule);

    let mut fresh = Db::new();
    fresh.seed(vec![course("COMP202", "Foundations")]);
    fresh.seed(vec![course("COMP202", "Foundations")]);
    assert_eq!(fresh.courses(None, None)[0].schedule, None);
}

#[test]
fn add_course_refuses_a_stored_identifier() {
    let mut db = Db::new();
    assert_eq!(db.add_course(Course::default()), Ok(()));
    assert_eq!(db.courses(None, None).len(), 1);
    assert_eq!(db.add_course(Course::default()), Err(DbError::DuplicateCourse));
    assert_eq!(db.courses(None, None).len(), 1);
}

#[test]
fn get_course_by_id() {
    let mut db = Db::new();
    db.seed(catalog(83));
    let courses = db.courses(None, None);
    assert_eq!(courses.len(), 83);
    let first = courses.first().unwrap();
    assert_eq!(db.find_course_by_id(&first.id).unwrap(), *first);
    assert_eq!(db.find_course_by_id("COMP250").unwrap().title, "Course 50");
    assert_eq!(db.find_course_by_id("COMP999"), None);
}

#[test]
fn get_courses_with_limit() {
    let mut db = Db::new();
    db.seed(catalog(83));
    assert_eq!(db.courses(Some(10), None).len(), 10);
    assert_eq!(db.courses(Some(10), None), catalog(83)[..10].to_vec());
}

#[test]
fn get_courses_with_offset() {
    let mut db = Db::new();
    db.seed(catalog(83));
    assert_eq!(db.courses(None, Some(20)).len(), 63);
    assert_eq!(db.courses(None, Some(20)), catalog(83)[20..].to_vec());
}

#[test]
fn courses_window_edges() {
    let mut db = Db::new();
    db.seed(catalog(5));
    assert_eq!(db.courses(Some(0), None).len(), 5);
    assert_eq!(db.courses(Some(-2), None), catalog(5)[..2].to_vec());
    assert_eq!(db.courses(Some(i64::MIN), Some(1)), catalog(5)[1..].to_vec());
    assert_eq!(db.courses(Some(2), Some(4)), catalog(5)[4..].to_vec());
    assert_eq!(db.courses(Some(2), Some(2)), catalog(5)[2..4].to_vec());
    assert_eq!(db.courses(None, Some(5)).len(), 0);
    assert_eq!(db.courses(Some(3), Some(u64::MAX)).len(), 0);
}

fn reviews_of_three_users() -> Vec<Review> {
    vec![
        Review {
            content: "foo".into(),
            course_id: "MATH240".into(),
            instructor: "test".into(),
            rating: 5,
            user_id: "1".into(),
            ..Default::default()
        },
        Review {
            content: "foo".into(),
            course_id: "MATH240".into(),
            instructor: "test".into(),
            rating: 5,
            user_id: "2".into(),
            ..Default::default()
        },
        Review {
            content: "foo".into(),
            course_id: "MATH240".into(),
            instructor: "test".into(),
            rating: 5,
            user_id: "3".into(),
            ..Default::default()
        },
    ]
}

#[test]
fn add_reviews() {
    let mut db = Db::new();
    let reviews = reviews_of_three_users();
    for review in &reviews {
        db.add_review(review.clone()).unwrap();
    }
    assert_eq!(db.reviews().len(), 3);
    assert_eq!(db.reviews(), reviews);
}

#[test]
fn find_reviews_by_course_id() {
    let mut db = Db::new();
    let reviews = vec![
        Review {
            content: "foo".into(),
            user_id: "1".into(),
            instructor: "test".into(),
            rating: 5,
            course_id: "MATH240".into(),
            ..Default::default()
        },
        Review {
            content: "foo".into(),
            user_id: "2".into(),
            instructor: "test".into(),
            rating: 5,
            course_id: "MATH240".into(),
            ..Default::default()
        },
        Review {
            content: "foo".into(),
            user_id: "3".into(),
            instructor: "test".into(),
            rating: 5,
            course_id: "MATH340".into(),
            ..Default::default()
        },
    ];
    for review in &reviews {
        db.add_review(review.clone()).unwrap();
    }
    assert_eq!(db.reviews().len(), 3);
    assert_eq!(db.reviews(), reviews);
    assert_eq!(
        db.find_reviews_by_course_id("MATH240"),
        vec![
            Review {
                content: "foo".into(),
                user_id: "1".into(),
                instructor: "test".into(),
                rating: 5,
                course_id: "MATH240".into(),
                ..Default::default()
            },
            Review {
                content: "foo".into(),
                course_id: "MATH240".into(),
                instructor: "test".into(),
                rating: 5,
                user_id: "2".into(),
                ..Default::default()
            }
        ]
    )
}

#[test]
fn find_reviews_by_user_id() {
    let mut db = Db::new();
    let reviews = vec![
        Review {
            content: "foo".into(),
            user_id: "1".into(),
            course_id: "MATH240".into(),
            ..Default::default()
        },
        Review {
            content: "foo".into(),
            user_id: "2".into(),
            course_id: "MATH240".into(),
            ..Default::default()
        },
        Review {
            content: "foo".into(),
            user_id: "3".into(),
            course_id: "MATH340".into(),
            ..Default::default()
        },
    ];
    for review in &reviews {
        db.add_review(review.clone()).unwrap();
    }
    assert_eq!(db.reviews().len(), 3);
    assert_eq!(db.reviews(), reviews);
    assert_eq!(
        db.find_reviews_by_user_id("2"),
        vec![Review {
            content: "foo".into(),
            user_id: "2".into(),
            instructor: "".into(),
            rating: 0,
            course_id: "MATH240".into(),
            ..Default::default()
        },]
    )
}

#[test]
fn dont_add_multiple_reviews_per_user() {
    let mut db = Db::new();
    let review =
        Review { user_id: "1".into(), course_id: "MATH240".into(), ..Default::default() };
    db.add_review(review.clone()).unwrap();
    assert!(db.add_review(review).is_err());
}

#[test]
fn second_review_is_rejected_and_first_kept() {
    let mut db = Db::new();
    let first = Review {
        content: "first".into(),
        rating: 5,
        user_id: "1".into(),
        course_id: "MATH240".into(),
        ..Default::default()
    };
    let second = Review {
        content: "second".into(),
        rating: 1,
        user_id: "1".into(),
        course_id: "MATH240".into(),
        ..Default::default()
    };
    assert_eq!(db.add_review(first.clone()), Ok(()));
    assert_eq!(db.add_review(second), Err(DbError::DuplicateReview));
    assert_eq!(db.reviews(), vec![first.clone()]);
    assert_eq!(db.find_review("MATH240", "1"), Some(first));
}

#[test]
fn update_review() {
    let mut db = Db::new();
    db.add_review(Review {
        content: "foo".into(),
        course_id: "MATH240".into(),
        instructor: "bar".into(),
        rating: 5,
        user_id: "1".into(),
        timestamp: 1_700_000_000_000,
    })
    .unwrap();

    let timestamp = 1_700_000_000_123;

    assert_eq!(
        db.update_review(Review {
            content: "bar".into(),
            course_id: "MATH240".into(),
            instructor: "foo".into(),
            rating: 4,
            user_id: "1".into(),
            timestamp
        })
        .modified_count,
        1
    );

    assert_eq!(
        db.update_review(Review {
            content: "bar".into(),
            course_id: "MATH240".into(),
            instructor: "foo".into(),
            rating: 4,
            user_id: "2".into(),
            ..Default::default()
        })
        .modified_count,
        0
    );

    let review = db.find_review("MATH240", "1").unwrap();

    assert_eq!(review.content, "bar");
    assert_eq!(review.instructor, "foo");
    assert_eq!(review.rating, 4);
    assert_eq!(review.timestamp, timestamp);
}

#[test]
fn update_review_counts_matches_and_changes() {
    let mut db = Db::new();
    let review = Review {
        content: "foo".into(),
        course_id: "MATH240".into(),
        user_id: "1".into(),
        ..Default::default()
    };
    db.add_review(review.clone()).unwrap();
    assert_eq!(db.update_review(review.clone()), UpdateResult { matched_count: 1, modified_count: 0 });
    assert_eq!(
        db.update_review(Review { rating: 3, ..review.clone() }),
        UpdateResult { matched_count: 1, modified_count: 1 }
    );
    assert_eq!(
        db.update_review(Review { user_id: "9".into(), ..review }),
        UpdateResult { matched_count: 0, modified_count: 0 }
    );
}

#[test]
fn delete_review() {
    let mut db = Db::new();
    db.add_review(Review {
        content: "foo".into(),
        course_id: "MATH240".into(),
        user_id: "1".into(),
        ..Default::default()
    })
    .unwrap();
    assert_eq!(db.delete_review("MATH240", "2").deleted_count, 0);
    assert_eq!(db.delete_review("MATH240", "1"), DeleteResult { deleted_count: 1 });
    assert_eq!(db.find_review("MATH240", "1"), None);
}

#[test]
fn delete_review_then_add_again() {
    let mut db = Db::new();
    db.add_review(Review {
        content: "foo".into(),
        course_id: "MATH240".into(),
        user_id: "1".into(),
        ..Default::default()
    })
    .unwrap();
    assert_eq!(db.delete_review("MATH240", "1").deleted_count, 1);
    assert!(db
        .add_review(Review {
            content: "foo".into(),
            course_id: "MATH240".into(),
            user_id: "1".into(),
            ..Default::default()
        })
        .is_ok());
}

#[test]
fn delete_review_keeps_the_others_in_order() {
    let mut db = Db::new();
    let reviews = reviews_of_three_users();
    for review in &reviews {
        db.add_review(review.clone()).unwrap();
    }
    assert_eq!(db.delete_review("MATH240", "2").deleted_count, 1);
    assert_eq!(db.reviews(), vec![reviews[0].clone(), reviews[2].clone()]);
}

#[test]
fn a_review_is_admitted_where_none_is_stored() {
    assert_eq!(admit_review(&None), Ok(()));
    assert_eq!(admit_review(&Some(Review::default())), Err(DbError::DuplicateReview));
    assert_eq!(DbError::DuplicateReview.message(), "Cannot review this course twice");
    assert_eq!(
        DbError::DuplicateCourse.message(),
        "A course with this identifier is already stored"
    );
}

#[test]
fn seeding_builds_the_same_index_each_time() {
    let mut db = Db::new();
    assert_eq!(db.indexes(), vec![]);
    db.seed(vec![]);
    assert_eq!(db.indexes(), course_index());
    db.seed(catalog(3));
    assert_eq!(
        db.indexes(),
        vec![
            (IndexField::Subject, 4),
            (IndexField::Code, 4),
            (IndexField::Id, 3),
            (IndexField::Title, 2),
            (IndexField::Description, 1)
        ]
    );
    db.add_review(Review::default()).unwrap();
    assert_eq!(db.indexes(), course_index());
}
