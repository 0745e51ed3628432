use canvas_tui::cachefmt::{load_cache_string, save_cache_string};
use canvas_tui::models::{
    Assignment, AssignmentEventDetail, CacheData, CalendarEvent, Course, DiscussionTopic,
    Enrollment, Submission, User, WorkflowState,
};

fn full_snapshot() -> CacheData {
    CacheData {
        cached_at: 1700000123,
        user: Some(User {
            id: 7,
            name: Some(String::from("Sam \"the\" Student")),
            short_name: Some(String::from("Sam")),
            login_id: None,
            email: Some(String::from("sam@example.com")),
            avatar_url: None,
        }),
        courses: vec![
            Course {
                id: 1,
                name: Some(String::from("Biology\nAdvanced")),
                course_code: Some(String::from("BIO-301")),
                enrollments: Some(vec![Enrollment {
                    enrollment_type: Some(String::from("student")),
                    computed_current_score_tenths: Some(915),
                    computed_current_grade: Some(String::from("A-")),
                    computed_final_score_tenths: None,
                    computed_final_grade: None,
                }]),
                total_students: Some(42),
            },
            Course {
                id: 2,
                name: None,
                course_code: None,
                enrollments: None,
                total_students: None,
            },
        ],
        assignments: vec![(
            String::from("Biology\nAdvanced"),
            vec![Assignment {
                id: 10,
                name: Some(String::from("Lab \\ report")),
                due_at: Some(-12345),
                lock_at: None,
                unlock_at: Some(1700000000),
                points_possible_tenths: Some(100),
                course_id: Some(1),
                submission_types: Some(vec![
                    String::from("online_text_entry"),
                    String::from("online_upload"),
                ]),
                submission: Some(Submission {
                    id: Some(99),
                    assignment_id: Some(10),
                    score_tenths: Some(85),
                    grade: Some(String::from("B")),
                    submitted_at: Some(1699990000),
                    graded_at: None,
                    workflow_state: WorkflowState::Graded,
                    late: Some(false),
                    missing: None,
                    attempt: Some(2),
                }),
            }],
        )],
        calendar_events: vec![CalendarEvent {
            id: 500,
            title: Some(String::from("Midterm\treview")),
            start_at: Some(1700050000),
            end_at: None,
            context_code: Some(String::from("course_1")),
            event_type: Some(String::from("assignment")),
            assignment: Some(AssignmentEventDetail {
                id: Some(10),
                name: None,
                due_at: Some(1700050000),
                points_possible_tenths: None,
            }),
        }],
        announcements: vec![DiscussionTopic {
            id: 900,
            title: Some(String::from("Welcome!")),
            message: Some(String::from("<p>Hello &amp; welcome</p>")),
            posted_at: Some(1699000000),
            user_name: Some(String::from("Dr. Smith")),
            context_code: Some(String::from("course_1")),
        }],
    }
}

#[test]
fn cache_round_trip_preserves_every_field() {
    let snapshot = full_snapshot();
    let text = save_cache_string(&snapshot);
    let back = load_cache_string(text.as_str()).expect("canonical text must load");
    assert_eq!(back, snapshot);
}

#[test]
fn cache_round_trip_of_an_empty_snapshot() {
    let snapshot = CacheData {
        cached_at: 0,
        user: None,
        courses: Vec::new(),
        assignments: Vec::new(),
        calendar_events: Vec::new(),
        announcements: Vec::new(),
    };
    let text = save_cache_string(&snapshot);
    let back = load_cache_string(text.as_str()).expect("canonical text must load");
    assert_eq!(back, snapshot);
}

#[test]
fn cache_text_is_one_json_document() {
    let snapshot = full_snapshot();
    let text = save_cache_string(&snapshot);
    assert!(text.starts_with("{\"cached_at\":1700000123,\"user\":{\"id\":7,"));
    assert!(text.ends_with("}"));
}

#[test]
fn garbage_loads_as_no_cache() {
    assert_eq!(load_cache_string(""), None);
    assert_eq!(load_cache_string("{}"), None);
    assert_eq!(load_cache_string("not json"), None);
    let snapshot = full_snapshot();
    let mut text = save_cache_string(&snapshot);
    text.push(' ');
    // trailing garbage after the document is refused
    assert_eq!(load_cache_string(text.as_str()), None);
}
