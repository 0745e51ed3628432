use canvas_tui::error::CanvasError;
use canvas_tui::models::CalendarEvent;
use canvas_tui::models::{Course, DiscussionTopic, User};
use canvas_tui::sync::{SyncAction, SyncGate, SyncPass};
use canvas_tui::CALENDAR_WINDOW_SECS;

const NOW: i64 = 1700000000;

fn user() -> User {
    User {
        id: 5,
        name: Some(String::from("Sam")),
        short_name: None,
        login_id: None,
        email: None,
        avatar_url: None,
    }
}

fn course(id: u64, name: &str) -> Course {
    Course {
        id,
        name: Some(String::from(name)),
        course_code: None,
        enrollments: None,
        total_students: None,
    }
}

fn assignment(id: u64) -> canvas_tui::models::Assignment {
    canvas_tui::models::Assignment {
        id,
        name: None,
        due_at: None,
        lock_at: None,
        unlock_at: None,
        points_possible_tenths: None,
        course_id: None,
        submission_types: None,
        submission: None,
    }
}

#[test]
fn gate_is_single_flight() {
    let mut gate = SyncGate::new();
    assert!(!gate.is_in_flight());
    assert!(gate.try_start());
    assert!(gate.is_in_flight());
    // a second start while one is outstanding has no observable effect
    assert!(!gate.try_start());
    assert!(gate.is_in_flight());
    assert!(!gate.try_start());
    gate.finish();
    assert!(!gate.is_in_flight());
    assert!(gate.try_start());
}

#[test]
fn pass_walks_its_steps_in_order() {
    let (pass, act) = SyncPass::begin(NOW);
    assert!(matches!(act, SyncAction::FetchProfile));

    let (pass, act) = pass.on_profile(Ok(user()));
    assert!(matches!(act, SyncAction::FetchCourses));

    let courses = vec![course(1, "Biology"), course(2, "Chemistry")];
    let (pass, act) = pass.on_courses(Ok(courses));
    assert_eq!(act, SyncAction::FetchAssignments { course_id: 1 });

    // the first course's assignments arrive
    let (pass, act) = pass.on_assignments(Ok(vec![assignment(10)]));
    assert_eq!(act, SyncAction::FetchAssignments { course_id: 2 });

    // the second course's fetch fails: swallowed, the pass goes on
    let (pass, act) = pass.on_assignments(Err(CanvasError::Unauthorized));
    match &act {
        SyncAction::FetchCalendarEvents { start_secs, end_secs, context_codes } => {
            assert_eq!(*start_secs, NOW);
            assert_eq!(*end_secs, NOW + CALENDAR_WINDOW_SECS);
            assert_eq!(context_codes, &vec![String::from("course_1"), String::from("course_2")]);
        }
        other => panic!("expected FetchCalendarEvents, got {:?}", other),
    }

    let (pass, act) = pass.on_calendar_events(Ok(Vec::new()));
    assert!(matches!(act, SyncAction::FetchCalendarDeadlines { .. }));

    let (pass, act) = pass.on_calendar_deadlines(Ok(Vec::new()));
    assert!(matches!(act, SyncAction::FetchAnnouncements { .. }));

    let anns: Vec<DiscussionTopic> = Vec::new();
    let (pass, act) = pass.on_announcements(Ok(anns), NOW + 60);
    let snapshot = match act {
        SyncAction::WriteCache { snapshot } => snapshot,
        other => panic!("expected WriteCache, got {:?}", other),
    };
    assert_eq!(snapshot.cached_at, NOW + 60);
    assert_eq!(snapshot.user.as_ref().map(|u| u.id), Some(5));
    assert_eq!(snapshot.courses.len(), 2);
    // the failed course is omitted; partial data is kept
    assert_eq!(snapshot.assignments.len(), 1);
    assert_eq!(snapshot.assignments[0].0, "Biology");

    let result = pass.on_cache_written(snapshot, None);
    assert_eq!(result.fetched_at, NOW + 60);
    assert_eq!(result.error, None);
    assert_eq!(result.assignments.len(), 1);
}

#[test]
fn profile_failure_aborts_the_pass() {
    let (pass, _) = SyncPass::begin(NOW);
    let (_, act) = pass.on_profile(Err(CanvasError::Unauthorized));
    match act {
        SyncAction::Finished { result } => {
            assert_eq!(
                result.error.as_deref(),
                Some("fetching profile: Unauthorized - check your API token")
            );
            assert_eq!(result.courses.len(), 0);
            assert_eq!(result.fetched_at, NOW);
        }
        other => panic!("expected Finished, got {:?}", other),
    }
}

#[test]
fn course_failure_aborts_with_profile_kept() {
    let (pass, _) = SyncPass::begin(NOW);
    let (pass, _) = pass.on_profile(Ok(user()));
    let (_, act) = pass.on_courses(Err(CanvasError::Api {
        status: 500,
        message: String::from("boom"),
    }));
    match act {
        SyncAction::Finished { result } => {
            assert_eq!(result.error.as_deref(), Some("fetching courses: HTTP 500: boom"));
            assert_eq!(result.user.map(|u| u.id), Some(5));
        }
        other => panic!("expected Finished, got {:?}", other),
    }
}

#[test]
fn no_courses_skips_straight_to_calendar() {
    let (pass, _) = SyncPass::begin(NOW);
    let (pass, _) = pass.on_profile(Ok(user()));
    let (_, act) = pass.on_courses(Ok(Vec::new()));
    match act {
        SyncAction::FetchCalendarEvents { context_codes, .. } => {
            assert_eq!(context_codes.len(), 0);
        }
        other => panic!("expected FetchCalendarEvents, got {:?}", other),
    }
}

#[test]
fn calendar_failure_is_swallowed_and_skips_deadlines() {
    let (pass, _) = SyncPass::begin(NOW);
    let (pass, _) = pass.on_profile(Ok(user()));
    let (pass, _) = pass.on_courses(Ok(vec![course(1, "Biology")]));
    let (pass, _) = pass.on_assignments(Ok(Vec::new()));
    let (pass, act) = pass.on_calendar_events(Err(CanvasError::Forbidden));
    assert!(matches!(act, SyncAction::FetchAnnouncements { .. }));
    let (pass, act) = pass.on_announcements(Err(CanvasError::Forbidden), NOW + 5);
    let snapshot = match act {
        SyncAction::WriteCache { snapshot } => snapshot,
        other => panic!("expected WriteCache, got {:?}", other),
    };
    assert_eq!(snapshot.calendar_events.len(), 0);
    assert_eq!(snapshot.announcements.len(), 0);
    let result = pass.on_cache_written(snapshot, None);
    assert_eq!(result.error, None);
}

fn ev(id: u64, start: Option<i64>) -> CalendarEvent {
        CalendarEvent {
            id,
            title: None,
            start_at: start,
            end_at: None,
            context_code: None,
            event_type: None,
            assignment: None,
    }
}

#[test]
fn deadline_events_are_combined_and_sorted() {
    let (pass, _) = SyncPass::begin(NOW);
    let (pass, _) = pass.on_profile(Ok(user()));
    let (pass, _) = pass.on_courses(Ok(Vec::new()));
    let (pass, _) = pass.on_calendar_events(Ok(vec![ev(1, Some(NOW + 30)), ev(2, None)]));
    let (pass, _) = pass.on_calendar_deadlines(Ok(vec![ev(3, Some(NOW + 10))]));
    let (_, act) = pass.on_announcements(Ok(Vec::new()), NOW + 1);
    let snapshot = match act {
        SyncAction::WriteCache { snapshot } => snapshot,
        other => panic!("expected WriteCache, got {:?}", other),
    };
    // undated events compare lowest; dated ones ascend
    let ids: Vec<u64> = snapshot.calendar_events.iter().map(|e| e.id).collect();
    assert_eq!(ids, vec![2, 3, 1]);
}

#[test]
fn cache_write_failure_is_reported_but_not_fatal() {
    let (pass, _) = SyncPass::begin(NOW);
    let (pass, _) = pass.on_profile(Ok(user()));
    let (pass, _) = pass.on_courses(Ok(Vec::new()));
    let (pass, _) = pass.on_calendar_events(Ok(Vec::new()));
    let (pass, _) = pass.on_calendar_deadlines(Ok(Vec::new()));
    let (pass, act) = pass.on_announcements(Ok(Vec::new()), NOW + 2);
    let snapshot = match act {
        SyncAction::WriteCache { snapshot } => snapshot,
        other => panic!("expected WriteCache, got {:?}", other),
    };
    let result = pass.on_cache_written(
        snapshot,
        Some(CanvasError::Other { message: String::from("disk full") }),
    );
    assert_eq!(result.error.as_deref(), Some("saving cache: disk full"));
    assert_eq!(result.fetched_at, NOW + 2);
}
