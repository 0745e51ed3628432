use canvas_tui::merge::{derive_status, find_today_calendar_idx, get_assignment_by_id, merge_calendar_items};
use canvas_tui::models::{
    Assignment, AssignmentEventDetail, CalendarEvent, CalendarItemKind, Submission, WorkflowState,
};

fn assignment(id: u64, due_at: Option<i64>) -> Assignment {
    Assignment {
        id,
        name: Some(format!("Assignment {id}")),
        due_at,
        lock_at: None,
        unlock_at: None,
        points_possible_tenths: None,
        course_id: Some(1),
        submission_types: None,
        submission: None,
    }
}

fn submission(state: WorkflowState, score_tenths: Option<u64>, missing: Option<bool>) -> Submission {
    Submission {
        id: Some(7),
        assignment_id: Some(1),
        score_tenths,
        grade: None,
        submitted_at: None,
        graded_at: None,
        workflow_state: state,
        late: None,
        missing,
        attempt: None,
    }
}

fn event(id: u64, start_at: Option<i64>, aid: Option<u64>) -> CalendarEvent {
    CalendarEvent {
        id,
        title: Some(format!("Event {id}")),
        start_at,
        end_at: None,
        context_code: None,
        event_type: None,
        assignment: aid.map(|a| AssignmentEventDetail {
            id: Some(a),
            name: None,
            due_at: None,
            points_possible_tenths: None,
        }),
    }
}

// "2020-01-01" as epoch seconds lies well before this reference "now".
const PAST_DUE: i64 = 1577836800;
const NOW: i64 = 1700000000;

#[test]
fn status_past_due_without_submission() {
    let a = assignment(1, Some(PAST_DUE));
    assert_eq!(derive_status(&a, NOW).as_deref(), Some("Past due"));
}

#[test]
fn status_past_due_unsubmitted_not_missing() {
    let mut a = assignment(1, Some(PAST_DUE));
    a.submission = Some(submission(WorkflowState::Unsubmitted, None, Some(false)));
    assert_eq!(derive_status(&a, NOW).as_deref(), Some("Past due"));
}

#[test]
fn status_missing_when_flagged() {
    let mut a = assignment(1, Some(PAST_DUE));
    a.submission = Some(submission(WorkflowState::Unsubmitted, None, Some(true)));
    assert_eq!(derive_status(&a, NOW).as_deref(), Some("Missing!"));
}

#[test]
fn status_graded_with_score_over_points() {
    let mut a = assignment(1, Some(PAST_DUE));
    a.points_possible_tenths = Some(100);
    a.submission = Some(submission(WorkflowState::Graded, Some(85), None));
    assert_eq!(derive_status(&a, NOW).as_deref(), Some("8.5/10"));
}

#[test]
fn status_graded_without_score() {
    let mut a = assignment(1, None);
    a.submission = Some(submission(WorkflowState::Graded, None, None));
    assert_eq!(derive_status(&a, NOW).as_deref(), Some("Graded"));
}

#[test]
fn status_submitted() {
    let mut a = assignment(1, Some(PAST_DUE));
    a.submission = Some(submission(WorkflowState::Submitted, None, None));
    assert_eq!(derive_status(&a, NOW).as_deref(), Some("Submitted"));
}

#[test]
fn status_none_for_future_due_date() {
    let a = assignment(1, Some(NOW + 86400));
    assert_eq!(derive_status(&a, NOW), None);
}

#[test]
fn merge_keeps_events_and_synthesizes_due_dates() {
    let events = vec![event(10, Some(NOW + 100), None)];
    let groups = vec![(String::from("Biology"), vec![assignment(1, Some(NOW + 50))])];
    let items = merge_calendar_items(&events, &groups, NOW);
    assert_eq!(items.len(), 2);
    // ascending by start time
    assert_eq!(items[0].start_at, Some(NOW + 50));
    assert_eq!(items[0].title, "Assignment 1");
    assert_eq!(items[0].kind, CalendarItemKind::Assignment);
    assert_eq!(items[0].course_name.as_deref(), Some("Biology"));
    assert_eq!(items[0].assignment_id, Some(1));
    assert_eq!(items[1].title, "Event 10");
    assert_eq!(items[1].kind, CalendarItemKind::Event);
}

#[test]
fn merge_never_synthesizes_a_covered_assignment() {
    // the event already references assignment 1: no second entry for it
    let events = vec![event(10, Some(NOW + 100), Some(1))];
    let groups = vec![(
        String::from("Biology"),
        vec![assignment(1, Some(NOW + 50)), assignment(2, Some(NOW + 60))],
    )];
    let items = merge_calendar_items(&events, &groups, NOW);
    assert_eq!(items.len(), 2);
    let with_id_1: Vec<_> = items.iter().filter(|it| it.assignment_id == Some(1)).collect();
    assert_eq!(with_id_1.len(), 1);
    assert_eq!(with_id_1[0].title, "Event 10");
}

#[test]
fn merge_skips_assignments_without_due_date() {
    let groups = vec![(String::from("Biology"), vec![assignment(1, None)])];
    let items = merge_calendar_items(&Vec::new(), &groups, NOW);
    assert_eq!(items.len(), 0);
}

#[test]
fn merge_is_idempotent_on_the_same_inputs() {
    let events = vec![
        event(10, Some(NOW + 100), Some(4)),
        event(11, None, None),
        event(12, Some(NOW - 5), None),
    ];
    let groups = vec![
        (
            String::from("Biology"),
            vec![assignment(1, Some(NOW + 50)), assignment(4, Some(NOW + 70))],
        ),
        (String::from("Chemistry"), vec![assignment(2, Some(PAST_DUE))]),
    ];
    let once = merge_calendar_items(&events, &groups, NOW);
    let twice = merge_calendar_items(&events, &groups, NOW);
    assert_eq!(once, twice);
}

#[test]
fn merge_sorts_undated_entries_to_the_tail_in_order() {
    let events = vec![
        event(21, None, None),
        event(22, Some(NOW + 9), None),
        event(23, None, None),
    ];
    let items = merge_calendar_items(&events, &Vec::new(), NOW);
    assert_eq!(items.len(), 3);
    assert_eq!(items[0].title, "Event 22");
    // the two undated entries keep their original relative order at the tail
    assert_eq!(items[1].title, "Event 21");
    assert_eq!(items[2].title, "Event 23");
}

#[test]
fn merge_titles_default_when_absent() {
    let mut e = event(30, Some(NOW), None);
    e.title = None;
    let mut a = assignment(3, Some(NOW + 1));
    a.name = None;
    let groups = vec![(String::from("C"), vec![a])];
    let items = merge_calendar_items(&vec![e], &groups, NOW);
    assert_eq!(items[0].title, "Untitled");
    assert_eq!(items[1].title, "Unnamed");
}

#[test]
fn merge_marks_assignment_typed_events() {
    let mut e = event(31, Some(NOW), None);
    e.event_type = Some(String::from("assignment"));
    let items = merge_calendar_items(&vec![e], &Vec::new(), NOW);
    assert_eq!(items[0].kind, CalendarItemKind::Assignment);
}

#[test]
fn find_today_lands_on_first_upcoming_entry() {
    let events = vec![
        event(1, Some(NOW - 100), None),
        event(2, Some(NOW - 10), None),
        event(3, Some(NOW + 10), None),
    ];
    let items = merge_calendar_items(&events, &Vec::new(), NOW);
    assert_eq!(find_today_calendar_idx(&items, NOW), 2);
}

#[test]
fn find_today_lands_on_last_when_all_past() {
    let events = vec![event(1, Some(NOW - 100), None), event(2, Some(NOW - 10), None)];
    let items = merge_calendar_items(&events, &Vec::new(), NOW);
    assert_eq!(find_today_calendar_idx(&items, NOW), 1);
}

#[test]
fn find_today_on_empty_timeline() {
    assert_eq!(find_today_calendar_idx(&Vec::new(), NOW), 0);
}

#[test]
fn merge_keeps_only_the_first_event_per_assignment_id() {
    // two events embed the same assignment id: the first wins, the second
    // is dropped, so the backing id appears exactly once
    let events = vec![
        event(10, Some(NOW + 100), Some(7)),
        event(11, Some(NOW + 200), Some(7)),
        event(12, Some(NOW + 300), None),
    ];
    let items = merge_calendar_items(&events, &Vec::new(), NOW);
    assert_eq!(items.len(), 2);
    let with_id_7: Vec<_> = items.iter().filter(|it| it.assignment_id == Some(7)).collect();
    assert_eq!(with_id_7.len(), 1);
    assert_eq!(with_id_7[0].title, "Event 10");
}

#[test]
fn merge_synthesizes_a_duplicated_assignment_id_once() {
    // the same assignment id listed under two courses: only the first
    // earns a synthesized entry
    let groups = vec![
        (String::from("Biology"), vec![assignment(5, Some(NOW + 10))]),
        (String::from("Chemistry"), vec![assignment(5, Some(NOW + 20))]),
    ];
    let items = merge_calendar_items(&Vec::new(), &groups, NOW);
    assert_eq!(items.len(), 1);
    assert_eq!(items[0].course_name.as_deref(), Some("Biology"));
}

#[test]
fn merged_backing_ids_are_unique() {
    let events = vec![
        event(20, Some(NOW + 1), Some(1)),
        event(21, Some(NOW + 2), Some(1)),
        event(22, None, None),
    ];
    let groups = vec![(
        String::from("Biology"),
        vec![
            assignment(1, Some(NOW + 3)),
            assignment(2, Some(NOW + 4)),
            assignment(2, Some(NOW + 5)),
        ],
    )];
    let items = merge_calendar_items(&events, &groups, NOW);
    let mut ids: Vec<u64> = items.iter().filter_map(|it| it.assignment_id).collect();
    let before = ids.len();
    ids.sort_unstable();
    ids.dedup();
    assert_eq!(ids.len(), before);
    assert_eq!(ids, vec![1, 2]);
}

#[test]
fn assignment_lookup_finds_the_first_match() {
    let groups = vec![
        (String::from("Biology"), vec![assignment(1, None), assignment(2, Some(NOW))]),
        (String::from("Chemistry"), vec![assignment(2, Some(NOW + 1)), assignment(3, None)]),
    ];
    let (name, a) = get_assignment_by_id(&groups, 2).expect("id 2 is present");
    assert_eq!(name, "Biology");
    assert_eq!(a.due_at, Some(NOW));
    let (name3, a3) = get_assignment_by_id(&groups, 3).expect("id 3 is present");
    assert_eq!(name3, "Chemistry");
    assert_eq!(a3.id, 3);
}

#[test]
fn assignment_lookup_misses_cleanly() {
    let groups = vec![(String::from("Biology"), vec![assignment(1, None)])];
    assert!(get_assignment_by_id(&groups, 9).is_none());
    assert!(get_assignment_by_id(&Vec::new(), 1).is_none());
}
