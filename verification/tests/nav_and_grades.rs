use canvas_tui::grades::extract_grades;
use canvas_tui::textutil::strip_html;
use canvas_tui::models::{Config, Course, Enrollment};
use canvas_tui::nav::{spinner_char, AssignmentSort, Tab, UnifiedViewMode};

#[test]
fn tabs_cycle_forward_and_back() {
    assert_eq!(Tab::Dashboard.next(), Tab::Courses);
    assert_eq!(Tab::Courses.next(), Tab::Assignments);
    assert_eq!(Tab::Assignments.next(), Tab::Announcements);
    assert_eq!(Tab::Announcements.next(), Tab::Dashboard);
    assert_eq!(Tab::Dashboard.prev(), Tab::Announcements);
    assert_eq!(Tab::Announcements.prev(), Tab::Assignments);
}

#[test]
fn tab_titles() {
    assert_eq!(Tab::Dashboard.title(), "Dashboard");
    assert_eq!(Tab::Courses.title(), "Courses");
    assert_eq!(Tab::Assignments.title(), "Schedule");
    assert_eq!(Tab::Announcements.title(), "Announcements");
}

#[test]
fn sort_modes_cycle() {
    assert_eq!(AssignmentSort::DueDateAsc.next(), AssignmentSort::DueDateDesc);
    assert_eq!(AssignmentSort::DueDateDesc.next(), AssignmentSort::Course);
    assert_eq!(AssignmentSort::Course.next(), AssignmentSort::Status);
    assert_eq!(AssignmentSort::Status.next(), AssignmentSort::DueDateAsc);
}

#[test]
fn sort_labels() {
    assert_eq!(AssignmentSort::DueDateAsc.label(), "Due ↑");
    assert_eq!(AssignmentSort::DueDateDesc.label(), "Due ↓");
    assert_eq!(AssignmentSort::Course.label(), "Course");
    assert_eq!(AssignmentSort::Status.label(), "Status");
}

#[test]
fn view_mode_toggles() {
    assert_eq!(UnifiedViewMode::CalendarView.toggle(), UnifiedViewMode::ListView);
    assert_eq!(UnifiedViewMode::ListView.toggle(), UnifiedViewMode::CalendarView);
}

#[test]
fn spinner_cycles_its_frames() {
    assert_eq!(spinner_char(0), "⠋");
    assert_eq!(spinner_char(1), "⠙");
    assert_eq!(spinner_char(9), "⠏");
    assert_eq!(spinner_char(10), spinner_char(0));
    assert_eq!(spinner_char(23), spinner_char(3));
}

#[test]
fn config_holds_connection_settings() {
    let c = Config {
        canvas_url: String::from("https://school.example.com"),
        api_token: String::from("token"),
    };
    assert_eq!(c.canvas_url, "https://school.example.com");
    assert_eq!(c.api_token, "token");
}

fn enrollment(kind: Option<&str>, current: Option<u64>, grade: Option<&str>) -> Enrollment {
    Enrollment {
        enrollment_type: kind.map(String::from),
        computed_current_score_tenths: current,
        computed_current_grade: grade.map(String::from),
        computed_final_score_tenths: None,
        computed_final_grade: None,
    }
}

#[test]
fn grades_come_from_the_student_enrollment() {
    let courses = vec![
        Course {
            id: 1,
            name: Some(String::from("Biology")),
            course_code: None,
            enrollments: Some(vec![
                enrollment(Some("teacher"), Some(0), None),
                enrollment(Some("student"), Some(923), Some("A-")),
            ]),
            total_students: None,
        },
        Course {
            id: 2,
            name: None,
            course_code: None,
            enrollments: Some(vec![enrollment(Some("student"), None, None)]),
            total_students: None,
        },
        Course {
            id: 3,
            name: Some(String::from("No enrollments")),
            course_code: None,
            enrollments: None,
            total_students: None,
        },
        Course {
            id: 4,
            name: Some(String::from("Observer only")),
            course_code: None,
            enrollments: Some(vec![enrollment(Some("observer"), Some(1), None)]),
            total_students: None,
        },
    ];
    let grades = extract_grades(&courses);
    assert_eq!(grades.len(), 2);
    assert_eq!(grades[0].course_id, 1);
    assert_eq!(grades[0].course_name, "Biology");
    assert_eq!(grades[0].current_score_tenths, Some(923));
    assert_eq!(grades[0].current_grade.as_deref(), Some("A-"));
    assert_eq!(grades[1].course_id, 2);
    assert_eq!(grades[1].course_name, "Unnamed");
}

#[test]
fn grades_empty_for_no_courses() {
    assert_eq!(extract_grades(&Vec::new()).len(), 0);
}

#[test]
fn strip_html_removes_tags_and_decodes_entities() {
    assert_eq!(strip_html("<p>Hello</p>"), " Hello ");
    assert_eq!(strip_html("a &amp; b"), "a & b");
    assert_eq!(strip_html("&lt;tag&gt;"), "<tag>");
    assert_eq!(strip_html("it&#39;s &quot;fine&quot;"), "it's \"fine\"");
    assert_eq!(strip_html("one&nbsp;two"), "one two");
    assert_eq!(strip_html("plain"), "plain");
    assert_eq!(strip_html(""), "");
}
