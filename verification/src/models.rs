//! Core data model.
//!
//! Values mirror what the remote API serves, reduced to plain data that the
//! verified logic reads: timestamps are Unix epoch seconds, and point scores
//! are kept in tenths of a point (85 tenths = 8.5 points), which is the
//! precision the status strings display.

use vstd::prelude::*;

verus! {

// ─── Courses ────────────────────────────────────────────────────────────

/// One enrollment record of a course, as far as grades are concerned.
#[derive(Debug, Clone, PartialEq)]
pub struct Enrollment {
    /// Role tag, e.g. "student".
    pub enrollment_type: Option<String>,
    /// Current score in tenths of a percent point.
    pub computed_current_score_tenths: Option<u64>,
    pub computed_current_grade: Option<String>,
    /// Final score in tenths of a percent point.
    pub computed_final_score_tenths: Option<u64>,
    pub computed_final_grade: Option<String>,
}

#[derive(Debug, Clone, PartialEq)]
pub struct Course {
    pub id: u64,
    pub name: Option<String>,
    pub course_code: Option<String>,
    pub enrollments: Option<Vec<Enrollment>>,
    pub total_students: Option<u64>,
}

/// Grade summary for the student role of one course.
#[derive(Debug, Clone, PartialEq)]
pub struct CourseGrade {
    pub course_id: u64,
    pub course_name: String,
    pub current_score_tenths: Option<u64>,
    pub current_grade: Option<String>,
    pub final_score_tenths: Option<u64>,
    pub final_grade: Option<String>,
}

// ─── Assignments ────────────────────────────────────────────────────────

/// Grading state of a submission.
#[derive(Debug, Clone, Copy, PartialEq, Eq, Structural)]
pub enum WorkflowState {
    Unsubmitted,
    Submitted,
    Graded,
}

#[derive(Debug, Clone, PartialEq)]
pub struct Submission {
    pub id: Option<u64>,
    pub assignment_id: Option<u64>,
    /// Score in tenths of a point.
    pub score_tenths: Option<u64>,
    pub grade: Option<String>,
    pub submitted_at: Option<i64>,
    pub graded_at: Option<i64>,
    pub workflow_state: WorkflowState,
    pub late: Option<bool>,
    pub missing: Option<bool>,
    pub attempt: Option<u64>,
}

#[derive(Debug, Clone, PartialEq)]
pub struct Assignment {
    pub id: u64,
    pub name: Option<String>,
    pub due_at: Option<i64>,
    pub lock_at: Option<i64>,
    pub unlock_at: Option<i64>,
    /// Points possible in tenths of a point.
    pub points_possible_tenths: Option<u64>,
    pub course_id: Option<u64>,
    /// Raw submission-type tags as the API sends them.
    pub submission_types: Option<Vec<String>>,
    /// The caller's own latest submission, when it was requested.
    pub submission: Option<Submission>,
}

// ─── Calendar ───────────────────────────────────────────────────────────

/// Embedded assignment reference inside a calendar event.
#[derive(Debug, Clone, PartialEq)]
pub struct AssignmentEventDetail {
    pub id: Option<u64>,
    pub name: Option<String>,
    pub due_at: Option<i64>,
    pub points_possible_tenths: Option<u64>,
}

#[derive(Debug, Clone, PartialEq)]
pub struct CalendarEvent {
    pub id: u64,
    pub title: Option<String>,
    pub start_at: Option<i64>,
    pub end_at: Option<i64>,
    pub context_code: Option<String>,
    /// Type tag of the event itself; "assignment" marks a due-date event.
    pub event_type: Option<String>,
    pub assignment: Option<AssignmentEventDetail>,
}

/// Which source a merged timeline entry stands for.
#[derive(Debug, Clone, Copy, PartialEq, Eq, Structural)]
pub enum CalendarItemKind {
    Event,
    Assignment,
}

/// One normalized, merged timeline entry. Derived, never persisted.
#[derive(Debug, Clone, PartialEq)]
pub struct CalendarItem {
    pub start_at: Option<i64>,
    pub title: String,
    pub kind: CalendarItemKind,
    pub course_name: Option<String>,
    pub status: Option<String>,
    /// Backing assignment id, when the entry stands for an assignment.
    pub assignment_id: Option<u64>,
}

// ─── Announcements ──────────────────────────────────────────────────────

#[derive(Debug, Clone, PartialEq)]
pub struct DiscussionTopic {
    pub id: u64,
    pub title: Option<String>,
    pub message: Option<String>,
    pub posted_at: Option<i64>,
    pub user_name: Option<String>,
    pub context_code: Option<String>,
}

// ─── User / Profile ─────────────────────────────────────────────────────

#[derive(Debug, Clone, PartialEq)]
pub struct User {
    pub id: u64,
    pub name: Option<String>,
    pub short_name: Option<String>,
    pub login_id: Option<String>,
    pub email: Option<String>,
    pub avatar_url: Option<String>,
}

// ─── File upload ────────────────────────────────────────────────────────

/// Upload target returned when an upload slot is requested: where to send
/// the bytes, which form fields the storage endpoint demands verbatim, and
/// the field name the bytes go under.
#[derive(Debug, Clone, PartialEq)]
pub struct FileUploadSlot {
    pub upload_url: String,
    pub upload_params: Vec<(String, String)>,
    pub file_param: Option<String>,
}

/// Minimal file object returned after a successful upload.
#[derive(Debug, Clone, PartialEq)]
pub struct UploadedFile {
    pub id: u64,
    pub filename: Option<String>,
    pub size: Option<u64>,
    pub content_type: Option<String>,
}

// ─── Pagination ─────────────────────────────────────────────────────────

/// Named pagination links parsed from a `Link` response header.
#[derive(Debug, Clone, PartialEq)]
pub struct PaginationLinks {
    pub current: Option<String>,
    pub next: Option<String>,
    pub prev: Option<String>,
    pub first: Option<String>,
    pub last: Option<String>,
}

impl PaginationLinks {
    pub fn empty() -> (r: PaginationLinks)
        ensures
            r.current is None,
            r.next is None,
            r.prev is None,
            r.first is None,
            r.last is None,
    {
        PaginationLinks { current: None, next: None, prev: None, first: None, last: None }
    }
}

// ─── Snapshots ──────────────────────────────────────────────────────────

/// Whole-application snapshot that is persisted between runs.
#[derive(Debug, Clone, PartialEq)]
pub struct CacheData {
    /// Completion time of the sync pass, epoch seconds.
    pub cached_at: i64,
    pub user: Option<User>,
    pub courses: Vec<Course>,
    /// (course name, its assignments), in API order.
    pub assignments: Vec<(String, Vec<Assignment>)>,
    pub calendar_events: Vec<CalendarEvent>,
    pub announcements: Vec<DiscussionTopic>,
}

/// Result of one background sync pass: the snapshot data plus an optional
/// non-fatal error message for the status bar.
#[derive(Debug, Clone, PartialEq)]
pub struct FetchResult {
    pub user: Option<User>,
    pub courses: Vec<Course>,
    pub assignments: Vec<(String, Vec<Assignment>)>,
    pub calendar_events: Vec<CalendarEvent>,
    pub announcements: Vec<DiscussionTopic>,
    /// Completion time of the pass, epoch seconds.
    pub fetched_at: i64,
    pub error: Option<String>,
}

/// Message a finished submission task hands back to the foreground.
#[derive(Debug, Clone, PartialEq)]
pub struct SubmitResult {
    pub success: bool,
    pub message: String,
}

// ─── Configuration ──────────────────────────────────────────────────────

/// Connection settings: base URL of the remote API and the bearer token.
#[derive(Debug, Clone, PartialEq)]
pub struct Config {
    pub canvas_url: String,
    pub api_token: String,
}

} // verus!
