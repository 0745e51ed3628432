//! Navigation state shared with the interface: tabs, the schedule's sort
//! modes and its two view modes, and the loading spinner's frames.

use vstd::prelude::*;

verus! {

// ─── Tabs ───────────────────────────────────────────────────────────────

#[derive(Debug, Clone, Copy, PartialEq, Eq, Structural)]
pub enum Tab {
    Dashboard,
    Courses,
    Assignments,
    Announcements,
}

impl Tab {
    pub fn title(&self) -> (r: &'static str)
        ensures
            *self is Dashboard ==> r@ == "Dashboard"@,
            *self is Courses ==> r@ == "Courses"@,
            *self is Assignments ==> r@ == "Schedule"@,
            *self is Announcements ==> r@ == "Announcements"@,
    {
        match self {
            Tab::Dashboard => "Dashboard",
            Tab::Courses => "Courses",
            Tab::Assignments => "Schedule",
            Tab::Announcements => "Announcements",
        }
    }

    /// The tab to the right, wrapping around.
    pub fn next(&self) -> (r: Tab)
        ensures
            *self is Dashboard ==> r is Courses,
            *self is Courses ==> r is Assignments,
            *self is Assignments ==> r is Announcements,
            *self is Announcements ==> r is Dashboard,
    {
        match self {
            Tab::Dashboard => Tab::Courses,
            Tab::Courses => Tab::Assignments,
            Tab::Assignments => Tab::Announcements,
            Tab::Announcements => Tab::Dashboard,
        }
    }

    /// The tab to the left, wrapping around.
    pub fn prev(&self) -> (r: Tab)
        ensures
            *self is Dashboard ==> r is Announcements,
            *self is Courses ==> r is Dashboard,
            *self is Assignments ==> r is Courses,
            *self is Announcements ==> r is Assignments,
    {
        match self {
            Tab::Dashboard => Tab::Announcements,
            Tab::Courses => Tab::Dashboard,
            Tab::Assignments => Tab::Courses,
            Tab::Announcements => Tab::Assignments,
        }
    }
}

// ─── Schedule sort modes ────────────────────────────────────────────────

#[derive(Debug, Clone, Copy, PartialEq, Eq, Structural)]
pub enum AssignmentSort {
    DueDateAsc,
    DueDateDesc,
    Course,
    Status,
}

impl AssignmentSort {
    /// The next sort mode in the cycle.
    pub fn next(self) -> (r: AssignmentSort)
        ensures
            self is DueDateAsc ==> r is DueDateDesc,
            self is DueDateDesc ==> r is Course,
            self is Course ==> r is Status,
            self is Status ==> r is DueDateAsc,
    {
        match self {
            AssignmentSort::DueDateAsc => AssignmentSort::DueDateDesc,
            AssignmentSort::DueDateDesc => AssignmentSort::Course,
            AssignmentSort::Course => AssignmentSort::Status,
            AssignmentSort::Status => AssignmentSort::DueDateAsc,
        }
    }

    pub fn label(self) -> (r: &'static str)
        ensures
            self is DueDateAsc ==> r@ == "Due ↑"@,
            self is DueDateDesc ==> r@ == "Due ↓"@,
            self is Course ==> r@ == "Course"@,
            self is Status ==> r@ == "Status"@,
    {
        match self {
            AssignmentSort::DueDateAsc => "Due ↑",
            AssignmentSort::DueDateDesc => "Due ↓",
            AssignmentSort::Course => "Course",
            AssignmentSort::Status => "Status",
        }
    }
}

// ─── Schedule view modes ────────────────────────────────────────────────

#[derive(Debug, Clone, Copy, PartialEq, Eq, Structural)]
pub enum UnifiedViewMode {
    CalendarView,
    ListView,
}

impl UnifiedViewMode {
    /// The other view mode.
    pub fn toggle(self) -> (r: UnifiedViewMode)
        ensures
            self is CalendarView ==> r is ListView,
            self is ListView ==> r is CalendarView,
            r != self,
    {
        match self {
            UnifiedViewMode::CalendarView => UnifiedViewMode::ListView,
            UnifiedViewMode::ListView => UnifiedViewMode::CalendarView,
        }
    }
}

// ─── Spinner ────────────────────────────────────────────────────────────

/// The spinner frame shown at the given frame count: ten frames cycling.
pub open spec fn spinner_frame(frame: u64) -> Seq<char> {
    let k = frame % 10;
    if k == 0 {
        "⠋"@
    } else if k == 1 {
        "⠙"@
    } else if k == 2 {
        "⠹"@
    } else if k == 3 {
        "⠸"@
    } else if k == 4 {
        "⠼"@
    } else if k == 5 {
        "⠴"@
    } else if k == 6 {
        "⠦"@
    } else if k == 7 {
        "⠧"@
    } else if k == 8 {
        "⠇"@
    } else {
        "⠏"@
    }
}

pub fn spinner_char(frame: u64) -> (r: &'static str)
    ensures
        r@ == spinner_frame(frame),
{
    match frame % 10 {
        0 => "⠋",
        1 => "⠙",
        2 => "⠹",
        3 => "⠸",
        4 => "⠼",
        5 => "⠴",
        6 => "⠦",
        7 => "⠧",
        8 => "⠇",
        _ => "⠏",
    }
}

} // verus!
