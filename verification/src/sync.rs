//! One background synchronization pass, as a state machine, and the
//! single-flight rule that at most one pass is ever outstanding.
//!
//! The machine decides; the surrounding shell performs. Each step hands
//! back one `SyncAction`; the shell carries it out (an HTTP fetch, the
//! cache write) and reports what came of it, driving the next step. The
//! pass runs strictly in order: profile, courses, per-course assignments,
//! calendar, announcements, cache write. Profile and course-list failures
//! abort the pass; the later steps swallow their own failures.

use vstd::prelude::*;

use crate::error::{error_text, CanvasError};
use crate::merge::view_opt_string;
use crate::models::{
    Assignment, CacheData, CalendarEvent, Course, DiscussionTopic, FetchResult, User,
};
use crate::strutil::{dec_digits, u64_to_string};
use crate::CALENDAR_WINDOW_SECS;

verus! {

// ─── Single-flight ──────────────────────────────────────────────────────

/// The foreground's claim on at most one outstanding sync pass.
pub struct SyncGate {
    pub in_flight: bool,
}

impl SyncGate {
    pub fn new() -> (r: SyncGate)
        ensures
            !r.in_flight,
    {
        SyncGate { in_flight: false }
    }

    /// Ask to start a pass. While one is outstanding nothing happens: the
    /// gate is left exactly as it was and no second pass starts.
    pub fn try_start(&mut self) -> (started: bool)
        ensures
            old(self).in_flight ==> *final(self) == *old(self) && !started,
            !old(self).in_flight ==> final(self).in_flight && started,
    {
        if self.in_flight {
            false
        } else {
            self.in_flight = true;
            true
        }
    }

    /// The outstanding pass's result was collected; a new pass may start.
    pub fn finish(&mut self)
        ensures
            !final(self).in_flight,
    {
        self.in_flight = false;
    }

    pub fn is_in_flight(&self) -> (r: bool)
        ensures
            r == self.in_flight,
    {
        self.in_flight
    }
}

// ─── Sorting calendar events ────────────────────────────────────────────

/// Event order: by start time, events with no start time first (the order
/// an optional time compares under).
pub open spec fn ev_le(a: CalendarEvent, b: CalendarEvent) -> bool {
    match a.start_at {
        None => true,
        Some(x) => match b.start_at {
            None => false,
            Some(y) => x <= y,
        },
    }
}

pub open spec fn evs_sorted(s: Seq<CalendarEvent>) -> bool {
    forall|i: int, j: int| 0 <= i < j < s.len() ==> ev_le(s[i], s[j])
}

/// Where a stable insertion places `e`.
pub open spec fn insert_ev(e: CalendarEvent, s: Seq<CalendarEvent>) -> Seq<CalendarEvent>
    decreases s.len(),
{
    if s.len() == 0 {
        seq![e]
    } else if ev_le(e, s[0]) {
        seq![e] + s
    } else {
        seq![s[0]] + insert_ev(e, s.drop_first())
    }
}

/// Stable sort of the combined event list, defined entry by entry.
pub open spec fn sort_evs(s: Seq<CalendarEvent>) -> Seq<CalendarEvent>
    decreases s.len(),
{
    if s.len() == 0 {
        Seq::empty()
    } else {
        insert_ev(s[0], sort_evs(s.drop_first()))
    }
}

proof fn lemma_insert_ev_multiset(e: CalendarEvent, s: Seq<CalendarEvent>)
    ensures
        insert_ev(e, s).to_multiset() == s.to_multiset().insert(e),
    decreases s.len(),
{
    broadcast use vstd::seq_lib::group_to_multiset_ensures;

    if s.len() == 0 {
        assert(seq![e] =~= Seq::<CalendarEvent>::empty().push(e));
        assert(Seq::<CalendarEvent>::empty().push(e).to_multiset()
            =~= vstd::multiset::Multiset::empty().insert(e));
        assert(s.to_multiset() =~= vstd::multiset::Multiset::empty());
    } else if ev_le(e, s[0]) {
        vstd::seq_lib::lemma_multiset_commutative(seq![e], s);
        assert(seq![e].to_multiset() =~= vstd::multiset::Multiset::empty().insert(e));
        assert((seq![e] + s).to_multiset() =~= s.to_multiset().insert(e));
    } else {
        lemma_insert_ev_multiset(e, s.drop_first());
        let ri = insert_ev(e, s.drop_first());
        vstd::seq_lib::lemma_multiset_commutative(seq![s[0]], ri);
        assert(seq![s[0]].to_multiset() =~= vstd::multiset::Multiset::empty().insert(s[0]));
        assert((seq![s[0]] + ri).to_multiset() =~= ri.to_multiset().insert(s[0]));
        assert(s =~= seq![s[0]] + s.drop_first());
        vstd::seq_lib::lemma_multiset_commutative(seq![s[0]], s.drop_first());
        assert(s.to_multiset() =~= s.drop_first().to_multiset().insert(s[0]));
        assert(ri.to_multiset().insert(s[0]) =~= s.drop_first().to_multiset().insert(e).insert(
            s[0],
        ));
        assert(s.to_multiset().insert(e) =~= s.drop_first().to_multiset().insert(s[0]).insert(e));
        assert(s.drop_first().to_multiset().insert(e).insert(s[0])
            =~= s.drop_first().to_multiset().insert(s[0]).insert(e));
    }
}

proof fn lemma_insert_ev_contains(e: CalendarEvent, s: Seq<CalendarEvent>)
    ensures
        forall|x: CalendarEvent|
            #[trigger] insert_ev(e, s).contains(x) <==> (x == e || s.contains(x)),
{
    broadcast use vstd::seq_lib::group_to_multiset_ensures;
    broadcast use vstd::multiset::group_multiset_axioms;

    lemma_insert_ev_multiset(e, s);
    assert forall|x: CalendarEvent|
        #[trigger] insert_ev(e, s).contains(x) <==> (x == e || s.contains(x)) by {
        assert(insert_ev(e, s).contains(x) <==> insert_ev(e, s).to_multiset().count(x) > 0);
        assert(s.contains(x) <==> s.to_multiset().count(x) > 0);
        assert(s.to_multiset().insert(e).count(x) == s.to_multiset().count(x) + (if x == e {
            1int
        } else {
            0int
        }));
    }
}

proof fn lemma_insert_ev_keeps_sorted(e: CalendarEvent, s: Seq<CalendarEvent>)
    requires
        evs_sorted(s),
    ensures
        evs_sorted(insert_ev(e, s)),
        insert_ev(e, s).len() == s.len() + 1,
    decreases s.len(),
{
    if s.len() == 0 {
    } else if ev_le(e, s[0]) {
        let r = seq![e] + s;
        assert forall|i: int, j: int| 0 <= i < j < r.len() implies ev_le(r[i], r[j]) by {
            if i == 0 && j > 1 {
                assert(ev_le(s[0], s[j - 1]));
            }
        }
    } else {
        let rest = s.drop_first();
        assert(evs_sorted(rest)) by {
            assert(forall|i: int| 0 <= i < rest.len() ==> rest[i] == s[i + 1]);
        }
        lemma_insert_ev_keeps_sorted(e, rest);
        lemma_insert_ev_contains(e, rest);
        let ri = insert_ev(e, rest);
        let r = seq![s[0]] + ri;
        assert(ev_le(s[0], e));
        assert forall|i: int, j: int| 0 <= i < j < r.len() implies ev_le(r[i], r[j]) by {
            if i == 0 {
                assert(r[j] == ri[j - 1]);
                assert(ri.contains(ri[j - 1]));
                if ri[j - 1] == e {
                } else {
                    assert(rest.contains(ri[j - 1]));
                    let k = choose|k: int| 0 <= k < rest.len() && rest[k] == ri[j - 1];
                    assert(rest[k] == s[k + 1]);
                    assert(ev_le(s[0], s[k + 1]));
                }
            } else {
                assert(r[i] == ri[i - 1] && r[j] == ri[j - 1]);
            }
        }
    }
}

/// The sorted event list is ascending and permutes the input.
pub proof fn lemma_sort_evs(s: Seq<CalendarEvent>)
    ensures
        evs_sorted(sort_evs(s)),
        sort_evs(s).len() == s.len(),
        sort_evs(s).to_multiset() == s.to_multiset(),
    decreases s.len(),
{
    broadcast use vstd::seq_lib::group_to_multiset_ensures;

    if s.len() == 0 {
    } else {
        let rest = s.drop_first();
        lemma_sort_evs(rest);
        lemma_insert_ev_keeps_sorted(s[0], sort_evs(rest));
        lemma_insert_ev_multiset(s[0], sort_evs(rest));
        assert(s =~= seq![s[0]] + rest);
        vstd::seq_lib::lemma_multiset_commutative(seq![s[0]], rest);
        assert(seq![s[0]].to_multiset() =~= vstd::multiset::Multiset::empty().insert(s[0]));
        assert(s.to_multiset() =~= rest.to_multiset().insert(s[0]));
    }
}

fn ev_le_exec(a: &CalendarEvent, b: &CalendarEvent) -> (r: bool)
    ensures
        r == ev_le(*a, *b),
{
    match a.start_at {
        None => true,
        Some(x) => match b.start_at {
            None => false,
            Some(y) => x <= y,
        },
    }
}

proof fn lemma_insert_ev_at(e: CalendarEvent, s: Seq<CalendarEvent>, j: int)
    requires
        0 <= j <= s.len(),
        forall|i: int| 0 <= i < j ==> !ev_le(e, s[i]),
        j < s.len() ==> ev_le(e, s[j]),
    ensures
        insert_ev(e, s) == s.insert(j, e),
    decreases s.len(),
{
    if s.len() == 0 {
        assert(insert_ev(e, s) =~= s.insert(0, e));
    } else if ev_le(e, s[0]) {
        assert(j == 0);
        assert(seq![e] + s =~= s.insert(0, e));
    } else {
        assert(j >= 1);
        lemma_insert_ev_at(e, s.drop_first(), j - 1);
        assert(seq![s[0]] + s.drop_first().insert(j - 1, e) =~= s.insert(j, e));
    }
}

fn insert_event_sorted(out: &mut Vec<CalendarEvent>, e: CalendarEvent)
    ensures
        final(out)@ == insert_ev(e, old(out)@),
{
    let ghost sv = old(out)@;
    let mut j: usize = 0;
    let mut found = false;
    while j < out.len() && !found
        invariant
            j <= out@.len(),
            sv == out@,
            forall|i: int| 0 <= i < j ==> !ev_le(e, sv[i]),
            found ==> j < out@.len() && ev_le(e, sv[j as int]),
        decreases out@.len() - j, (if found { 0int } else { 1int }),
    {
        if ev_le_exec(&e, &out[j]) {
            found = true;
        } else {
            j = j + 1;
        }
    }
    proof {
        lemma_insert_ev_at(e, sv, j as int);
    }
    out.insert(j, e);
}

/// Sort a combined event list by start time, undated events first, ties in
/// first-seen order.
pub fn sort_calendar_events(events: Vec<CalendarEvent>) -> (r: Vec<CalendarEvent>)
    ensures
        r@ == sort_evs(events@),
{
    let ghost iv = events@;
    let mut rest = events;
    let mut out: Vec<CalendarEvent> = Vec::new();
    proof {
        assert(rest@ =~= iv.take(rest@.len() as int));
        assert(sort_evs(iv.skip(rest@.len() as int)) =~= Seq::<CalendarEvent>::empty());
    }
    while rest.len() > 0
        invariant
            rest@.len() <= iv.len(),
            rest@ == iv.take(rest@.len() as int),
            out@ == sort_evs(iv.skip(rest@.len() as int)),
        decreases rest@.len(),
    {
        let ghost n = rest@.len() as int;
        let e = rest.pop().unwrap();
        proof {
            assert(e == iv.take(n)[n - 1]);
            assert(rest@ =~= iv.take(n).drop_last());
            assert(iv.take(n).drop_last() =~= iv.take(n - 1));
        }
        insert_event_sorted(&mut out, e);
        proof {
            assert(iv.skip(n - 1)[0] == iv[n - 1]);
            assert(iv.skip(n - 1).drop_first() =~= iv.skip(n));
            assert(sort_evs(iv.skip(n - 1)) == insert_ev(iv[n - 1], sort_evs(iv.skip(n))));
        }
    }
    proof {
        assert(iv.skip(0) =~= iv);
    }
    out
}

// ─── The pass ───────────────────────────────────────────────────────────

/// Which step of the pass is owed next.
#[derive(Debug, Clone, Copy, PartialEq, Eq, Structural)]
pub enum SyncStep {
    Profile,
    Courses,
    Assignments,
    CalendarEvents,
    CalendarDeadlines,
    Announcements,
    CacheWrite,
    Done,
}

/// What the shell must do next.
#[derive(Debug, Clone, PartialEq)]
pub enum SyncAction {
    /// Fetch the current user's profile.
    FetchProfile,
    /// Fetch the course list: active enrollments, with student enrollment
    /// and term details included, across all pages.
    FetchCourses,
    /// Fetch one course's assignments with the caller's own submission
    /// state, across all pages.
    FetchAssignments { course_id: u64 },
    /// Fetch calendar events of the "event" type over the window and the
    /// given course contexts, across all pages.
    FetchCalendarEvents { start_secs: i64, end_secs: i64, context_codes: Vec<String> },
    /// The same window and contexts, "assignment" type.
    FetchCalendarDeadlines { start_secs: i64, end_secs: i64, context_codes: Vec<String> },
    /// Fetch announcements over the given course contexts.
    FetchAnnouncements { context_codes: Vec<String> },
    /// Persist the snapshot, then hand it back with the write's outcome.
    WriteCache { snapshot: CacheData },
    /// The pass ended early; its result is final.
    Finished { result: FetchResult },
}

/// The scoping tag of one course for calendar and announcement queries.
pub open spec fn context_code_of(id: u64) -> Seq<char> {
    "course_"@ + dec_digits(id as nat)
}

/// The scoping tags of the fetched courses, in order.
pub open spec fn context_codes_of(courses: Seq<Course>) -> Seq<Seq<char>> {
    courses.map_values(|c: Course| context_code_of(c.id))
}

/// The characters of each of a vector of strings.
pub open spec fn views_of_strings(s: Seq<String>) -> Seq<Seq<char>> {
    s.map_values(|x: String| x@)
}

proof fn lemma_string_views_push(s: Seq<String>, x: String)
    ensures
        views_of_strings(s.push(x)) == views_of_strings(s).push(x@),
{
    assert(views_of_strings(s.push(x)) =~= views_of_strings(s).push(x@));
}

/// The display name of a course, "Unnamed" when it carries none.
pub open spec fn course_display_name(c: Course) -> Seq<char> {
    match c.name {
        Some(n) => n@,
        None => "Unnamed"@,
    }
}

/// One sync pass in progress: what it has gathered, and which step it
/// waits on.
pub struct SyncPass {
    /// Start-of-pass time, epoch seconds; the calendar window opens here.
    pub started_at: i64,
    pub step: SyncStep,
    pub user: Option<User>,
    pub courses: Vec<Course>,
    pub assignments: Vec<(String, Vec<Assignment>)>,
    /// Next course whose assignments are owed.
    pub course_idx: usize,
    pub calendar_events: Vec<CalendarEvent>,
    pub announcements: Vec<DiscussionTopic>,
}

/// The machine's bookkeeping is consistent.
pub open spec fn pass_wf(p: SyncPass) -> bool {
    &&& p.started_at <= i64::MAX - CALENDAR_WINDOW_SECS
    &&& p.course_idx <= p.courses@.len()
}

impl SyncPass {
    /// Open a pass at time `now`: the first step fetches the profile.
    pub fn begin(now: i64) -> (r: (SyncPass, SyncAction))
        requires
            now <= i64::MAX - CALENDAR_WINDOW_SECS,
        ensures
            pass_wf(r.0),
            r.0.step is Profile,
            r.0.started_at == now,
            r.0.user is None,
            r.0.courses@.len() == 0,
            r.0.assignments@.len() == 0,
            r.0.calendar_events@.len() == 0,
            r.0.announcements@.len() == 0,
            r.1 is FetchProfile,
    {
        let pass = SyncPass {
            started_at: now,
            step: SyncStep::Profile,
            user: None,
            courses: Vec::new(),
            assignments: Vec::new(),
            course_idx: 0,
            calendar_events: Vec::new(),
            announcements: Vec::new(),
        };
        (pass, SyncAction::FetchProfile)
    }

    /// The scoping tags of the fetched courses, for calendar and
    /// announcement queries.
    fn context_codes(&self) -> (codes: Vec<String>)
        ensures
            views_of_strings(codes@) == context_codes_of(self.courses@),
    {
        let mut codes: Vec<String> = Vec::new();
        let mut i: usize = 0;
        while i < self.courses.len()
            invariant
                i <= self.courses@.len(),
                views_of_strings(codes@) == context_codes_of(self.courses@.take(i as int)),
            decreases self.courses@.len() - i,
        {
            let mut code = String::from_str("course_");
            let idstr = u64_to_string(self.courses[i].id);
            code.append(idstr.as_str());
            proof {
                assert(code@ == context_code_of(self.courses@[i as int].id));
            }
            let ghost prev = codes@;
            codes.push(code);
            i = i + 1;
            proof {
                lemma_string_views_push(prev, code);
                assert(context_codes_of(self.courses@.take(i as int)) =~= context_codes_of(
                    self.courses@.take(i - 1),
                ).push(context_code_of(self.courses@[i - 1].id)));
            }
        }
        proof {
            assert(self.courses@.take(self.courses@.len() as int) =~= self.courses@);
        }
        codes
    }

    /// The profile came back. A failure here aborts the whole pass: no
    /// further step runs, no cache is written, and the pass's error says
    /// what failed.
    pub fn on_profile(self, r: Result<User, CanvasError>) -> (ret: (SyncPass, SyncAction))
        requires
            self.step is Profile,
            pass_wf(self),
        ensures
            pass_wf(ret.0),
            r matches Ok(u) ==> {
                &&& ret.0.step is Courses
                &&& ret.0.user == Some(u)
                &&& ret.0.courses == self.courses
                &&& ret.0.assignments == self.assignments
                &&& ret.0.calendar_events == self.calendar_events
                &&& ret.0.announcements == self.announcements
                &&& ret.0.started_at == self.started_at
                &&& ret.1 is FetchCourses
            },
            r matches Err(e) ==> ret.0.step is Done && aborts_with(
                self,
                ret.1,
                "fetching profile: "@,
                e,
            ),
    {
        match r {
            Ok(u) => {
                let pass = SyncPass { step: SyncStep::Courses, user: Some(u), ..self };
                (pass, SyncAction::FetchCourses)
            },
            Err(e) => self.abort(String::from_str("fetching profile: "), e),
        }
    }

    /// The course list came back. A failure here aborts the pass; with
    /// courses in hand the per-course assignment fetches start, or, with
    /// no course at all, the calendar fetch.
    pub fn on_courses(self, r: Result<Vec<Course>, CanvasError>) -> (ret: (SyncPass, SyncAction))
        requires
            self.step is Courses,
            pass_wf(self),
        ensures
            pass_wf(ret.0),
            r matches Ok(cs) ==> {
                &&& ret.0.courses == cs
                &&& ret.0.user == self.user
                &&& ret.0.assignments == self.assignments
                &&& ret.0.calendar_events == self.calendar_events
                &&& ret.0.announcements == self.announcements
                &&& ret.0.started_at == self.started_at
                &&& ret.0.course_idx == 0
                &&& (cs@.len() > 0 ==> ret.0.step is Assignments && ret.1 == (
                SyncAction::FetchAssignments { course_id: cs@[0].id }))
                &&& (cs@.len() == 0 ==> ret.0.step is CalendarEvents && calendar_fetch(
                    ret.0,
                    ret.1,
                    true,
                ))
            },
            r matches Err(e) ==> ret.0.step is Done && aborts_with(
                self,
                ret.1,
                "fetching courses: "@,
                e,
            ),
    {
        match r {
            Ok(cs) => {
                let mut pass = SyncPass { courses: cs, course_idx: 0, ..self };
                if pass.courses.len() > 0 {
                    let course_id = pass.courses[0].id;
                    pass.step = SyncStep::Assignments;
                    (pass, SyncAction::FetchAssignments { course_id })
                } else {
                    pass.step = SyncStep::CalendarEvents;
                    let act = SyncAction::FetchCalendarEvents {
                        start_secs: pass.started_at,
                        end_secs: pass.started_at + CALENDAR_WINDOW_SECS,
                        context_codes: pass.context_codes(),
                    };
                    (pass, act)
                }
            },
            Err(e) => self.abort(String::from_str("fetching courses: "), e),
        }
    }

    /// One course's assignments came back. A failure is swallowed: the
    /// course is omitted and the pass goes on, because partial data is
    /// more useful than aborting. A course with no assignment is omitted
    /// too. Then the next course is fetched, or, after the last, the
    /// calendar.
    pub fn on_assignments(self, r: Result<Vec<Assignment>, CanvasError>) -> (ret: (
        SyncPass,
        SyncAction,
    ))
        requires
            self.step is Assignments,
            pass_wf(self),
            self.course_idx < self.courses@.len(),
        ensures
            pass_wf(ret.0),
            ret.0.user == self.user,
            ret.0.courses == self.courses,
            ret.0.calendar_events == self.calendar_events,
            ret.0.announcements == self.announcements,
            ret.0.started_at == self.started_at,
            ret.0.course_idx == self.course_idx + 1,
            ({
                let gathered = (match r {
                    Ok(v) => v@.len() > 0,
                    Err(_) => false,
                });
                if gathered {
                    &&& ret.0.assignments@.len() == self.assignments@.len() + 1
                    &&& ret.0.assignments@.take(self.assignments@.len() as int)
                        == self.assignments@
                    &&& ret.0.assignments@.last().0@ == course_display_name(
                        self.courses@[self.course_idx as int],
                    )
                    &&& ret.0.assignments@.last().1 == r->Ok_0
                } else {
                    ret.0.assignments == self.assignments
                }
            }),
            self.course_idx + 1 < self.courses@.len() ==> ret.0.step is Assignments && ret.1 == (
            SyncAction::FetchAssignments { course_id: self.courses@[self.course_idx + 1].id }),
            self.course_idx + 1 == self.courses@.len() ==> ret.0.step is CalendarEvents
                && calendar_fetch(ret.0, ret.1, true),
    {
        let mut pass = self;
        match r {
            Ok(v) => {
                if v.len() > 0 {
                    let name = match &pass.courses[pass.course_idx].name {
                        Some(n) => n.clone(),
                        None => String::from_str("Unnamed"),
                    };
                    let ghost before = pass.assignments@;
                    pass.assignments.push((name, v));
                    proof {
                        assert(pass.assignments@.take(before.len() as int) =~= before);
                    }
                }
            },
            Err(_) => {},
        }
        proof {
            assert(pass.course_idx == self.course_idx);
            assert(pass.courses == self.courses);
        }
        let len = pass.courses.len();
        proof {
            assert(pass.course_idx < len);
        }
        pass.course_idx = pass.course_idx + 1;
        if pass.course_idx < pass.courses.len() {
            let course_id = pass.courses[pass.course_idx].id;
            (pass, SyncAction::FetchAssignments { course_id })
        } else {
            pass.step = SyncStep::CalendarEvents;
            let act = SyncAction::FetchCalendarEvents {
                start_secs: pass.started_at,
                end_secs: pass.started_at + CALENDAR_WINDOW_SECS,
                context_codes: pass.context_codes(),
            };
            (pass, act)
        }
    }

    /// The "event"-type calendar query came back. On success the
    /// "assignment"-type query follows over the same window; on failure
    /// the whole calendar step is swallowed (no events at all) and the
    /// announcements are fetched next.
    pub fn on_calendar_events(self, r: Result<Vec<CalendarEvent>, CanvasError>) -> (ret: (
        SyncPass,
        SyncAction,
    ))
        requires
            self.step is CalendarEvents,
            pass_wf(self),
        ensures
            pass_wf(ret.0),
            ret.0.user == self.user,
            ret.0.courses == self.courses,
            ret.0.assignments == self.assignments,
            ret.0.announcements == self.announcements,
            ret.0.started_at == self.started_at,
            r matches Ok(evs) ==> {
                &&& ret.0.calendar_events == evs
                &&& ret.0.step is CalendarDeadlines
                &&& calendar_fetch(ret.0, ret.1, false)
            },
            r is Err ==> {
                &&& ret.0.calendar_events == self.calendar_events
                &&& ret.0.step is Announcements
                &&& announcements_fetch(ret.0, ret.1)
            },
    {
        let mut pass = self;
        match r {
            Ok(evs) => {
                pass.calendar_events = evs;
                pass.step = SyncStep::CalendarDeadlines;
                let act = SyncAction::FetchCalendarDeadlines {
                    start_secs: pass.started_at,
                    end_secs: pass.started_at + CALENDAR_WINDOW_SECS,
                    context_codes: pass.context_codes(),
                };
                (pass, act)
            },
            Err(_) => {
                pass.step = SyncStep::Announcements;
                let act = SyncAction::FetchAnnouncements {
                    context_codes: pass.context_codes(),
                };
                (pass, act)
            },
        }
    }

    /// The "assignment"-type calendar query came back. Its failure is
    /// swallowed. Either way the combined event list is sorted by start
    /// time, and the announcements are fetched next.
    pub fn on_calendar_deadlines(self, r: Result<Vec<CalendarEvent>, CanvasError>) -> (ret: (
        SyncPass,
        SyncAction,
    ))
        requires
            self.step is CalendarDeadlines,
            pass_wf(self),
        ensures
            pass_wf(ret.0),
            ret.0.user == self.user,
            ret.0.courses == self.courses,
            ret.0.assignments == self.assignments,
            ret.0.announcements == self.announcements,
            ret.0.started_at == self.started_at,
            ret.0.step is Announcements,
            announcements_fetch(ret.0, ret.1),
            r matches Ok(ds) ==> ret.0.calendar_events@ == sort_evs(
                self.calendar_events@ + ds@,
            ),
            r is Err ==> ret.0.calendar_events@ == sort_evs(self.calendar_events@),
    {
        let mut pass = self;
        let mut evs = pass.calendar_events;
        pass.calendar_events = Vec::new();
        match r {
            Ok(mut ds) => {
                evs.append(&mut ds);
            },
            Err(_) => {},
        }
        pass.calendar_events = sort_calendar_events(evs);
        pass.step = SyncStep::Announcements;
        let act = SyncAction::FetchAnnouncements { context_codes: pass.context_codes() };
        (pass, act)
    }

    /// The announcements came back; a failure is swallowed (none at all).
    /// The pass is stamped with its completion time and the snapshot goes
    /// out to be persisted.
    pub fn on_announcements(
        self,
        r: Result<Vec<DiscussionTopic>, CanvasError>,
        completed_at: i64,
    ) -> (ret: (SyncPass, SyncAction))
        requires
            self.step is Announcements,
            pass_wf(self),
        ensures
            pass_wf(ret.0),
            ret.0.step is CacheWrite,
            ret.0.started_at == self.started_at,
            ret.1 matches SyncAction::WriteCache { snapshot } && {
                &&& snapshot.cached_at == completed_at
                &&& snapshot.user == self.user
                &&& snapshot.courses == self.courses
                &&& snapshot.assignments == self.assignments
                &&& snapshot.calendar_events == self.calendar_events
                &&& (r matches Ok(v) ==> snapshot.announcements == v)
                &&& (r is Err ==> snapshot.announcements@.len() == 0)
            },
    {
        let anns = match r {
            Ok(v) => v,
            Err(_) => Vec::new(),
        };
        let snapshot = CacheData {
            cached_at: completed_at,
            user: self.user,
            courses: self.courses,
            assignments: self.assignments,
            calendar_events: self.calendar_events,
            announcements: anns,
        };
        let pass = SyncPass {
            started_at: self.started_at,
            step: SyncStep::CacheWrite,
            user: None,
            courses: Vec::new(),
            assignments: Vec::new(),
            course_idx: 0,
            calendar_events: Vec::new(),
            announcements: Vec::new(),
        };
        (pass, SyncAction::WriteCache { snapshot })
    }

    /// The cache write finished; the shell hands the snapshot back with
    /// the write's outcome. The pass's result carries the snapshot's data;
    /// a failed write is reported as the pass's non-fatal error and never
    /// invalidates the data itself.
    pub fn on_cache_written(
        self,
        snapshot: CacheData,
        write_error: Option<CanvasError>,
    ) -> (result: FetchResult)
        requires
            self.step is CacheWrite,
        ensures
            result.user == snapshot.user,
            result.courses == snapshot.courses,
            result.assignments == snapshot.assignments,
            result.calendar_events == snapshot.calendar_events,
            result.announcements == snapshot.announcements,
            result.fetched_at == snapshot.cached_at,
            write_error matches Some(e) ==> view_opt_string(result.error) == Some(
                "saving cache: "@ + error_text(e),
            ),
            write_error is None ==> result.error is None,
    {
        let error = match write_error {
            Some(e) => {
                let mut m = String::from_str("saving cache: ");
                let d = e.describe();
                m.append(d.as_str());
                Some(m)
            },
            None => None,
        };
        FetchResult {
            user: snapshot.user,
            courses: snapshot.courses,
            assignments: snapshot.assignments,
            calendar_events: snapshot.calendar_events,
            announcements: snapshot.announcements,
            fetched_at: snapshot.cached_at,
            error,
        }
    }

    /// End the pass early with what was gathered, reporting `e` under the
    /// step name in `prefix`.
    fn abort(self, prefix: String, e: CanvasError) -> (ret: (SyncPass, SyncAction))
        requires
            pass_wf(self),
        ensures
            pass_wf(ret.0),
            ret.0.step is Done,
            aborts_with(self, ret.1, prefix@, e),
    {
        let mut message = prefix;
        let d = e.describe();
        message.append(d.as_str());
        let result = FetchResult {
            user: self.user,
            courses: self.courses,
            assignments: self.assignments,
            calendar_events: self.calendar_events,
            announcements: self.announcements,
            fetched_at: self.started_at,
            error: Some(message),
        };
        let pass = SyncPass {
            started_at: self.started_at,
            step: SyncStep::Done,
            user: None,
            courses: Vec::new(),
            assignments: Vec::new(),
            course_idx: 0,
            calendar_events: Vec::new(),
            announcements: Vec::new(),
        };
        (pass, SyncAction::Finished { result })
    }
}

/// The pass ended early: the action carries a final result holding what
/// was gathered, stamped with the pass's start time, and an error naming
/// the failed step. No cache write is asked for.
pub open spec fn aborts_with(
    p: SyncPass,
    act: SyncAction,
    prefix: Seq<char>,
    e: CanvasError,
) -> bool {
    act matches SyncAction::Finished { result } && {
        &&& result.user == p.user
        &&& result.courses == p.courses
        &&& result.assignments == p.assignments
        &&& result.calendar_events == p.calendar_events
        &&& result.announcements == p.announcements
        &&& result.fetched_at == p.started_at
        &&& view_opt_string(result.error) == Some(prefix + error_text(e))
    }
}

/// The action asks for the calendar over the pass's 30-day window and the
/// pass's course contexts; `events_kind` says which of the two typed
/// queries is owed.
pub open spec fn calendar_fetch(p: SyncPass, act: SyncAction, events_kind: bool) -> bool {
    if events_kind {
        act matches SyncAction::FetchCalendarEvents { start_secs, end_secs, context_codes } && {
            &&& start_secs == p.started_at
            &&& end_secs == p.started_at + CALENDAR_WINDOW_SECS
            &&& views_of_strings(context_codes@) == context_codes_of(p.courses@)
        }
    } else {
        act matches SyncAction::FetchCalendarDeadlines { start_secs, end_secs, context_codes } && {
            &&& start_secs == p.started_at
            &&& end_secs == p.started_at + CALENDAR_WINDOW_SECS
            &&& views_of_strings(context_codes@) == context_codes_of(p.courses@)
        }
    }
}

/// The action asks for announcements over the pass's course contexts.
pub open spec fn announcements_fetch(p: SyncPass, act: SyncAction) -> bool {
    act matches SyncAction::FetchAnnouncements { context_codes } && views_of_strings(
        context_codes@,
    ) == context_codes_of(p.courses@)
}

} // verus!
