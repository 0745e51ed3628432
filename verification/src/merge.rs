//! The calendar merge: one deduplicated, time-ordered timeline built from
//! calendar events and per-course assignment due dates.

use vstd::multiset::Multiset;
use vstd::prelude::*;

use crate::models::{
    Assignment, CalendarEvent, CalendarItem, CalendarItemKind, Submission, WorkflowState,
};
use crate::strutil::{
    dec_digits, fmt_tenths_fixed1, fmt_tenths_plain, push_char, str_eq_str, tenths_fixed1,
    tenths_plain,
};

verus! {

/// Ghost image of one timeline entry: the same data with strings as
/// character sequences, so that the merge can be stated as one spec value.
pub struct CalendarItemV {
    pub start_at: Option<i64>,
    pub title: Seq<char>,
    pub kind: CalendarItemKind,
    pub course_name: Option<Seq<char>>,
    pub status: Option<Seq<char>>,
    pub assignment_id: Option<u64>,
}

impl View for CalendarItem {
    type V = CalendarItemV;

    open spec fn view(&self) -> CalendarItemV {
        CalendarItemV {
            start_at: self.start_at,
            title: self.title@,
            kind: self.kind,
            course_name: match self.course_name {
                Some(n) => Some(n@),
                None => None,
            },
            status: match self.status {
                Some(s) => Some(s@),
                None => None,
            },
            assignment_id: self.assignment_id,
        }
    }
}

/// The images of a sequence of timeline entries.
pub open spec fn views_of(s: Seq<CalendarItem>) -> Seq<CalendarItemV> {
    s.map_values(|it: CalendarItem| it@)
}

proof fn lemma_views_push(s: Seq<CalendarItem>, x: CalendarItem)
    ensures
        views_of(s.push(x)) == views_of(s).push(x@),
{
    assert(views_of(s.push(x)) =~= views_of(s).push(x@));
}

/// Timeline order: ascending by start time, and entries with no start time
/// after every dated entry.
pub open spec fn item_le(a: CalendarItemV, b: CalendarItemV) -> bool {
    b.start_at is None || (a.start_at is Some && a.start_at->0 <= b.start_at->0)
}

/// Ascending under `item_le`.
pub open spec fn items_sorted(s: Seq<CalendarItemV>) -> bool {
    forall|i: int, j: int| 0 <= i < j < s.len() ==> item_le(s[i], s[j])
}

/// Where a stable insertion places `it`: before the first entry it does not
/// come strictly after.
pub open spec fn insert_sorted(it: CalendarItemV, s: Seq<CalendarItemV>) -> Seq<CalendarItemV>
    decreases s.len(),
{
    if s.len() == 0 {
        seq![it]
    } else if item_le(it, s[0]) {
        seq![it] + s
    } else {
        seq![s[0]] + insert_sorted(it, s.drop_first())
    }
}

/// Stable sort of a timeline, defined entry by entry.
pub open spec fn sort_items(s: Seq<CalendarItemV>) -> Seq<CalendarItemV>
    decreases s.len(),
{
    if s.len() == 0 {
        Seq::empty()
    } else {
        insert_sorted(s[0], sort_items(s.drop_first()))
    }
}

proof fn lemma_item_le_total(a: CalendarItemV, b: CalendarItemV)
    ensures
        item_le(a, b) || item_le(b, a),
{
}

proof fn lemma_item_le_trans(a: CalendarItemV, b: CalendarItemV, c: CalendarItemV)
    ensures
        item_le(a, b) && item_le(b, c) ==> item_le(a, c),
{
}

proof fn lemma_insert_sorted_contains(it: CalendarItemV, s: Seq<CalendarItemV>)
    ensures
        forall|x: CalendarItemV|
            #[trigger] insert_sorted(it, s).contains(x) <==> (x == it || s.contains(x)),
{
    broadcast use vstd::seq_lib::group_to_multiset_ensures;
    broadcast use vstd::multiset::group_multiset_axioms;

    lemma_insert_sorted_multiset(it, s);
    assert forall|x: CalendarItemV|
        #[trigger] insert_sorted(it, s).contains(x) <==> (x == it || s.contains(x)) by {
        assert(insert_sorted(it, s).contains(x) <==> insert_sorted(it, s).to_multiset().count(x)
            > 0);
        assert(s.contains(x) <==> s.to_multiset().count(x) > 0);
        assert(s.to_multiset().insert(it).count(x) == s.to_multiset().count(x) + (if x == it {
            1int
        } else {
            0int
        }));
    }
}

proof fn lemma_insert_sorted_keeps_sorted(it: CalendarItemV, s: Seq<CalendarItemV>)
    requires
        items_sorted(s),
    ensures
        items_sorted(insert_sorted(it, s)),
        insert_sorted(it, s).len() == s.len() + 1,
    decreases s.len(),
{
    if s.len() == 0 {
    } else if item_le(it, s[0]) {
        let r = seq![it] + s;
        assert forall|i: int, j: int| 0 <= i < j < r.len() implies item_le(r[i], r[j]) by {
            if i == 0 {
                if j == 1 {
                } else {
                    lemma_item_le_trans(it, s[0], s[j - 1]);
                }
            }
        }
    } else {
        let rest = s.drop_first();
        assert(items_sorted(rest)) by {
            assert(forall|i: int| 0 <= i < rest.len() ==> rest[i] == s[i + 1]);
        }
        lemma_insert_sorted_keeps_sorted(it, rest);
        lemma_insert_sorted_contains(it, rest);
        let ri = insert_sorted(it, rest);
        let r = seq![s[0]] + ri;
        assert(item_le(s[0], it)) by {
            lemma_item_le_total(it, s[0]);
        }
        assert forall|i: int, j: int| 0 <= i < j < r.len() implies item_le(r[i], r[j]) by {
            if i == 0 {
                assert(r[j] == ri[j - 1]);
                assert(ri.contains(ri[j - 1]));
                if ri[j - 1] == it {
                } else {
                    assert(rest.contains(ri[j - 1]));
                    let k = choose|k: int| 0 <= k < rest.len() && rest[k] == ri[j - 1];
                    assert(rest[k] == s[k + 1]);
                    assert(item_le(s[0], s[k + 1]));
                }
            } else {
                assert(r[i] == ri[i - 1] && r[j] == ri[j - 1]);
            }
        }
    }
}

/// The sorted timeline is ascending under the timeline order and has the
/// same length; every entry of it is an entry of the input.
pub proof fn lemma_sort_items_sorted(s: Seq<CalendarItemV>)
    ensures
        items_sorted(sort_items(s)),
        sort_items(s).len() == s.len(),
        forall|x: CalendarItemV| #[trigger] sort_items(s).contains(x) ==> s.contains(x),
    decreases s.len(),
{
    if s.len() == 0 {
    } else {
        let rest = s.drop_first();
        lemma_sort_items_sorted(rest);
        lemma_insert_sorted_keeps_sorted(s[0], sort_items(rest));
        lemma_insert_sorted_contains(s[0], sort_items(rest));
        assert forall|x: CalendarItemV| #[trigger] sort_items(s).contains(x) implies s.contains(
            x,
        ) by {
            if x == s[0] {
                assert(s[0] == s[0]);
            } else {
                assert(sort_items(rest).contains(x));
                assert(rest.contains(x));
                let k = choose|k: int| 0 <= k < rest.len() && rest[k] == x;
                assert(rest[k] == s[k + 1]);
                assert(s[k + 1] == x);
            }
        }
    }
}

proof fn lemma_insert_sorted_multiset(it: CalendarItemV, s: Seq<CalendarItemV>)
    ensures
        insert_sorted(it, s).to_multiset() == s.to_multiset().insert(it),
    decreases s.len(),
{
    broadcast use vstd::seq_lib::group_to_multiset_ensures;

    if s.len() == 0 {
        assert(seq![it] =~= Seq::<CalendarItemV>::empty().push(it));
        assert(Seq::<CalendarItemV>::empty().push(it).to_multiset() =~= Multiset::empty().insert(
            it,
        ));
        assert(s.to_multiset() =~= Multiset::empty());
    } else if item_le(it, s[0]) {
        assert(seq![it] + s =~= s.insert(0, it));
        vstd::seq_lib::lemma_multiset_commutative(seq![it], s);
        assert(seq![it].to_multiset() =~= Multiset::empty().insert(it));
        assert((seq![it] + s).to_multiset() =~= s.to_multiset().insert(it));
    } else {
        lemma_insert_sorted_multiset(it, s.drop_first());
        let ri = insert_sorted(it, s.drop_first());
        vstd::seq_lib::lemma_multiset_commutative(seq![s[0]], ri);
        assert(seq![s[0]].to_multiset() =~= Multiset::empty().insert(s[0]));
        assert((seq![s[0]] + ri).to_multiset() =~= ri.to_multiset().insert(s[0]));
        assert(s =~= seq![s[0]] + s.drop_first());
        vstd::seq_lib::lemma_multiset_commutative(seq![s[0]], s.drop_first());
        assert(s.to_multiset() =~= s.drop_first().to_multiset().insert(s[0]));
        assert(ri.to_multiset().insert(s[0]) =~= s.drop_first().to_multiset().insert(it).insert(
            s[0],
        ));
        assert(s.to_multiset().insert(it) =~= s.drop_first().to_multiset().insert(s[0]).insert(
            it,
        ));
        assert(s.drop_first().to_multiset().insert(it).insert(s[0])
            =~= s.drop_first().to_multiset().insert(s[0]).insert(it));
    }
}

/// Sorting rearranges the timeline and loses or invents nothing.
pub proof fn lemma_sort_items_permutes(s: Seq<CalendarItemV>)
    ensures
        sort_items(s).to_multiset() == s.to_multiset(),
    decreases s.len(),
{
    broadcast use vstd::seq_lib::group_to_multiset_ensures;

    if s.len() == 0 {
    } else {
        lemma_sort_items_permutes(s.drop_first());
        lemma_insert_sorted_multiset(s[0], sort_items(s.drop_first()));
        assert(s =~= seq![s[0]] + s.drop_first());
        vstd::seq_lib::lemma_multiset_commutative(seq![s[0]], s.drop_first());
        assert(seq![s[0]].to_multiset() =~= Multiset::empty().insert(s[0]));
        assert(s.to_multiset() =~= s.drop_first().to_multiset().insert(s[0]));
    }
}

fn item_le_exec(a: &CalendarItem, b: &CalendarItem) -> (r: bool)
    ensures
        r == item_le(a@, b@),
{
    match b.start_at {
        None => true,
        Some(bt) => match a.start_at {
            None => false,
            Some(at) => at <= bt,
        },
    }
}

proof fn lemma_insert_sorted_at(it: CalendarItemV, s: Seq<CalendarItemV>, j: int)
    requires
        0 <= j <= s.len(),
        forall|i: int| 0 <= i < j ==> !item_le(it, s[i]),
        j < s.len() ==> item_le(it, s[j]),
    ensures
        insert_sorted(it, s) == s.insert(j, it),
    decreases s.len(),
{
    if s.len() == 0 {
        assert(insert_sorted(it, s) =~= s.insert(0, it));
    } else if item_le(it, s[0]) {
        assert(j == 0);
        assert(seq![it] + s =~= s.insert(0, it));
    } else {
        assert(j >= 1);
        lemma_insert_sorted_at(it, s.drop_first(), j - 1);
        assert(seq![s[0]] + s.drop_first().insert(j - 1, it) =~= s.insert(j, it));
    }
}

/// Insert one entry into an already-sorted vector, keeping it sorted and
/// keeping entries with the same start time in insertion order.
fn insert_item_sorted(out: &mut Vec<CalendarItem>, it: CalendarItem)
    ensures
        views_of(final(out)@) == insert_sorted(it@, views_of(old(out)@)),
{
    let ghost sv = views_of(old(out)@);
    let mut j: usize = 0;
    let mut found = false;
    while j < out.len() && !found
        invariant
            j <= out@.len(),
            sv == views_of(out@),
            forall|i: int| 0 <= i < j ==> !item_le(it@, sv[i]),
            found ==> j < out@.len() && item_le(it@, sv[j as int]),
        decreases out@.len() - j, (if found { 0int } else { 1int }),
    {
        if item_le_exec(&it, &out[j]) {
            found = true;
        } else {
            proof {
                assert(views_of(out@)[j as int] == out@[j as int]@);
            }
            j = j + 1;
        }
    }
    proof {
        lemma_insert_sorted_at(it@, sv, j as int);
    }
    out.insert(j, it);
    proof {
        assert(views_of(out@) =~= sv.insert(j as int, it@));
    }
}

/// Sort a timeline: ascending by start time, entries with no start time at
/// the tail, ties and the tail in first-seen order.
pub fn sort_calendar_items(items: Vec<CalendarItem>) -> (r: Vec<CalendarItem>)
    ensures
        views_of(r@) == sort_items(views_of(items@)),
{
    let ghost iv = views_of(items@);
    let mut rest = items;
    let mut out: Vec<CalendarItem> = Vec::new();
    proof {
        assert(views_of(rest@) =~= iv.take(rest@.len() as int));
        assert(views_of(out@) =~= Seq::<CalendarItemV>::empty());
        assert(sort_items(iv.skip(rest@.len() as int)) =~= Seq::<CalendarItemV>::empty());
    }
    while rest.len() > 0
        invariant
            rest@.len() <= iv.len(),
            views_of(rest@) == iv.take(rest@.len() as int),
            views_of(out@) == sort_items(iv.skip(rest@.len() as int)),
        decreases rest@.len(),
    {
        let ghost n = rest@.len() as int;
        let ghost prev = rest@;
        let it = rest.pop().unwrap();
        proof {
            assert(it == prev[n - 1]);
            assert(views_of(prev)[n - 1] == prev[n - 1]@);
            assert(views_of(prev)[n - 1] == iv.take(n)[n - 1]);
            assert(it@ == iv[n - 1]);
            assert(views_of(rest@) =~= views_of(prev).drop_last());
            assert(views_of(prev).drop_last() =~= iv.take(n - 1));
        }
        insert_item_sorted(&mut out, it);
        proof {
            assert(iv.skip(n - 1)[0] == iv[n - 1]);
            assert(iv.skip(n - 1).drop_first() =~= iv.skip(n));
            assert(sort_items(iv.skip(n - 1)) == insert_sorted(iv[n - 1], sort_items(iv.skip(n))));
        }
    }
    proof {
        assert(iv.skip(0) =~= iv);
    }
    out
}

// ─── Status derivation ──────────────────────────────────────────────────

/// Whether a due date lies strictly in the past.
pub open spec fn past_due(due_at: Option<i64>, now: i64) -> bool {
    due_at matches Some(d) && d < now
}

/// The status string of a graded submission: "{score}/{points}" with the
/// score at one decimal place, or "Graded" when no score came back.
pub open spec fn graded_status(sub: Submission, points_tenths: Option<u64>) -> Seq<char> {
    match sub.score_tenths {
        Some(s) => tenths_fixed1(s as nat).push('/') + tenths_plain(
            (match points_tenths {
                Some(p) => p,
                None => 0,
            }) as nat,
        ),
        None => "Graded"@,
    }
}

/// The derived status of an assignment's timeline entry.
pub open spec fn status_of(a: Assignment, now: i64) -> Option<Seq<char>> {
    match a.submission {
        Some(sub) => match sub.workflow_state {
            WorkflowState::Graded => Some(graded_status(sub, a.points_possible_tenths)),
            WorkflowState::Submitted => Some("Submitted"@),
            WorkflowState::Unsubmitted => if past_due(a.due_at, now) {
                if sub.missing == Some(true) {
                    Some("Missing!"@)
                } else {
                    Some("Past due"@)
                }
            } else {
                None
            },
        },
        None => if past_due(a.due_at, now) {
            Some("Past due"@)
        } else {
            None
        },
    }
}

/// The characters of an optional string.
pub open spec fn view_opt_string(o: Option<String>) -> Option<Seq<char>> {
    match o {
        Some(s) => Some(s@),
        None => None,
    }
}

fn is_past_due(due_at: &Option<i64>, now: i64) -> (r: bool)
    ensures
        r == past_due(*due_at, now),
{
    match due_at {
        Some(d) => *d < now,
        None => false,
    }
}

/// Human-readable status of one assignment, as the merged timeline shows
/// it: graded scores as "{score}/{points}", "Submitted", "Missing!" or
/// "Past due" for overdue work, nothing otherwise.
pub fn derive_status(a: &Assignment, now: i64) -> (r: Option<String>)
    ensures
        view_opt_string(r) == status_of(*a, now),
{
    match &a.submission {
        Some(sub) => match sub.workflow_state {
            WorkflowState::Graded => match sub.score_tenths {
                Some(s) => {
                    let mut out = fmt_tenths_fixed1(s);
                    push_char(&mut out, '/');
                    let points = match a.points_possible_tenths {
                        Some(p) => p,
                        None => 0,
                    };
                    let pstr = fmt_tenths_plain(points);
                    out.append(pstr.as_str());
                    Some(out)
                },
                None => Some(String::from_str("Graded")),
            },
            WorkflowState::Submitted => Some(String::from_str("Submitted")),
            WorkflowState::Unsubmitted => {
                if is_past_due(&a.due_at, now) {
                    if matches!(sub.missing, Some(true)) {
                        Some(String::from_str("Missing!"))
                    } else {
                        Some(String::from_str("Past due"))
                    }
                } else {
                    None
                }
            },
        },
        None => {
            if is_past_due(&a.due_at, now) {
                Some(String::from_str("Past due"))
            } else {
                None
            }
        },
    }
}

// ─── The merge ──────────────────────────────────────────────────────────

/// The assignment id a calendar event carries through its embedded
/// assignment reference, if any.
pub open spec fn event_assignment_id(e: CalendarEvent) -> Option<u64> {
    match e.assignment {
        Some(d) => d.id,
        None => None,
    }
}

/// The assignment ids already represented by calendar events.
pub open spec fn covered_ids(events: Seq<CalendarEvent>) -> Set<u64> {
    Set::new(
        |id: u64|
            exists|i: int| 0 <= i < events.len() && event_assignment_id(events[i]) == Some(id),
    )
}

/// The timeline entry a calendar event maps to.
pub open spec fn item_of_event(e: CalendarEvent) -> CalendarItemV {
    CalendarItemV {
        start_at: e.start_at,
        title: match e.title {
            Some(t) => t@,
            None => "Untitled"@,
        },
        kind: if e.event_type matches Some(t) && t@ == "assignment"@ {
            CalendarItemKind::Assignment
        } else {
            CalendarItemKind::Event
        },
        course_name: None,
        status: None,
        assignment_id: event_assignment_id(e),
    }
}

/// One deduplicating pass over the calendar events: each event maps to a
/// timeline entry, except that an event whose embedded assignment id an
/// earlier event already claimed is dropped — the first event per id
/// wins. The pass also yields the set of ids claimed so far.
pub open spec fn event_items_pass(events: Seq<CalendarEvent>, seen: Set<u64>) -> (
    Seq<CalendarItemV>,
    Set<u64>,
)
    decreases events.len(),
{
    if events.len() == 0 {
        (Seq::empty(), seen)
    } else {
        let prev = event_items_pass(events.drop_last(), seen);
        let e = events.last();
        match event_assignment_id(e) {
            Some(id) => if prev.1.contains(id) {
                prev
            } else {
                (prev.0 + seq![item_of_event(e)], prev.1.insert(id))
            },
            None => (prev.0 + seq![item_of_event(e)], prev.1),
        }
    }
}

/// The synthesized timeline entry of one assignment.
pub open spec fn synth_item(course: Seq<char>, a: Assignment, now: i64) -> CalendarItemV {
    CalendarItemV {
        start_at: a.due_at,
        title: match a.name {
            Some(n) => n@,
            None => "Unnamed"@,
        },
        kind: CalendarItemKind::Assignment,
        course_name: Some(course),
        status: status_of(a, now),
        assignment_id: Some(a.id),
    }
}

/// The deduplicating pass over one course's assignment list: each
/// assignment with a due date earns a synthesized entry unless something
/// already claimed its id — a calendar event, or an earlier assignment.
pub open spec fn synth_group_pass(
    course: Seq<char>,
    asgns: Seq<Assignment>,
    seen: Set<u64>,
    now: i64,
) -> (Seq<CalendarItemV>, Set<u64>)
    decreases asgns.len(),
{
    if asgns.len() == 0 {
        (Seq::empty(), seen)
    } else {
        let prev = synth_group_pass(course, asgns.drop_last(), seen, now);
        let a = asgns.last();
        if a.due_at is Some && !prev.1.contains(a.id) {
            (prev.0 + seq![synth_item(course, a, now)], prev.1.insert(a.id))
        } else {
            prev
        }
    }
}

/// The deduplicating pass over all courses, course by course, in order.
pub open spec fn synth_pass(
    groups: Seq<(String, Vec<Assignment>)>,
    seen: Set<u64>,
    now: i64,
) -> (Seq<CalendarItemV>, Set<u64>)
    decreases groups.len(),
{
    if groups.len() == 0 {
        (Seq::empty(), seen)
    } else {
        let prev = synth_pass(groups.drop_last(), seen, now);
        let g = groups.last();
        let gp = synth_group_pass(g.0@, g.1@, prev.1, now);
        (prev.0 + gp.0, gp.1)
    }
}

/// No backing assignment id occurs twice across a timeline.
pub open spec fn ids_unique(s: Seq<CalendarItemV>) -> bool {
    forall|i: int, j: int|
        0 <= i < j < s.len() && (#[trigger] s[i]).assignment_id is Some ==> s[i].assignment_id
            != (#[trigger] s[j]).assignment_id
}

/// The merged timeline: every calendar event mapped, every due-dated
/// assignment whose id nothing has claimed synthesized, at most one entry
/// per backing assignment id, and the whole ordered by start time with
/// undated entries at the tail.
pub open spec fn merged_items(
    events: Seq<CalendarEvent>,
    groups: Seq<(String, Vec<Assignment>)>,
    now: i64,
) -> Seq<CalendarItemV> {
    let ev = event_items_pass(events, Set::empty());
    let sy = synth_pass(groups, ev.1, now);
    sort_items(ev.0 + sy.0)
}

fn vec_contains_u64(v: &Vec<u64>, x: u64) -> (r: bool)
    ensures
        r == v@.contains(x),
{
    let mut i: usize = 0;
    while i < v.len()
        invariant
            i <= v@.len(),
            forall|k: int| 0 <= k < i ==> v@[k] != x,
        decreases v@.len() - i,
    {
        if v[i] == x {
            return true;
        }
        i = i + 1;
    }
    false
}

/// Build one deduplicated, time-ordered timeline from the calendar events
/// and the per-course assignment lists, judged against the time `now`.
/// Each backing assignment id appears at most once across the result: the
/// first calendar event claiming an id wins, and an assignment earns a
/// synthesized entry only while nothing has claimed its id.
pub fn merge_calendar_items(
    events: &Vec<CalendarEvent>,
    assignments: &Vec<(String, Vec<Assignment>)>,
    now: i64,
) -> (r: Vec<CalendarItem>)
    ensures
        views_of(r@) == merged_items(events@, assignments@, now),
        ids_unique(views_of(r@)),
{
    let mut seen: Vec<u64> = Vec::new();
    let mut items: Vec<CalendarItem> = Vec::new();

    let mut i: usize = 0;
    proof {
        assert(views_of(items@) =~= event_items_pass(events@.take(0), Set::empty()).0);
    }
    while i < events.len()
        invariant
            i <= events@.len(),
            views_of(items@) == event_items_pass(events@.take(i as int), Set::empty()).0,
            forall|id: u64|
                #[trigger] seen@.contains(id) <==> event_items_pass(
                    events@.take(i as int),
                    Set::empty(),
                ).1.contains(id),
        decreases events@.len() - i,
    {
        let ghost p = event_items_pass(events@.take(i as int), Set::empty());
        let e = &events[i];
        let aid: Option<u64> = match &e.assignment {
            Some(d) => d.id,
            None => None,
        };
        proof {
            assert(aid == event_assignment_id(events@[i as int]));
            assert(events@.take(i + 1).drop_last() =~= events@.take(i as int));
            assert(events@.take(i + 1).last() == events@[i as int]);
        }
        let skip_entry = match aid {
            Some(id) => vec_contains_u64(&seen, id),
            None => false,
        };
        if !skip_entry {
            let title = match &e.title {
                Some(t) => t.clone(),
                None => String::from_str("Untitled"),
            };
            let kind = match &e.event_type {
                Some(t) => if str_eq_str(t.as_str(), "assignment") {
                    CalendarItemKind::Assignment
                } else {
                    CalendarItemKind::Event
                },
                None => CalendarItemKind::Event,
            };
            let it = CalendarItem {
                start_at: e.start_at,
                title,
                kind,
                course_name: None,
                status: None,
                assignment_id: aid,
            };
            proof {
                assert(it@ == item_of_event(events@[i as int]));
            }
            let ghost prev_items = items@;
            items.push(it);
            proof {
                lemma_views_push(prev_items, it);
                assert(p.0.push(it@) =~= p.0 + seq![it@]);
            }
            match aid {
                Some(id) => {
                    let ghost prev_seen = seen@;
                    seen.push(id);
                    proof {
                        assert forall|id2: u64|
                            #[trigger] seen@.contains(id2) <==> p.1.insert(id).contains(id2) by {
                            if seen@.contains(id2) {
                                let q = choose|q: int| 0 <= q < seen@.len() && seen@[q] == id2;
                                if q < prev_seen.len() {
                                    assert(prev_seen[q] == id2);
                                    assert(prev_seen.contains(id2));
                                } else {
                                    assert(id2 == id);
                                }
                            }
                            if p.1.insert(id).contains(id2) {
                                if id2 == id {
                                    assert(seen@[prev_seen.len() as int] == id);
                                } else {
                                    assert(prev_seen.contains(id2));
                                    let q = choose|q: int|
                                        0 <= q < prev_seen.len() && prev_seen[q] == id2;
                                    assert(seen@[q] == id2);
                                }
                            }
                        }
                    }
                },
                None => {},
            }
        }
        i = i + 1;
        proof {
            let p2 = event_items_pass(events@.take(i as int), Set::empty());
            match aid {
                Some(id) => {
                    if skip_entry {
                        assert(p.1.contains(id));
                        assert(p2 == p);
                    } else {
                        assert(!p.1.contains(id));
                        assert(p2.0 == p.0 + seq![item_of_event(events@[i - 1])]);
                        assert(p2.1 == p.1.insert(id));
                    }
                },
                None => {
                    assert(p2.0 == p.0 + seq![item_of_event(events@[i - 1])]);
                    assert(p2.1 == p.1);
                },
            }
        }
    }
    proof {
        assert(events@.take(events@.len() as int) =~= events@);
    }
    let ghost ev = event_items_pass(events@, Set::empty());

    let mut g: usize = 0;
    proof {
        assert(ev.0 + synth_pass(assignments@.take(0), ev.1, now).0 =~= ev.0);
    }
    while g < assignments.len()
        invariant
            g <= assignments@.len(),
            ev == event_items_pass(events@, Set::empty()),
            views_of(items@) == ev.0 + synth_pass(assignments@.take(g as int), ev.1, now).0,
            forall|id: u64|
                #[trigger] seen@.contains(id) <==> synth_pass(
                    assignments@.take(g as int),
                    ev.1,
                    now,
                ).1.contains(id),
        decreases assignments@.len() - g,
    {
        let (course_name, asgns) = &assignments[g];
        let ghost cv = course_name@;
        let ghost sp = synth_pass(assignments@.take(g as int), ev.1, now);
        let mut j: usize = 0;
        proof {
            assert(ev.0 + sp.0 + synth_group_pass(cv, asgns@.take(0), sp.1, now).0 =~= ev.0
                + sp.0);
        }
        while j < asgns.len()
            invariant
                j <= asgns@.len(),
                g < assignments@.len(),
                cv == course_name@,
                asgns@ == assignments@[g as int].1@,
                ev == event_items_pass(events@, Set::empty()),
                sp == synth_pass(assignments@.take(g as int), ev.1, now),
                views_of(items@) == ev.0 + sp.0 + synth_group_pass(
                    cv,
                    asgns@.take(j as int),
                    sp.1,
                    now,
                ).0,
                forall|id: u64|
                    #[trigger] seen@.contains(id) <==> synth_group_pass(
                        cv,
                        asgns@.take(j as int),
                        sp.1,
                        now,
                    ).1.contains(id),
            decreases asgns@.len() - j,
        {
            let ghost gp = synth_group_pass(cv, asgns@.take(j as int), sp.1, now);
            let a = &asgns[j];
            proof {
                assert(asgns@.take(j + 1).drop_last() =~= asgns@.take(j as int));
                assert(asgns@.take(j + 1).last() == asgns@[j as int]);
            }
            let claimed = vec_contains_u64(&seen, a.id);
            if a.due_at.is_some() && !claimed {
                let title = match &a.name {
                    Some(n) => n.clone(),
                    None => String::from_str("Unnamed"),
                };
                let status = derive_status(a, now);
                let it = CalendarItem {
                    start_at: a.due_at,
                    title,
                    kind: CalendarItemKind::Assignment,
                    course_name: Some(course_name.clone()),
                    status,
                    assignment_id: Some(a.id),
                };
                proof {
                    assert(it@ == synth_item(cv, asgns@[j as int], now));
                }
                let ghost prev_items = items@;
                items.push(it);
                let ghost prev_seen = seen@;
                seen.push(a.id);
                proof {
                    lemma_views_push(prev_items, it);
                    assert((ev.0 + sp.0 + gp.0).push(it@) =~= ev.0 + sp.0 + (gp.0 + seq![it@]));
                    let id = a.id;
                    assert forall|id2: u64|
                        #[trigger] seen@.contains(id2) <==> gp.1.insert(id).contains(id2) by {
                        if seen@.contains(id2) {
                            let q = choose|q: int| 0 <= q < seen@.len() && seen@[q] == id2;
                            if q < prev_seen.len() {
                                assert(prev_seen[q] == id2);
                                assert(prev_seen.contains(id2));
                            } else {
                                assert(id2 == id);
                            }
                        }
                        if gp.1.insert(id).contains(id2) {
                            if id2 == id {
                                assert(seen@[prev_seen.len() as int] == id);
                            } else {
                                assert(prev_seen.contains(id2));
                                let q = choose|q: int|
                                    0 <= q < prev_seen.len() && prev_seen[q] == id2;
                                assert(seen@[q] == id2);
                            }
                        }
                    }
                }
            }
            j = j + 1;
            proof {
                let gp2 = synth_group_pass(cv, asgns@.take(j as int), sp.1, now);
                let a0 = asgns@[j - 1];
                if a0.due_at is Some && !gp.1.contains(a0.id) {
                    assert(gp2.0 == gp.0 + seq![synth_item(cv, a0, now)]);
                    assert(gp2.1 == gp.1.insert(a0.id));
                } else {
                    assert(gp2 == gp);
                }
            }
        }
        g = g + 1;
        proof {
            assert(asgns@.take(asgns@.len() as int) =~= asgns@);
            assert(assignments@.take(g as int).drop_last() =~= assignments@.take(g - 1));
            assert(assignments@.take(g as int).last() == assignments@[g - 1]);
            let gpfull = synth_group_pass(cv, asgns@, sp.1, now);
            assert(synth_pass(assignments@.take(g as int), ev.1, now) == (
                sp.0 + gpfull.0,
                gpfull.1,
            ));
            assert(ev.0 + sp.0 + gpfull.0 =~= ev.0 + (sp.0 + gpfull.0));
        }
    }
    proof {
        assert(assignments@.take(assignments@.len() as int) =~= assignments@);
        lemma_merged_ids_unique(events@, assignments@, now);
    }

    sort_calendar_items(items)
}

/// Whether a timeline entry starts on or after the threshold time.
pub open spec fn on_or_after(it: CalendarItem, t: i64) -> bool {
    it.start_at matches Some(d) && d >= t
}

/// Index of the first timeline entry starting on or after `today`; with
/// everything in the past (entries with no start time count as past
/// here), the last entry; 0 on an empty timeline.
pub fn find_today_calendar_idx(items: &Vec<CalendarItem>, today: i64) -> (r: usize)
    ensures
        (exists|i: int| 0 <= i < items@.len() && on_or_after(items@[i], today)) ==> {
            &&& r < items@.len()
            &&& on_or_after(items@[r as int], today)
            &&& forall|k: int| 0 <= k < r ==> !on_or_after(items@[k], today)
        },
        !(exists|i: int| 0 <= i < items@.len() && on_or_after(items@[i], today)) ==> r == (
        if items@.len() == 0 {
            0int
        } else {
            items@.len() - 1
        }),
{
    let n = items.len();
    let mut i: usize = 0;
    while i < n
        invariant
            i <= n == items@.len(),
            forall|k: int| 0 <= k < i ==> !on_or_after(items@[k], today),
        decreases n - i,
    {
        let hit = match items[i].start_at {
            Some(d) => d >= today,
            None => false,
        };
        if hit {
            return i;
        }
        i = i + 1;
    }
    if n == 0 {
        0
    } else {
        n - 1
    }
}

// ─── Laws of the merge ──────────────────────────────────────────────────

proof fn lemma_covered_ids_snoc(events: Seq<CalendarEvent>)
    requires
        events.len() > 0,
    ensures
        forall|id: u64|
            #[trigger] covered_ids(events).contains(id) <==> covered_ids(
                events.drop_last(),
            ).contains(id) || event_assignment_id(events.last()) == Some(id),
{
    let dl = events.drop_last();
    assert forall|id: u64|
        #[trigger] covered_ids(events).contains(id) <==> covered_ids(dl).contains(id)
            || event_assignment_id(events.last()) == Some(id) by {
        if covered_ids(events).contains(id) {
            let k = choose|k: int|
                0 <= k < events.len() && event_assignment_id(events[k]) == Some(id);
            if k < events.len() - 1 {
                assert(dl[k] == events[k]);
                assert(covered_ids(dl).contains(id));
            } else {
                assert(events.last() == events[k]);
            }
        }
        if covered_ids(dl).contains(id) {
            let k = choose|k: int| 0 <= k < dl.len() && event_assignment_id(dl[k]) == Some(id);
            assert(events[k] == dl[k]);
            assert(covered_ids(events).contains(id));
        }
        if event_assignment_id(events.last()) == Some(id) {
            assert(event_assignment_id(events[events.len() - 1]) == Some(id));
            assert(covered_ids(events).contains(id));
        }
    }
}

/// What the deduplicating pass over the events guarantees: the claimed
/// ids are the incoming ones plus every event-embedded id; every entry's
/// backing id, when present, is claimed here and was not claimed before;
/// and no backing id occurs twice.
proof fn lemma_event_items_pass(events: Seq<CalendarEvent>, seen: Set<u64>)
    ensures
        ({
            let r = event_items_pass(events, seen);
            &&& forall|id: u64|
                #[trigger] r.1.contains(id) <==> seen.contains(id) || covered_ids(
                    events,
                ).contains(id)
            &&& forall|i: int|
                0 <= i < r.0.len() && (#[trigger] r.0[i]).assignment_id is Some ==> r.1.contains(
                    r.0[i].assignment_id->0,
                ) && !seen.contains(r.0[i].assignment_id->0)
            &&& ids_unique(r.0)
        }),
    decreases events.len(),
{
    let r = event_items_pass(events, seen);
    if events.len() == 0 {
        assert forall|id: u64| !(#[trigger] covered_ids(events).contains(id)) by {
            if covered_ids(events).contains(id) {
                let k = choose|k: int|
                    0 <= k < events.len() && event_assignment_id(events[k]) == Some(id);
            }
        }
    } else {
        let dl = events.drop_last();
        lemma_event_items_pass(dl, seen);
        lemma_covered_ids_snoc(events);
        let prev = event_items_pass(dl, seen);
        let e = events.last();
        match event_assignment_id(e) {
            Some(id) => {
                if prev.1.contains(id) {
                    assert(r == prev);
                } else {
                    assert(r.0 == prev.0 + seq![item_of_event(e)]);
                    assert(r.1 == prev.1.insert(id));
                    assert(item_of_event(e).assignment_id == Some(id));
                    assert forall|i: int|
                        0 <= i < r.0.len() && (#[trigger] r.0[i]).assignment_id
                            is Some implies r.1.contains(r.0[i].assignment_id->0)
                        && !seen.contains(r.0[i].assignment_id->0) by {
                        if i < prev.0.len() {
                            assert(r.0[i] == prev.0[i]);
                        } else {
                            assert(r.0[i] == item_of_event(e));
                        }
                    }
                    assert forall|i: int, j: int|
                        0 <= i < j < r.0.len() && (#[trigger] r.0[i]).assignment_id
                            is Some implies r.0[i].assignment_id != (
                        #[trigger] r.0[j]).assignment_id by {
                        if j < prev.0.len() {
                            assert(r.0[i] == prev.0[i] && r.0[j] == prev.0[j]);
                        } else {
                            assert(r.0[j] == item_of_event(e));
                            assert(r.0[i] == prev.0[i]);
                            assert(prev.1.contains(prev.0[i].assignment_id->0));
                        }
                    }
                }
            },
            None => {
                assert(r.0 == prev.0 + seq![item_of_event(e)]);
                assert(r.1 == prev.1);
                assert(item_of_event(e).assignment_id is None);
                assert forall|i: int|
                    0 <= i < r.0.len() && (#[trigger] r.0[i]).assignment_id is Some implies r
                    .1.contains(r.0[i].assignment_id->0) && !seen.contains(
                    r.0[i].assignment_id->0,
                ) by {
                    if i < prev.0.len() {
                        assert(r.0[i] == prev.0[i]);
                    } else {
                        assert(r.0[i] == item_of_event(e));
                    }
                }
                assert forall|i: int, j: int|
                    0 <= i < j < r.0.len() && (#[trigger] r.0[i]).assignment_id is Some implies r
                    .0[i].assignment_id != (#[trigger] r.0[j]).assignment_id by {
                    if j < prev.0.len() {
                        assert(r.0[i] == prev.0[i] && r.0[j] == prev.0[j]);
                    } else {
                        assert(r.0[j] == item_of_event(e));
                    }
                }
            },
        }
    }
}

/// What the deduplicating pass over one course's list guarantees: the
/// claimed ids only grow; every synthesized entry's backing id is claimed
/// here and was not claimed before; no backing id occurs twice.
proof fn lemma_synth_group_pass(
    course: Seq<char>,
    asgns: Seq<Assignment>,
    seen: Set<u64>,
    now: i64,
)
    ensures
        ({
            let r = synth_group_pass(course, asgns, seen, now);
            &&& forall|id: u64| seen.contains(id) ==> #[trigger] r.1.contains(id)
            &&& forall|i: int|
                0 <= i < r.0.len() ==> (#[trigger] r.0[i]).assignment_id is Some && r.1.contains(
                    r.0[i].assignment_id->0,
                ) && !seen.contains(r.0[i].assignment_id->0)
            &&& ids_unique(r.0)
        }),
    decreases asgns.len(),
{
    let r = synth_group_pass(course, asgns, seen, now);
    if asgns.len() == 0 {
    } else {
        let dl = asgns.drop_last();
        lemma_synth_group_pass(course, dl, seen, now);
        let prev = synth_group_pass(course, dl, seen, now);
        let a = asgns.last();
        if a.due_at is Some && !prev.1.contains(a.id) {
            assert(r.0 == prev.0 + seq![synth_item(course, a, now)]);
            assert(r.1 == prev.1.insert(a.id));
            assert(synth_item(course, a, now).assignment_id == Some(a.id));
            assert forall|i: int|
                0 <= i < r.0.len() implies (#[trigger] r.0[i]).assignment_id is Some
                && r.1.contains(r.0[i].assignment_id->0) && !seen.contains(
                r.0[i].assignment_id->0,
            ) by {
                if i < prev.0.len() {
                    assert(r.0[i] == prev.0[i]);
                } else {
                    assert(r.0[i] == synth_item(course, a, now));
                }
            }
            assert forall|i: int, j: int|
                0 <= i < j < r.0.len() && (#[trigger] r.0[i]).assignment_id is Some implies r
                .0[i].assignment_id != (#[trigger] r.0[j]).assignment_id by {
                if j < prev.0.len() {
                    assert(r.0[i] == prev.0[i] && r.0[j] == prev.0[j]);
                } else {
                    assert(r.0[j] == synth_item(course, a, now));
                    assert(r.0[i] == prev.0[i]);
                    assert(prev.1.contains(prev.0[i].assignment_id->0));
                }
            }
        } else {
            assert(r == prev);
        }
    }
}

/// The same guarantees for the pass over all courses.
proof fn lemma_synth_pass(groups: Seq<(String, Vec<Assignment>)>, seen: Set<u64>, now: i64)
    ensures
        ({
            let r = synth_pass(groups, seen, now);
            &&& forall|id: u64| seen.contains(id) ==> #[trigger] r.1.contains(id)
            &&& forall|i: int|
                0 <= i < r.0.len() ==> (#[trigger] r.0[i]).assignment_id is Some && r.1.contains(
                    r.0[i].assignment_id->0,
                ) && !seen.contains(r.0[i].assignment_id->0)
            &&& ids_unique(r.0)
        }),
    decreases groups.len(),
{
    let r = synth_pass(groups, seen, now);
    if groups.len() == 0 {
    } else {
        let dl = groups.drop_last();
        lemma_synth_pass(dl, seen, now);
        let prev = synth_pass(dl, seen, now);
        let g = groups.last();
        lemma_synth_group_pass(g.0@, g.1@, prev.1, now);
        let gp = synth_group_pass(g.0@, g.1@, prev.1, now);
        assert(r.0 == prev.0 + gp.0);
        assert(r.1 == gp.1);
        assert forall|i: int|
            0 <= i < r.0.len() implies (#[trigger] r.0[i]).assignment_id is Some && r.1.contains(
            r.0[i].assignment_id->0,
        ) && !seen.contains(r.0[i].assignment_id->0) by {
            if i < prev.0.len() {
                assert(r.0[i] == prev.0[i]);
                assert(prev.1.contains(prev.0[i].assignment_id->0));
            } else {
                assert(r.0[i] == gp.0[i - prev.0.len()]);
                assert(!prev.1.contains(gp.0[i - prev.0.len()].assignment_id->0));
            }
        }
        assert forall|i: int, j: int|
            0 <= i < j < r.0.len() && (#[trigger] r.0[i]).assignment_id is Some implies r
            .0[i].assignment_id != (#[trigger] r.0[j]).assignment_id by {
            if j < prev.0.len() {
                assert(r.0[i] == prev.0[i] && r.0[j] == prev.0[j]);
            } else if i >= prev.0.len() {
                assert(r.0[i] == gp.0[i - prev.0.len()] && r.0[j] == gp.0[j - prev.0.len()]);
            } else {
                assert(r.0[i] == prev.0[i] && r.0[j] == gp.0[j - prev.0.len()]);
                assert(prev.1.contains(prev.0[i].assignment_id->0));
                assert(!prev.1.contains(gp.0[j - prev.0.len()].assignment_id->0));
            }
        }
    }
}

/// Sorting a timeline neither invents nor merges backing ids: an id
/// unique before the sort is unique after it.
proof fn lemma_sort_ids_unique(s: Seq<CalendarItemV>)
    requires
        ids_unique(s),
    ensures
        ids_unique(sort_items(s)),
{
    broadcast use vstd::seq_lib::group_to_multiset_ensures;
    broadcast use vstd::multiset::group_multiset_axioms;

    lemma_sort_items_sorted(s);
    lemma_sort_items_permutes(s);
    let t = sort_items(s);
    assert forall|i: int, j: int|
        0 <= i < j < t.len() && (#[trigger] t[i]).assignment_id is Some implies t[i].assignment_id
        != (#[trigger] t[j]).assignment_id by {
        if t[i].assignment_id == t[j].assignment_id {
            let x = t[i];
            let y = t[j];
            if x == y {
                assert(t.remove(i)[j - 1] == t[j]);
                assert(t.remove(i).contains(x));
                assert(t.remove(i).to_multiset() == t.to_multiset().remove(x));
                assert(t.remove(i).to_multiset().count(x) > 0);
                assert(t.to_multiset().count(x) >= 2);
                assert(s.to_multiset().count(x) >= 2);
                assert(s.contains(x));
                let k1 = choose|k: int| 0 <= k < s.len() && s[k] == x;
                assert(s.remove(k1).to_multiset() == s.to_multiset().remove(x));
                assert(s.remove(k1).to_multiset().count(x) > 0);
                assert(s.remove(k1).contains(x));
                let p = choose|p: int| 0 <= p < s.remove(k1).len() && s.remove(k1)[p] == x;
                let k2 = if p < k1 {
                    p
                } else {
                    p + 1
                };
                assert(s[k2] == x);
                assert(k1 != k2);
                if k1 < k2 {
                    assert(s[k1].assignment_id != s[k2].assignment_id);
                } else {
                    assert(s[k2].assignment_id != s[k1].assignment_id);
                }
            } else {
                assert(t.contains(x));
                assert(t.contains(y));
                assert(s.contains(x));
                assert(s.contains(y));
                let kx = choose|k: int| 0 <= k < s.len() && s[k] == x;
                let ky = choose|k: int| 0 <= k < s.len() && s[k] == y;
                assert(kx != ky);
                if kx < ky {
                    assert(s[kx].assignment_id != s[ky].assignment_id);
                } else {
                    assert(s[ky].assignment_id != s[kx].assignment_id);
                }
            }
        }
    }
}

/// A backing assignment id, when present, is unique across the merged
/// timeline: an assignment never appears twice, whether the events
/// source, the assignments source, or both reference it.
pub proof fn lemma_merged_ids_unique(
    events: Seq<CalendarEvent>,
    groups: Seq<(String, Vec<Assignment>)>,
    now: i64,
)
    ensures
        ids_unique(merged_items(events, groups, now)),
{
    let ev = event_items_pass(events, Set::empty());
    let sy = synth_pass(groups, ev.1, now);
    lemma_event_items_pass(events, Set::empty());
    lemma_synth_pass(groups, ev.1, now);
    let all = ev.0 + sy.0;
    assert forall|i: int, j: int|
        0 <= i < j < all.len() && (#[trigger] all[i]).assignment_id is Some implies all[
        i].assignment_id != (#[trigger] all[j]).assignment_id by {
        if j < ev.0.len() {
            assert(all[i] == ev.0[i] && all[j] == ev.0[j]);
        } else if i >= ev.0.len() {
            assert(all[i] == sy.0[i - ev.0.len()] && all[j] == sy.0[j - ev.0.len()]);
        } else {
            assert(all[i] == ev.0[i] && all[j] == sy.0[j - ev.0.len()]);
            assert(ev.1.contains(ev.0[i].assignment_id->0));
            assert(!ev.1.contains(sy.0[j - ev.0.len()].assignment_id->0));
        }
    }
    lemma_sort_ids_unique(all);
}

/// An assignment whose id already appears through a calendar event's
/// embedded reference never gains a synthesized entry: every merged entry
/// whose backing id an event covers came from the events themselves.
pub proof fn lemma_no_duplicate_assignment_entry(
    events: Seq<CalendarEvent>,
    groups: Seq<(String, Vec<Assignment>)>,
    now: i64,
)
    ensures
        forall|x: CalendarItemV|
            #[trigger] merged_items(events, groups, now).contains(x) && x.assignment_id is Some
                && covered_ids(events).contains(x.assignment_id->0) ==> event_items_pass(
                events,
                Set::empty(),
            ).0.contains(x),
{
    let ev = event_items_pass(events, Set::empty());
    let sy = synth_pass(groups, ev.1, now);
    lemma_event_items_pass(events, Set::empty());
    lemma_synth_pass(groups, ev.1, now);
    lemma_sort_items_sorted(ev.0 + sy.0);
    assert forall|x: CalendarItemV|
        #[trigger] merged_items(events, groups, now).contains(x) && x.assignment_id is Some
            && covered_ids(events).contains(x.assignment_id->0) implies ev.0.contains(x) by {
        assert((ev.0 + sy.0).contains(x));
        let k = choose|k: int| 0 <= k < (ev.0 + sy.0).len() && (ev.0 + sy.0)[k] == x;
        if k < ev.0.len() {
            assert(ev.0[k] == x);
        } else {
            assert(sy.0[k - ev.0.len()] == x);
            assert(!ev.1.contains(x.assignment_id->0));
            assert(ev.1.contains(x.assignment_id->0));
        }
    }
}

/// Merging is a pure function of its inputs: two runs on the same calendar
/// events, the same assignment lists and the same time give the identical
/// timeline.
pub proof fn lemma_merge_idempotent(
    a: Seq<CalendarItemV>,
    b: Seq<CalendarItemV>,
    events: Seq<CalendarEvent>,
    groups: Seq<(String, Vec<Assignment>)>,
    now: i64,
)
    requires
        a == merged_items(events, groups, now),
        b == merged_items(events, groups, now),
    ensures
        a == b,
{
}

// ─── Looking an assignment up by id ─────────────────────────────────────

/// The first assignment with the given id in one course's list.
pub open spec fn assignment_in_list(asgns: Seq<Assignment>, id: u64) -> Option<Assignment>
    decreases asgns.len(),
{
    if asgns.len() == 0 {
        None
    } else if asgns[0].id == id {
        Some(asgns[0])
    } else {
        assignment_in_list(asgns.drop_first(), id)
    }
}

/// The course name and assignment of the first match, scanning courses in
/// order and each course's list in order.
pub open spec fn assignment_by_id_spec(
    groups: Seq<(String, Vec<Assignment>)>,
    id: u64,
) -> Option<(String, Assignment)>
    decreases groups.len(),
{
    if groups.len() == 0 {
        None
    } else {
        match assignment_in_list(groups[0].1@, id) {
            Some(a) => Some((groups[0].0, a)),
            None => assignment_by_id_spec(groups.drop_first(), id),
        }
    }
}

/// Look a full (course name, assignment) up by assignment id across the
/// per-course lists; the first match wins.
pub fn get_assignment_by_id<'a>(
    assignments: &'a Vec<(String, Vec<Assignment>)>,
    id: u64,
) -> (r: Option<(&'a String, &'a Assignment)>)
    ensures
        r is None <==> assignment_by_id_spec(assignments@, id) is None,
        r matches Some((name, a)) ==> assignment_by_id_spec(assignments@, id) == Some((*name, *a)),
{
    let mut g: usize = 0;
    proof {
        assert(assignments@.skip(0) =~= assignments@);
    }
    while g < assignments.len()
        invariant
            g <= assignments@.len(),
            assignment_by_id_spec(assignments@, id) == assignment_by_id_spec(
                assignments@.skip(g as int),
                id,
            ),
        decreases assignments@.len() - g,
    {
        let (name, asgns) = &assignments[g];
        let mut j: usize = 0;
        proof {
            assert(asgns@.skip(0) =~= asgns@);
        }
        while j < asgns.len()
            invariant
                j <= asgns@.len(),
                g < assignments@.len(),
                asgns@ == assignments@[g as int].1@,
                *name == assignments@[g as int].0,
                assignment_by_id_spec(assignments@, id) == assignment_by_id_spec(
                    assignments@.skip(g as int),
                    id,
                ),
                assignment_in_list(asgns@, id) == assignment_in_list(asgns@.skip(j as int), id),
            decreases asgns@.len() - j,
        {
            proof {
                assert(asgns@.skip(j as int)[0] == asgns@[j as int]);
                assert(asgns@.skip(j as int).drop_first() =~= asgns@.skip(j + 1));
            }
            if asgns[j].id == id {
                proof {
                    assert(assignment_in_list(asgns@, id) == Some(asgns@[j as int]));
                    assert(assignments@.skip(g as int)[0] == assignments@[g as int]);
                }
                return Some((name, &asgns[j]));
            }
            j = j + 1;
        }
        proof {
            assert(asgns@.skip(asgns@.len() as int) =~= Seq::<Assignment>::empty());
            assert(assignment_in_list(asgns@, id) is None);
            assert(assignments@.skip(g as int)[0] == assignments@[g as int]);
            assert(assignments@.skip(g as int).drop_first() =~= assignments@.skip(g + 1));
        }
        g = g + 1;
    }
    proof {
        assert(assignments@.skip(assignments@.len() as int) =~= Seq::<
            (String, Vec<Assignment>),
        >::empty());
    }
    None
}

} // verus!