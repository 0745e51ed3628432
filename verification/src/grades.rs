//! Grade summaries for the student role, extracted from fetched courses.

use vstd::prelude::*;

use crate::models::{Course, CourseGrade, Enrollment};
use crate::strutil::str_eq_str;
use crate::sync::course_display_name;

verus! {

/// Ghost image of one course's grade summary.
pub struct CourseGradeV {
    pub course_id: u64,
    pub course_name: Seq<char>,
    pub current_score_tenths: Option<u64>,
    pub current_grade: Option<Seq<char>>,
    pub final_score_tenths: Option<u64>,
    pub final_grade: Option<Seq<char>>,
}

impl View for CourseGrade {
    type V = CourseGradeV;

    open spec fn view(&self) -> CourseGradeV {
        CourseGradeV {
            course_id: self.course_id,
            course_name: self.course_name@,
            current_score_tenths: self.current_score_tenths,
            current_grade: match self.current_grade {
                Some(g) => Some(g@),
                None => None,
            },
            final_score_tenths: self.final_score_tenths,
            final_grade: match self.final_grade {
                Some(g) => Some(g@),
                None => None,
            },
        }
    }
}

pub open spec fn grade_views_of(s: Seq<CourseGrade>) -> Seq<CourseGradeV> {
    s.map_values(|g: CourseGrade| g@)
}

/// Whether an enrollment is the student's own.
pub open spec fn is_student(e: Enrollment) -> bool {
    e.enrollment_type matches Some(t) && t@ == "student"@
}

/// Index of the first student enrollment, or the length when none is.
pub open spec fn student_idx(es: Seq<Enrollment>) -> nat
    decreases es.len(),
{
    if es.len() == 0 {
        0
    } else if is_student(es[0]) {
        0
    } else {
        1 + student_idx(es.drop_first())
    }
}

proof fn lemma_student_idx(es: Seq<Enrollment>)
    ensures
        student_idx(es) <= es.len(),
        student_idx(es) < es.len() ==> is_student(es[student_idx(es) as int]),
        forall|k: int| 0 <= k < student_idx(es) ==> !is_student(es[k]),
    decreases es.len(),
{
    if es.len() == 0 {
    } else if is_student(es[0]) {
    } else {
        lemma_student_idx(es.drop_first());
        assert forall|k: int| 0 <= k < student_idx(es) implies !is_student(es[k]) by {
            if k > 0 {
                assert(es.drop_first()[k - 1] == es[k]);
                assert(!is_student(es.drop_first()[k - 1]));
            }
        }
    }
}

/// The grade summary one course yields: the first student enrollment's
/// computed scores and letter grades, under the course's display name; a
/// course without enrollments or without a student role yields none.
pub open spec fn grade_of(c: Course) -> Option<CourseGradeV> {
    match c.enrollments {
        None => None,
        Some(es) => if student_idx(es@) < es@.len() {
            let e = es@[student_idx(es@) as int];
            Some(
                CourseGradeV {
                    course_id: c.id,
                    course_name: course_display_name(c),
                    current_score_tenths: e.computed_current_score_tenths,
                    current_grade: match e.computed_current_grade {
                        Some(g) => Some(g@),
                        None => None,
                    },
                    final_score_tenths: e.computed_final_score_tenths,
                    final_grade: match e.computed_final_grade {
                        Some(g) => Some(g@),
                        None => None,
                    },
                },
            )
        } else {
            None
        },
    }
}

/// The grade summaries of all courses, in course order.
pub open spec fn grades_of(cs: Seq<Course>) -> Seq<CourseGradeV>
    decreases cs.len(),
{
    if cs.len() == 0 {
        Seq::empty()
    } else {
        grades_of(cs.drop_last()) + (match grade_of(cs.last()) {
            Some(g) => seq![g],
            None => Seq::empty(),
        })
    }
}

fn is_student_exec(e: &Enrollment) -> (r: bool)
    ensures
        r == is_student(*e),
{
    match &e.enrollment_type {
        Some(t) => str_eq_str(t.as_str(), "student"),
        None => false,
    }
}

proof fn lemma_grade_views_push(s: Seq<CourseGrade>, x: CourseGrade)
    ensures
        grade_views_of(s.push(x)) == grade_views_of(s).push(x@),
{
    assert(grade_views_of(s.push(x)) =~= grade_views_of(s).push(x@));
}

/// The grade summary of each course that carries a student enrollment, in
/// course order.
pub fn extract_grades(courses: &Vec<Course>) -> (r: Vec<CourseGrade>)
    ensures
        grade_views_of(r@) == grades_of(courses@),
{
    let mut out: Vec<CourseGrade> = Vec::new();
    let mut i: usize = 0;
    proof {
        assert(grade_views_of(out@) =~= grades_of(courses@.take(0)));
    }
    while i < courses.len()
        invariant
            i <= courses@.len(),
            grade_views_of(out@) == grades_of(courses@.take(i as int)),
        decreases courses@.len() - i,
    {
        let c = &courses[i];
        match &c.enrollments {
            Some(es) => {
                let ghost esv = es@;
                let mut j: usize = 0;
                let mut found = false;
                while j < es.len() && !found
                    invariant
                        j <= es@.len(),
                        esv == es@,
                        forall|k: int| 0 <= k < j ==> !is_student(esv[k]),
                        found ==> j < esv.len() && is_student(esv[j as int]),
                    decreases es@.len() - j, (if found { 0int } else { 1int }),
                {
                    if is_student_exec(&es[j]) {
                        found = true;
                    } else {
                        j = j + 1;
                    }
                }
                proof {
                    lemma_student_idx(esv);
                    if found {
                        assert(j as nat == student_idx(esv));
                    } else {
                        assert(j == esv.len());
                        if student_idx(esv) < esv.len() {
                            assert(is_student(esv[student_idx(esv) as int]));
                        }
                    }
                }
                if found {
                    let e = &es[j];
                    let name = match &c.name {
                        Some(n) => n.clone(),
                        None => String::from_str("Unnamed"),
                    };
                    let g = CourseGrade {
                        course_id: c.id,
                        course_name: name,
                        current_score_tenths: e.computed_current_score_tenths,
                        current_grade: match &e.computed_current_grade {
                            Some(x) => Some(x.clone()),
                            None => None,
                        },
                        final_score_tenths: e.computed_final_score_tenths,
                        final_grade: match &e.computed_final_grade {
                            Some(x) => Some(x.clone()),
                            None => None,
                        },
                    };
                    proof {
                        assert(grade_of(courses@[i as int]) == Some(g@));
                    }
                    let ghost prev = out@;
                    out.push(g);
                    proof {
                        lemma_grade_views_push(prev, g);
                    }
                } else {
                    proof {
                        assert(grade_of(courses@[i as int]) is None);
                    }
                }
            },
            None => {
                proof {
                    assert(grade_of(courses@[i as int]) is None);
                }
            },
        }
        i = i + 1;
        proof {
            assert(courses@.take(i as int).drop_last() =~= courses@.take(i - 1));
            assert(courses@.take(i as int).last() == courses@[i - 1]);
            assert(grade_views_of(out@) =~= grades_of(courses@.take(i as int)));
        }
    }
    proof {
        assert(courses@.take(courses@.len() as int) =~= courses@);
    }
    out
}

} // verus!
