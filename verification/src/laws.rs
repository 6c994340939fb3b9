//! Properties of the library that relate several of its operations, each
//! stated over the views that the operations' own contracts use.

use vstd::prelude::*;

use crate::course::{
    count_lessons, course_minutes, lemma_lesson_ids_len, lesson_ids, module_lessons, module_minutes, Course,
};
use crate::enrollment::{Enrollment, EnrollmentStatus};
use crate::lesson::Lesson;
use crate::module::{lesson_key, lesson_minutes, sum_durations, Module};
use crate::course::module_key;
use crate::ordering::{has_key, is_stable_sort_of};
use crate::quiz::{earned_points, grade_of, graded_count, max_points, question_points, Quiz};
use crate::sums::{lemma_sum_take_next, sum_of};
use crate::progress::{is_fresh, lesson_completed, percent_of, time_added, Progress};
use crate::quiz::{answer_is_correct, percentage_of, Answer, QuestionKind, QuizResult};
use crate::ids::{CourseId, StudentId};
use crate::sums::{lemma_sum_permutation, lemma_sum_push};
use crate::system::{after_drop, enrolled_in, enrollment_active, is_active_enrollment_of, Lms};

verus! {

broadcast use vstd::seq_lib::group_to_multiset_ensures;

/// Adding a lesson to a module adds exactly one lesson, and adds its
/// duration to the module's total duration, wherever the lesson lands.
pub proof fn law_add_lesson_totals(before: Module, after: Module, lesson: Lesson)
    requires
        after.lessons@.to_multiset() == before.lessons@.push(lesson).to_multiset(),
    ensures
        after.lessons@.len() == before.lessons@.len() + 1,
        sum_durations(after.lessons@) == sum_durations(before.lessons@) + lesson.duration_minutes,
{
    assert(after.lessons@.len() == after.lessons@.to_multiset().len());
    assert(before.lessons@.push(lesson).len() == before.lessons@.push(lesson).to_multiset().len());
    lemma_sum_permutation(after.lessons@, before.lessons@.push(lesson), lesson_minutes());
    lemma_sum_push(before.lessons@, lesson_minutes(), lesson);
}

/// The lessons of `s` whose order is `k`, in their order in `s`.
pub open spec fn lessons_of_order(s: Seq<Lesson>, k: int) -> Seq<Lesson> {
    s.filter(|l: Lesson| l.order as int == k)
}

/// The modules of `s` whose order is `k`, in their order in `s`.
pub open spec fn modules_of_order(s: Seq<Module>, k: int) -> Seq<Module> {
    s.filter(|m: Module| m.order as int == k)
}

/// After adding a lesson the lessons run in nondecreasing `order`, and the
/// lessons of any one `order` are those before the addition followed by the
/// new one if it has that order, in the same relative order.
pub proof fn law_add_lesson_ordered(before: Module, after: Module, lesson: Lesson)
    requires
        is_stable_sort_of(after.lessons@, before.lessons@.push(lesson), lesson_key()),
    ensures
        forall|i: int, j: int|
            0 <= i <= j < after.lessons@.len() ==> (#[trigger] after.lessons@[i]).order <= (
            #[trigger] after.lessons@[j]).order,
        forall|k: int|
            #[trigger] lessons_of_order(after.lessons@, k) == lessons_of_order(before.lessons@.push(lesson), k),
{
    assert forall|i: int, j: int|
        0 <= i <= j < after.lessons@.len() implies (#[trigger] after.lessons@[i]).order <= (
        #[trigger] after.lessons@[j]).order by {
        assert(lesson_key()(after.lessons@[i]) <= lesson_key()(after.lessons@[j]));
    }
    assert forall|k: int|
        #[trigger] lessons_of_order(after.lessons@, k) == lessons_of_order(before.lessons@.push(lesson), k) by {
        assert(has_key(lesson_key(), k) =~= (|l: Lesson| l.order as int == k));
        assert(crate::ordering::with_key(after.lessons@, lesson_key(), k) == crate::ordering::with_key(
            before.lessons@.push(lesson),
            lesson_key(),
            k,
        ));
    }
}

/// After adding a module the modules run in nondecreasing `order`, and the
/// modules of any one `order` keep their relative order, the new one last.
pub proof fn law_add_module_ordered(before: Course, after: Course, module: Module)
    requires
        is_stable_sort_of(after.modules@, before.modules@.push(module), module_key()),
    ensures
        forall|i: int, j: int|
            0 <= i <= j < after.modules@.len() ==> (#[trigger] after.modules@[i]).order <= (
            #[trigger] after.modules@[j]).order,
        forall|k: int|
            #[trigger] modules_of_order(after.modules@, k) == modules_of_order(before.modules@.push(module), k),
{
    assert forall|i: int, j: int|
        0 <= i <= j < after.modules@.len() implies (#[trigger] after.modules@[i]).order <= (
        #[trigger] after.modules@[j]).order by {
        assert(module_key()(after.modules@[i]) <= module_key()(after.modules@[j]));
    }
    assert forall|k: int|
        #[trigger] modules_of_order(after.modules@, k) == modules_of_order(before.modules@.push(module), k) by {
        assert(has_key(module_key(), k) =~= (|m: Module| m.order as int == k));
        assert(crate::ordering::with_key(after.modules@, module_key(), k) == crate::ordering::with_key(
            before.modules@.push(module),
            module_key(),
            k,
        ));
    }
}

proof fn lemma_earned_all_or_nothing(quiz: Quiz, answers: Seq<Answer>, n: int, all: bool)
    requires
        0 <= n <= quiz.questions@.len(),
        n <= answers.len(),
        forall|i: int|
            0 <= i < n ==> answer_is_correct(#[trigger] quiz.questions@[i].kind, answers[i]) == all,
    ensures
        earned_points(quiz.questions@, answers, n) == (if all {
            sum_of(quiz.questions@.take(n), question_points())
        } else {
            0
        }),
    decreases n,
{
    if n > 0 {
        lemma_earned_all_or_nothing(quiz, answers, n - 1, all);
        lemma_sum_take_next(quiz.questions@, question_points(), n - 1);
    }
}

/// Answering every question correctly earns every point of the quiz, and
/// answering none correctly earns nothing; answers past the last question
/// are ignored.
pub proof fn law_grade_full_and_empty(quiz: Quiz, answers: Seq<Answer>)
    requires
        answers.len() >= quiz.questions@.len(),
        max_points(quiz.questions@) <= u32::MAX,
    ensures
        (forall|i: int|
            0 <= i < quiz.questions@.len() ==> answer_is_correct(
                #[trigger] quiz.questions@[i].kind,
                answers[i],
            )) ==> grade_of(quiz, answers).earned == grade_of(quiz, answers).max,
        (forall|i: int|
            0 <= i < quiz.questions@.len() ==> !answer_is_correct(
                #[trigger] quiz.questions@[i].kind,
                answers[i],
            )) ==> grade_of(quiz, answers).earned == 0,
        grade_of(quiz, answers) == grade_of(quiz, answers.take(quiz.questions@.len() as int)),
{
    let q = quiz.questions@;
    let n = q.len() as int;
    assert(q.take(n) == q);
    assert(graded_count(q, answers) == n);
    if forall|i: int| 0 <= i < n ==> answer_is_correct(#[trigger] q[i].kind, answers[i]) {
        lemma_earned_all_or_nothing(quiz, answers, n, true);
    }
    if forall|i: int| 0 <= i < n ==> !answer_is_correct(#[trigger] q[i].kind, answers[i]) {
        lemma_earned_all_or_nothing(quiz, answers, n, false);
    }
    lemma_earned_same_prefix(q, answers, answers.take(n), n);
}

proof fn lemma_earned_same_prefix(q: Seq<crate::quiz::Question>, a: Seq<Answer>, b: Seq<Answer>, n: int)
    requires
        0 <= n <= a.len(),
        n <= b.len(),
        forall|i: int| 0 <= i < n ==> a[i] == b[i],
    ensures
        earned_points(q, a, n) == earned_points(q, b, n),
    decreases n,
{
    if n > 0 {
        lemma_earned_same_prefix(q, a, b, n - 1);
    }
}

/// The tests behind the enrollment and certificate queries: an active
/// enrollment has status `Active`, and the per-student and per-course
/// queries select by the student or course identifier.
pub proof fn law_query_tests(e: Enrollment, c: crate::system::IssuedCertificate, id: u64)
    ensures
        crate::system::enrollment_active()(e) == (e.status == EnrollmentStatus::Active),
        crate::system::enrollment_of_student(id)(e) == (e.student_id == id),
        crate::system::enrollment_in_course(id)(e) == (e.course_id == id),
        crate::system::certificate_of_student(id)(c) == (c.student_id == id),
        is_active_enrollment_of(e, id, id) == (e.student_id == id && e.course_id == id
            && e.status == EnrollmentStatus::Active),
{
}

/// Adding a module to a course adds its lessons to the course's lesson count
/// and its duration to the course's total duration.
pub proof fn law_add_module_totals(before: Course, after: Course, module: Module)
    requires
        after.modules@.to_multiset() == before.modules@.push(module).to_multiset(),
    ensures
        after.modules@.len() == before.modules@.len() + 1,
        count_lessons(after.modules@) == count_lessons(before.modules@) + module.lessons@.len(),
        course_minutes(after.modules@) == course_minutes(before.modules@) + sum_durations(
            module.lessons@,
        ),
{
    assert(after.modules@.len() == after.modules@.to_multiset().len());
    assert(before.modules@.push(module).len() == before.modules@.push(module).to_multiset().len());
    lemma_sum_permutation(after.modules@, before.modules@.push(module), module_lessons());
    lemma_sum_push(before.modules@, module_lessons(), module);
    lemma_sum_permutation(after.modules@, before.modules@.push(module), module_minutes());
    lemma_sum_push(before.modules@, module_minutes(), module);
}

/// Progress as enrollment starts it has nothing completed, no time spent,
/// 0 percent, and the given lesson total.
pub proof fn law_fresh_progress(p: Progress, student_id: u64, course_id: u64, total: usize)
    requires
        is_fresh(p, student_id, course_id, total),
    ensures
        p.completed().len() == 0,
        p.minutes() == 0,
        p.lesson_total() == total,
        p.student() == student_id,
        p.course() == course_id,
        percent_of(p.completed().len() as int, p.lesson_total() as int) == 0,
{
}

/// Adding study time adds exactly that many minutes and leaves the
/// completed lessons alone.
pub proof fn law_add_time_adds_minutes(p0: Progress, p1: Progress, minutes: u32)
    requires
        time_added(p0, p1, minutes),
    ensures
        p1.minutes() as int == p0.minutes() as int + minutes as int,
        p1.completed() == p0.completed(),
        p1.lesson_total() == p0.lesson_total(),
{
}

/// Completing the same lesson twice is the same as completing it once.
pub proof fn law_complete_lesson_idempotent(p0: Progress, p1: Progress, p2: Progress, lesson_id: u64)
    requires
        lesson_completed(p0, p1, lesson_id),
        lesson_completed(p1, p2, lesson_id),
    ensures
        p2.completed() == p1.completed(),
        p2.minutes() == p1.minutes(),
        p2.lesson_total() == p1.lesson_total(),
{
    assert(p1.completed().contains(lesson_id)) by {
        if !p0.completed().contains(lesson_id) {
            assert(p1.completed()[p0.completed().len() as int] == lesson_id);
        }
    }
}

/// A completed lesson is counted once: it is among the completed lessons,
/// the count grows by one only if it was not there before, and no lesson is
/// counted twice.
pub proof fn law_complete_lesson_counts_once(p0: Progress, p1: Progress, lesson_id: u64)
    requires
        p0.wf(),
        lesson_completed(p0, p1, lesson_id),
    ensures
        p1.wf(),
        p1.completed().contains(lesson_id),
        p1.completed().len() == p0.completed().len() + (if p0.completed().contains(lesson_id) {
            0int
        } else {
            1int
        }),
{
    if !p0.completed().contains(lesson_id) {
        assert(p1.completed()[p0.completed().len() as int] == lesson_id);
        let s = p0.completed();
        assert forall|a: int, b: int| 0 <= a < b < s.len() + 1 implies p1.completed()[a]
            != p1.completed()[b] by {
            if b == s.len() {
                assert(s[a] != lesson_id);
            }
        }
    }
}

/// For a course with lessons, progress is complete exactly when its
/// completion percentage is 100.
pub proof fn law_complete_iff_full_percent(completed: nat, total: nat)
    requires
        total > 0,
    ensures
        (percent_of(completed as int, total as int) == 100) == (completed >= total),
        0 <= percent_of(completed as int, total as int) <= 100,
{
    if completed >= total {
        assert(completed * 100 >= total * 100) by (nonlinear_arith)
            requires
                completed >= total,
        ;
        assert(completed * 100 / total >= 100) by (nonlinear_arith)
            requires
                completed * 100 >= total * 100,
                total > 0,
        ;
    } else {
        assert(completed * 100 / total < 100) by (nonlinear_arith)
            requires
                completed < total,
                total > 0,
        ;
    }
    assert(completed * 100 / total >= 0) by (nonlinear_arith)
        requires
            total > 0,
    ;
}

/// A fill-in answer is correct exactly when its text has as many UTF-8
/// bytes as the expected text and the two agree byte for byte once the ASCII
/// capitals A to Z are mapped to a to z; in particular a strict prefix of
/// the expected text is never correct.
pub proof fn law_fill_in_answer_correct(expected: String, text: String)
    ensures
        answer_is_correct(QuestionKind::FillIn { expected }, Answer::Text(text)) == ({
            let a = vstd::utf8::encode_utf8(text@);
            let b = vstd::utf8::encode_utf8(expected@);
            &&& a.len() == b.len()
            &&& forall|i: int|
                0 <= i < a.len() ==> (if 65 <= #[trigger] a[i] <= 90 {
                    a[i] + 32
                } else {
                    a[i] as int
                }) == (if 65 <= b[i] <= 90 {
                    b[i] + 32
                } else {
                    b[i] as int
                })
        }),
        vstd::utf8::encode_utf8(text@).len() != vstd::utf8::encode_utf8(expected@).len()
            ==> !answer_is_correct(QuestionKind::FillIn { expected }, Answer::Text(text)),
{
    let a = vstd::utf8::encode_utf8(text@);
    let b = vstd::utf8::encode_utf8(expected@);
    assert forall|i: int| 0 <= i < a.len() && i < b.len() implies (crate::text::ascii_lower(a[i])
        == crate::text::ascii_lower(b[i])) == ((if 65 <= a[i] <= 90 {
        a[i] + 32
    } else {
        a[i] as int
    }) == (if 65 <= b[i] <= 90 {
        b[i] + 32
    } else {
        b[i] as int
    })) by {}
}

/// A multiple-choice answer is correct exactly when it picks the correct
/// choice, and an answer of the other sort is never correct.
pub proof fn law_choice_answer_correct(choices: Vec<String>, correct: usize, expected: String, i: usize, text: String)
    ensures
        answer_is_correct(QuestionKind::MultipleChoice { choices, correct }, Answer::Choice(i)) == (i
            == correct),
        !answer_is_correct(QuestionKind::MultipleChoice { choices, correct }, Answer::Text(text)),
        !answer_is_correct(QuestionKind::FillIn { expected }, Answer::Choice(i)),
{
}

/// A graded result never scores above 100 percent.
pub proof fn law_percentage_at_most_100(r: QuizResult)
    requires
        r.earned <= r.max,
    ensures
        0 <= percentage_of(r.earned as int, r.max as int) <= 100,
{
    if r.max > 0 {
        let e = r.earned as int;
        let m = r.max as int;
        assert(e * 100 / m <= 100) by (nonlinear_arith)
            requires
                e <= m,
                m > 0,
                e >= 0,
        ;
        assert(e * 100 / m >= 0) by (nonlinear_arith)
            requires
                m > 0,
                e >= 0,
        ;
    }
}

/// A course added under its identifier is what is then found under it;
/// courses under other identifiers are untouched, and the count grows by
/// one unless the identifier was taken.
pub proof fn law_course_read_after_write(before: Lms, after: Lms, course: Course)
    requires
        before.wf(),
        after.courses() == before.courses().insert(course.id, course),
    ensures
        after.courses().dom().contains(course.id),
        after.courses()[course.id] == course,
        forall|id: CourseId|
            id != course.id ==> (#[trigger] after.courses().dom().contains(id)
                == before.courses().dom().contains(id) && (before.courses().dom().contains(id)
                ==> after.courses()[id] == before.courses()[id])),
        after.courses().dom().len() == before.courses().dom().len() + (if before.courses().dom().contains(
            course.id,
        ) {
            0int
        } else {
            1int
        }),
{
    before.lemma_wf_finite();
}

/// After enrolling, the student is enrolled in the course, and one more
/// enrollment is active.
pub proof fn law_enroll_makes_enrolled(before: Lms, after: Lms, student_id: StudentId, course_id: CourseId)
    requires
        after.enrollments().len() == before.enrollments().len() + 1,
        after.enrollments().drop_last() == before.enrollments(),
        is_active_enrollment_of(after.enrollments().last(), student_id, course_id),
    ensures
        enrolled_in(after.enrollments(), student_id, course_id),
        after.enrollments().filter(enrollment_active()).len() == before.enrollments().filter(
            enrollment_active(),
        ).len() + 1,
{
    let n = after.enrollments().len() - 1;
    assert(is_active_enrollment_of(after.enrollments()[n], student_id, course_id));
    assert(after.enrollments() == before.enrollments().push(after.enrollments().last()));
    before.enrollments().lemma_filter_push(after.enrollments().last(), enrollment_active());
}

/// After dropping the student from the course, they are no longer enrolled
/// in it, while every other student and course keeps its enrollments.
pub proof fn law_drop_makes_not_enrolled(before: Lms, after: Lms, student_id: StudentId, course_id: CourseId)
    requires
        after.enrollments() == before.enrollments().map_values(
            |e: Enrollment| after_drop(e, student_id, course_id),
        ),
    ensures
        after.enrollments().len() == before.enrollments().len(),
        forall|i: int|
            0 <= i < before.enrollments().len() ==> {
                let b = #[trigger] before.enrollments()[i];
                let a = after.enrollments()[i];
                if b.student_id == student_id && b.course_id == course_id {
                    &&& a.status == EnrollmentStatus::Dropped
                    &&& a.student_id == b.student_id
                    &&& a.course_id == b.course_id
                    &&& a.enrolled_date == b.enrolled_date
                } else {
                    a == b
                }
            },
        !enrolled_in(after.enrollments(), student_id, course_id),
        forall|s: StudentId, c: CourseId|
            (s, c) != (student_id, course_id) ==> #[trigger] enrolled_in(after.enrollments(), s, c)
                == enrolled_in(before.enrollments(), s, c),
{
    assert forall|s: StudentId, c: CourseId| (s, c) != (student_id, course_id) implies #[trigger] enrolled_in(
        after.enrollments(),
        s,
        c,
    ) == enrolled_in(before.enrollments(), s, c) by {
        if enrolled_in(after.enrollments(), s, c) {
            let i = choose|i: int|
                0 <= i < after.enrollments().len() && is_active_enrollment_of(
                    #[trigger] after.enrollments()[i],
                    s,
                    c,
                );
            assert(is_active_enrollment_of(before.enrollments()[i], s, c));
        }
        if enrolled_in(before.enrollments(), s, c) {
            let i = choose|i: int|
                0 <= i < before.enrollments().len() && is_active_enrollment_of(
                    #[trigger] before.enrollments()[i],
                    s,
                    c,
                );
            assert(is_active_enrollment_of(after.enrollments()[i], s, c));
        }
    }
}

/// Enrolling starts progress counting every lesson of the course, over all
/// its modules: as many as the course's lesson identifiers, and at least as
/// many as any one module has.
pub proof fn law_enroll_counts_all_lessons(l: Lms, course_id: CourseId)
    requires
        l.courses().dom().contains(course_id),
    ensures
        l.lessons_in(course_id) == lesson_ids(l.courses()[course_id].modules@).len(),
        forall|k: int|
            0 <= k < l.courses()[course_id].modules@.len() ==> (#[trigger] l.courses()[course_id].modules@[k]).lessons@.len()
                <= l.lessons_in(course_id),
{
    let ms = l.courses()[course_id].modules@;
    lemma_lesson_ids_len(ms);
    assert forall|k: int| 0 <= k < ms.len() implies (#[trigger] ms[k]).lessons@.len() <= count_lessons(ms) by {
        crate::sums::lemma_sum_remove(ms, module_lessons(), k);
        crate::sums::lemma_sum_nonneg(ms.remove(k), module_lessons());
    }
}

/// There are never more active enrollments than enrollments.
pub proof fn law_active_at_most_total(l: Lms)
    ensures
        l.enrollments().filter(enrollment_active()).len() <= l.enrollments().len(),
{
    l.enrollments().lemma_filter_len(enrollment_active());
}

} // verus!
