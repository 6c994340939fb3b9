use alice_lms::course::Course;
use alice_lms::lesson::Lesson;
use alice_lms::module::Module;
use alice_lms::progress::Progress;
use alice_lms::quiz::{Answer, Question, Quiz, QuizResult};
use alice_lms::system::Lms;
use alice_lms::text::{eq_ignore_ascii_case, str_eq};

#[test]
fn add_lesson_adds_one_lesson_and_its_duration() {
    let mut m = Module::new(1, "M", 0);
    m.add_lesson(Lesson::new(1, "A", 5, 15));
    m.add_lesson(Lesson::new(2, "B", 1, 25));
    let (count, total) = (m.lesson_count(), m.total_duration());
    m.add_lesson(Lesson::new(3, "C", 3, 7));
    assert_eq!(m.lesson_count(), count + 1);
    assert_eq!(m.total_duration(), total + 7);
}

#[test]
fn lessons_with_equal_order_keep_insertion_order() {
    let mut m = Module::new(1, "M", 0);
    m.add_lesson(Lesson::new(1, "A", 2, 1));
    m.add_lesson(Lesson::new(2, "B", 1, 1));
    m.add_lesson(Lesson::new(3, "C", 2, 1));
    m.add_lesson(Lesson::new(4, "D", 1, 1));
    m.add_lesson(Lesson::new(5, "E", 0, 1));
    let ids: Vec<u64> = m.lessons.iter().map(|l| l.id).collect();
    assert_eq!(ids, vec![5, 2, 4, 1, 3]);
}

#[test]
fn unsorted_lessons_are_sorted_on_add() {
    let mut m = Module::new(1, "M", 0);
    m.lessons.push(Lesson::new(1, "A", 9, 1));
    m.lessons.push(Lesson::new(2, "B", 3, 1));
    m.add_lesson(Lesson::new(3, "C", 5, 1));
    let ids: Vec<u64> = m.lessons.iter().map(|l| l.id).collect();
    assert_eq!(ids, vec![2, 3, 1]);
}

#[test]
fn add_module_adds_its_lessons_and_duration() {
    let mut c = Course::new(1, "C", "D");
    let mut m1 = Module::new(1, "One", 1);
    m1.add_lesson(Lesson::new(1, "A", 0, 10));
    c.add_module(m1);
    let (lessons, minutes) = (c.total_lessons(), c.total_duration());
    let mut m0 = Module::new(2, "Zero", 0);
    m0.add_lesson(Lesson::new(2, "B", 0, 20));
    m0.add_lesson(Lesson::new(3, "C", 1, 30));
    c.add_module(m0);
    assert_eq!(c.total_lessons(), lessons + 2);
    assert_eq!(c.total_duration(), minutes + 50);
    assert_eq!(c.all_lesson_ids(), vec![2, 3, 1]);
    assert_eq!(c.all_lesson_ids().len(), c.total_lessons());
}

#[test]
fn complete_lesson_counts_each_lesson_once() {
    let mut p = Progress::new(1, 1, 3);
    p.complete_lesson(7);
    p.complete_lesson(8);
    p.complete_lesson(7);
    p.complete_lesson(8);
    assert_eq!(p.completed_count(), 2);
    assert_eq!(p.time_spent(), 0);
}

#[test]
fn complete_exactly_when_full_percent() {
    let mut p = Progress::new(1, 1, 3);
    p.complete_lesson(1);
    p.complete_lesson(2);
    assert_eq!(p.completion_percent(), 66);
    assert!(!p.is_complete());
    p.complete_lesson(3);
    assert_eq!(p.completion_percent(), 100);
    assert!(p.is_complete());
}

#[test]
fn percentage_rounds_down_and_stays_within_100() {
    let mut quiz = Quiz::new(1, 1, "Q", 2);
    quiz.add_question(Question::fill_in("a", "a", 1));
    quiz.add_question(Question::fill_in("b", "b", 1));
    quiz.add_question(Question::fill_in("c", "c", 1));
    let r = quiz.grade(&[
        Answer::Text("A".to_owned()),
        Answer::Text("B".to_owned()),
        Answer::Text("x".to_owned()),
        Answer::Text("extra".to_owned()),
    ]);
    assert_eq!(r, QuizResult { earned: 2, max: 3, passed: true });
    assert_eq!(r.percentage(), 66);
}

#[test]
fn case_is_ignored_for_ascii_letters_only() {
    assert!(eq_ignore_ascii_case("Grüße", "GRüßE"));
    assert!(!eq_ignore_ascii_case("é", "É"));
    assert!(!eq_ignore_ascii_case("ab", "abc"));
    assert!(eq_ignore_ascii_case("", ""));
    assert!(str_eq("abc", "abc"));
    assert!(!str_eq("abc", "abd"));
}

#[test]
fn course_found_under_its_id_after_add() {
    let mut lms = Lms::new();
    lms.add_course(Course::new(1, "First", ""));
    lms.add_course(Course::new(2, "Other", ""));
    lms.add_course(Course::new(1, "Second", ""));
    assert_eq!(lms.course_count(), 2);
    assert_eq!(lms.get_course(1).unwrap().title, "Second");
    assert_eq!(lms.get_course(2).unwrap().title, "Other");
    assert!(lms.get_course_mut(3).is_none());
}

#[test]
fn enroll_then_drop() {
    let mut lms = Lms::new();
    lms.enroll(1, 10, "d1");
    lms.enroll(2, 10, "d2");
    lms.enroll(1, 11, "d3");
    assert!(lms.is_enrolled(1, 10));
    assert!(lms.active_enrollments() <= lms.enrollment_count());
    lms.drop_student(1, 10);
    assert!(!lms.is_enrolled(1, 10));
    assert!(lms.is_enrolled(2, 10));
    assert!(lms.is_enrolled(1, 11));
    assert_eq!(lms.active_enrollments(), 2);
    assert_eq!(lms.enrollment_count(), 3);
    assert_eq!(lms.enrollments_for_student(1).len(), 2);
}

#[test]
fn reenrolling_restarts_progress() {
    let mut lms = Lms::new();
    let mut c = Course::new(1, "C", "");
    let mut m = Module::new(1, "M", 0);
    m.add_lesson(Lesson::new(1, "L", 0, 1));
    m.add_lesson(Lesson::new(2, "L", 1, 1));
    c.add_module(m);
    lms.add_course(c);
    lms.enroll(5, 1, "d");
    lms.complete_lesson(5, 1, 1);
    lms.add_time(5, 1, 9);
    assert_eq!(lms.completion_percent(5, 1), 50);
    lms.enroll(5, 1, "d");
    assert_eq!(lms.completion_percent(5, 1), 0);
    assert_eq!(lms.time_spent(5, 1), 0);
    assert_eq!(lms.get_progress(5, 1).unwrap().completed_count(), 0);
}

#[test]
fn progress_without_enrollment_is_untouched() {
    let mut lms = Lms::new();
    lms.complete_lesson(1, 1, 1);
    lms.add_time(1, 1, 5);
    assert!(lms.get_progress(1, 1).is_none());
    assert_eq!(lms.completion_percent(1, 1), 0);
}

#[test]
fn unknown_course_gives_empty_title_and_no_lessons() {
    let mut lms = Lms::new();
    lms.enroll(1, 42, "d");
    assert_eq!(lms.completion_percent(1, 42), 0);
    let cert = lms.issue_certificate(1, 42, "Bo", 0, 0, 0, true, "day").unwrap();
    assert_eq!(cert.course_title, "");
    assert_eq!(cert.id, 0);
    assert_eq!(cert.issued_date, "day");
    assert!(lms.issue_certificate(1, 42, "Bo", 0, 1, 0, true, "day").is_none());
    assert!(lms.issue_certificate(1, 42, "Bo", 0, 0, 0, false, "day").is_none());
    assert_eq!(lms.certificate_count(), 1);
    let again = lms.issue_certificate(1, 42, "Bo", 0, 0, 0, true, "day").unwrap();
    assert_eq!(again.id, 1);
}
