//! The top-level learning management system: courses, quizzes, enrollments,
//! progress and issued certificates.
//!
//! Grade books and grade point averages are computed in floating point by
//! the caller; this module is told the outcome of those computations where
//! certificate issuance depends on them.

use vstd::prelude::*;

use crate::course::{count_lessons, Course};
use crate::enrollment::{Enrollment, EnrollmentStatus};
use crate::ids::{CertificateId, CourseId, LessonId, QuizId, StudentId};
use crate::keyed::{
    find_key, find_pair_key, keys_unique, lemma_pair_map_dom, lemma_pair_map_index,
    lemma_pair_map_len, lemma_pair_map_push, lemma_pair_map_update, pair_map,
};
use crate::progress::{is_fresh, lesson_completed, percent_of, time_added, Progress};
use crate::quiz::{grade_of, max_points, Answer, Quiz, QuizResult};

verus! {

/// A certificate issued by the system.
#[derive(Debug, Clone)]
pub struct IssuedCertificate {
    pub id: CertificateId,
    pub student_id: StudentId,
    pub course_id: CourseId,
    pub student_name: String,
    pub course_title: String,
    pub issued_date: String,
}

impl IssuedCertificate {
    /// An identical copy.
    pub fn duplicate(&self) -> (c: Self)
        ensures
            c == *self,
    {
        IssuedCertificate {
            id: self.id,
            student_id: self.student_id,
            course_id: self.course_id,
            student_name: self.student_name.clone(),
            course_title: self.course_title.clone(),
            issued_date: self.issued_date.clone(),
        }
    }
}

/// The enrollment is of the student in the course and is active.
pub open spec fn is_active_enrollment_of(e: Enrollment, student_id: StudentId, course_id: CourseId) -> bool {
    e.student_id == student_id && e.course_id == course_id && e.status == EnrollmentStatus::Active
}

/// Some enrollment of the student in the course is active.
pub open spec fn enrolled_in(enrollments: Seq<Enrollment>, student_id: StudentId, course_id: CourseId) -> bool {
    exists|i: int|
        0 <= i < enrollments.len() && is_active_enrollment_of(
            #[trigger] enrollments[i],
            student_id,
            course_id,
        )
}

/// The test "is active".
pub open spec fn enrollment_active() -> spec_fn(Enrollment) -> bool {
    |e: Enrollment| e.status == EnrollmentStatus::Active
}

/// The test "is of the student".
pub open spec fn enrollment_of_student(student_id: StudentId) -> spec_fn(Enrollment) -> bool {
    |e: Enrollment| e.student_id == student_id
}

/// The test "is in the course".
pub open spec fn enrollment_in_course(course_id: CourseId) -> spec_fn(Enrollment) -> bool {
    |e: Enrollment| e.course_id == course_id
}

/// The test "is issued to the student".
pub open spec fn certificate_of_student(student_id: StudentId) -> spec_fn(IssuedCertificate) -> bool {
    |c: IssuedCertificate| c.student_id == student_id
}

/// The enrollment after dropping `student_id` from `course_id`.
pub open spec fn after_drop(e: Enrollment, student_id: StudentId, course_id: CourseId) -> Enrollment {
    if e.student_id == student_id && e.course_id == course_id {
        Enrollment { status: EnrollmentStatus::Dropped, ..e }
    } else {
        e
    }
}

/// The top-level Learning Management System.
#[derive(Debug)]
pub struct Lms {
    courses: Vec<(CourseId, Course)>,
    quizzes: Vec<(QuizId, Quiz)>,
    enrollments: Vec<Enrollment>,
    progress: Vec<((StudentId, CourseId), Progress)>,
    certificates: Vec<IssuedCertificate>,
    next_cert_id: CertificateId,
}

impl Default for Lms {
    fn default() -> (l: Self)
        ensures
            l.wf(),
            l.courses() == Map::<CourseId, Course>::empty(),
            l.quizzes() == Map::<QuizId, Quiz>::empty(),
            l.enrollments() == Seq::<Enrollment>::empty(),
            l.progress() == Map::<(StudentId, CourseId), Progress>::empty(),
            l.certificates() == Seq::<IssuedCertificate>::empty(),
            l.next_certificate_id() == 0,
    {
        Lms::new()
    }
}

impl Lms {
    /// The courses by identifier.
    pub closed spec fn courses(&self) -> Map<CourseId, Course> {
        pair_map(self.courses@)
    }

    /// The quizzes by identifier.
    pub closed spec fn quizzes(&self) -> Map<QuizId, Quiz> {
        pair_map(self.quizzes@)
    }

    /// Every enrollment ever made, oldest first.
    pub closed spec fn enrollments(&self) -> Seq<Enrollment> {
        self.enrollments@
    }

    /// Progress by student and course.
    pub closed spec fn progress(&self) -> Map<(StudentId, CourseId), Progress> {
        pair_map(self.progress@)
    }

    /// Every certificate issued, oldest first.
    pub closed spec fn certificates(&self) -> Seq<IssuedCertificate> {
        self.certificates@
    }

    /// The identifier the next certificate will get.
    pub closed spec fn next_certificate_id(&self) -> CertificateId {
        self.next_cert_id
    }

    /// The internal tables are consistent: one entry per key, no lesson
    /// counted twice in any progress, and certificates numbered from 0 in
    /// order of issue.
    pub closed spec fn wf(&self) -> bool {
        &&& self.next_cert_id == self.certificates@.len()
        &&& forall|i: int, j: int|
            0 <= i < j < self.certificates@.len() ==> (#[trigger] self.certificates@[i]).id
                < (#[trigger] self.certificates@[j]).id
        &&& forall|i: int|
            0 <= i < self.certificates@.len() ==> (#[trigger] self.certificates@[i]).id
                < self.next_cert_id
        &&& keys_unique(self.courses@)
        &&& keys_unique(self.quizzes@)
        &&& keys_unique(self.progress@)
        &&& forall|i: int| 0 <= i < self.progress@.len() ==> (#[trigger] self.progress@[i]).1.wf()
    }

    /// The number of lessons of course `course_id`, 0 for an unknown course.
    pub open spec fn lessons_in(&self, course_id: CourseId) -> int {
        if self.courses().dom().contains(course_id) {
            count_lessons(self.courses()[course_id].modules@)
        } else {
            0
        }
    }

    /// The completion percentage of the student in the course, 0 without progress.
    pub open spec fn completion_of(&self, student_id: StudentId, course_id: CourseId) -> int {
        if self.progress().dom().contains((student_id, course_id)) {
            let p = self.progress()[(student_id, course_id)];
            percent_of(p.completed().len() as int, p.lesson_total() as int)
        } else {
            0
        }
    }

    /// Certificates are numbered in order of issue from 0: the next
    /// identifier is the number issued so far, and identifiers increase and
    /// stay below the next one to be given.
    pub proof fn lemma_wf_certificates(&self)
        requires
            self.wf(),
        ensures
            self.next_certificate_id() == self.certificates().len(),
            forall|i: int, j: int|
                0 <= i < j < self.certificates().len() ==> (#[trigger] self.certificates()[i]).id
                    < (#[trigger] self.certificates()[j]).id,
            forall|i: int|
                0 <= i < self.certificates().len() ==> (#[trigger] self.certificates()[i]).id
                    < self.next_certificate_id(),
    {
    }

    /// The tables are finite, and each has one key per entry.
    pub proof fn lemma_wf_finite(&self)
        requires
            self.wf(),
        ensures
            self.courses().dom().finite(),
            self.quizzes().dom().finite(),
            self.progress().dom().finite(),
    {
        lemma_pair_map_dom(self.courses@);
        lemma_pair_map_dom(self.quizzes@);
        lemma_pair_map_dom(self.progress@);
    }

    /// Progress kept for every student and course pair is consistent.
    pub proof fn lemma_wf_progress(&self, student_id: StudentId, course_id: CourseId)
        requires
            self.wf(),
            self.progress().dom().contains((student_id, course_id)),
        ensures
            self.progress()[(student_id, course_id)].wf(),
    {
        lemma_pair_map_dom(self.progress@);
        let i = choose|i: int| 0 <= i < self.progress@.len() && self.progress@[i].0 == (student_id, course_id);
        lemma_pair_map_index(self.progress@, i);
    }

    /// An empty system.
    pub fn new() -> (l: Self)
        ensures
            l.wf(),
            l.courses() == Map::<CourseId, Course>::empty(),
            l.quizzes() == Map::<QuizId, Quiz>::empty(),
            l.enrollments() == Seq::<Enrollment>::empty(),
            l.progress() == Map::<(StudentId, CourseId), Progress>::empty(),
            l.certificates() == Seq::<IssuedCertificate>::empty(),
            l.next_certificate_id() == 0,
    {
        Lms {
            courses: Vec::new(),
            quizzes: Vec::new(),
            enrollments: Vec::new(),
            progress: Vec::new(),
            certificates: Vec::new(),
            next_cert_id: 0,
        }
    }

    // -- Course management --------------------------------------------------

    /// Adds a course under its identifier, replacing any course held under it.
    pub fn add_course(&mut self, course: Course)
        requires
            old(self).wf(),
        ensures
            final(self).wf(),
            final(self).courses() == old(self).courses().insert(course.id, course),
            final(self).quizzes() == old(self).quizzes(),
            final(self).enrollments() == old(self).enrollments(),
            final(self).progress() == old(self).progress(),
            final(self).certificates() == old(self).certificates(),
            final(self).next_certificate_id() == old(self).next_certificate_id(),
    {
        let id = course.id;
        match find_key(&self.courses, id) {
            Some(i) => {
                proof {
                    lemma_pair_map_update(self.courses@, i as int, course);
                }
                self.courses.set(i, (id, course));
            },
            None => {
                proof {
                    lemma_pair_map_dom(self.courses@);
                    lemma_pair_map_push(self.courses@, id, course);
                }
                self.courses.push((id, course));
            },
        }
    }

    /// The course held under `id`, if any.
    pub fn get_course(&self, id: CourseId) -> (r: Option<&Course>)
        requires
            self.wf(),
        ensures
            r is Some == self.courses().dom().contains(id),
            r matches Some(c) ==> *c == self.courses()[id],
    {
        proof {
            lemma_pair_map_dom(self.courses@);
        }
        match find_key(&self.courses, id) {
            Some(i) => {
                proof {
                    lemma_pair_map_index(self.courses@, i as int);
                }
                Some(&self.courses[i].1)
            },
            None => None,
        }
    }

    /// The course held under `id`, if any, to change in place.
    pub fn get_course_mut(&mut self, id: CourseId) -> (r: Option<&mut Course>)
        requires
            old(self).wf(),
        ensures
            r is Some == old(self).courses().dom().contains(id),
            match r {
                Some(c) => {
                    &&& *c == old(self).courses()[id]
                    &&& final(self).courses() == old(self).courses().insert(id, *final(c))
                },
                None => final(self).courses() == old(self).courses(),
            },
            final(self).wf(),
            final(self).quizzes() == old(self).quizzes(),
            final(self).enrollments() == old(self).enrollments(),
            final(self).progress() == old(self).progress(),
            final(self).certificates() == old(self).certificates(),
            final(self).next_certificate_id() == old(self).next_certificate_id(),
    {
        proof {
            lemma_pair_map_dom(self.courses@);
        }
        match find_key(&self.courses, id) {
            Some(i) => {
                proof {
                    lemma_pair_map_index(self.courses@, i as int);
                    assert forall|c: Course| true implies pair_map(
                        self.courses@.update(i as int, (id, c)),
                    ) == pair_map(self.courses@).insert(id, c) && keys_unique(
                        self.courses@.update(i as int, (id, c)),
                    ) by {
                        lemma_pair_map_update(self.courses@, i as int, c);
                    }
                }
                Some(&mut self.courses[i].1)
            },
            None => None,
        }
    }

    /// Number of courses.
    pub fn course_count(&self) -> (n: usize)
        requires
            self.wf(),
        ensures
            n == self.courses().dom().len(),
    {
        proof {
            lemma_pair_map_len(self.courses@);
        }
        self.courses.len()
    }

    // -- Quiz management ----------------------------------------------------

    /// Adds a quiz under its identifier, replacing any quiz held under it.
    pub fn add_quiz(&mut self, quiz: Quiz)
        requires
            old(self).wf(),
        ensures
            final(self).wf(),
            final(self).quizzes() == old(self).quizzes().insert(quiz.id, quiz),
            final(self).courses() == old(self).courses(),
            final(self).enrollments() == old(self).enrollments(),
            final(self).progress() == old(self).progress(),
            final(self).certificates() == old(self).certificates(),
            final(self).next_certificate_id() == old(self).next_certificate_id(),
    {
        let id = quiz.id;
        match find_key(&self.quizzes, id) {
            Some(i) => {
                proof {
                    lemma_pair_map_update(self.quizzes@, i as int, quiz);
                }
                self.quizzes.set(i, (id, quiz));
            },
            None => {
                proof {
                    lemma_pair_map_dom(self.quizzes@);
                    lemma_pair_map_push(self.quizzes@, id, quiz);
                }
                self.quizzes.push((id, quiz));
            },
        }
    }

    /// The quiz held under `id`, if any.
    pub fn get_quiz(&self, id: QuizId) -> (r: Option<&Quiz>)
        requires
            self.wf(),
        ensures
            r is Some == self.quizzes().dom().contains(id),
            r matches Some(q) ==> *q == self.quizzes()[id],
    {
        proof {
            lemma_pair_map_dom(self.quizzes@);
        }
        match find_key(&self.quizzes, id) {
            Some(i) => {
                proof {
                    lemma_pair_map_index(self.quizzes@, i as int);
                }
                Some(&self.quizzes[i].1)
            },
            None => None,
        }
    }

    /// The quiz held under `id`, if any, to change in place.
    pub fn get_quiz_mut(&mut self, id: QuizId) -> (r: Option<&mut Quiz>)
        requires
            old(self).wf(),
        ensures
            r is Some == old(self).quizzes().dom().contains(id),
            match r {
                Some(q) => {
                    &&& *q == old(self).quizzes()[id]
                    &&& final(self).quizzes() == old(self).quizzes().insert(id, *final(q))
                },
                None => final(self).quizzes() == old(self).quizzes(),
            },
            final(self).wf(),
            final(self).courses() == old(self).courses(),
            final(self).enrollments() == old(self).enrollments(),
            final(self).progress() == old(self).progress(),
            final(self).certificates() == old(self).certificates(),
            final(self).next_certificate_id() == old(self).next_certificate_id(),
    {
        proof {
            lemma_pair_map_dom(self.quizzes@);
        }
        match find_key(&self.quizzes, id) {
            Some(i) => {
                proof {
                    lemma_pair_map_index(self.quizzes@, i as int);
                    assert forall|q: Quiz| true implies pair_map(
                        self.quizzes@.update(i as int, (id, q)),
                    ) == pair_map(self.quizzes@).insert(id, q) && keys_unique(
                        self.quizzes@.update(i as int, (id, q)),
                    ) by {
                        lemma_pair_map_update(self.quizzes@, i as int, q);
                    }
                }
                Some(&mut self.quizzes[i].1)
            },
            None => None,
        }
    }

    /// Number of quizzes.
    pub fn quiz_count(&self) -> (n: usize)
        requires
            self.wf(),
        ensures
            n == self.quizzes().dom().len(),
    {
        proof {
            lemma_pair_map_len(self.quizzes@);
        }
        self.quizzes.len()
    }

    // -- Enrollment ---------------------------------------------------------

    /// Enrolls the student: records an active enrollment and starts fresh
    /// progress for the course, replacing any progress already kept for them.
    pub fn enroll(&mut self, student_id: StudentId, course_id: CourseId, date: &str)
        requires
            old(self).wf(),
            old(self).lessons_in(course_id) <= usize::MAX,
        ensures
            final(self).wf(),
            final(self).enrollments().len() == old(self).enrollments().len() + 1,
            final(self).enrollments().drop_last() == old(self).enrollments(),
            final(self).enrollments().last().student_id == student_id,
            final(self).enrollments().last().course_id == course_id,
            final(self).enrollments().last().status == EnrollmentStatus::Active,
            final(self).enrollments().last().enrolled_date@ == date@,
            final(self).progress().dom() == old(self).progress().dom().insert((student_id, course_id)),
            is_fresh(
                final(self).progress()[(student_id, course_id)],
                student_id,
                course_id,
                old(self).lessons_in(course_id) as usize,
            ),
            forall|k: (StudentId, CourseId)|
                k != (student_id, course_id) && #[trigger] old(self).progress().dom().contains(k)
                    ==> final(self).progress()[k] == old(self).progress()[k],
            final(self).courses() == old(self).courses(),
            final(self).quizzes() == old(self).quizzes(),
            final(self).certificates() == old(self).certificates(),
            final(self).next_certificate_id() == old(self).next_certificate_id(),
    {
        let mut enrollment = Enrollment::new(student_id, course_id, date);
        enrollment.activate();
        self.enrollments.push(enrollment);
        assert(self.enrollments@.drop_last() == old(self).enrollments@);
        let total = match self.get_course(course_id) {
            Some(c) => c.total_lessons(),
            None => 0,
        };
        let p = Progress::new(student_id, course_id, total);
        let key = (student_id, course_id);
        proof {
            lemma_pair_map_dom(self.progress@);
        }
        let idx = match find_pair_key(&self.progress, key) {
            Some(i) => {
                proof {
                    lemma_pair_map_update(self.progress@, i as int, p);
                }
                self.progress.set(i, (key, p));
                i
            },
            None => {
                proof {
                    lemma_pair_map_push(self.progress@, key, p);
                }
                self.progress.push((key, p));
                self.progress.len() - 1
            },
        };
        proof {
            lemma_pair_map_index(self.progress@, idx as int);
        }
    }

    /// Whether the student has an active enrollment in the course.
    pub fn is_enrolled(&self, student_id: StudentId, course_id: CourseId) -> (b: bool)
        ensures
            b == enrolled_in(self.enrollments(), student_id, course_id),
    {
        let n = self.enrollments.len();
        for i in 0..n
            invariant
                n == self.enrollments@.len(),
                forall|j: int|
                    0 <= j < i ==> !is_active_enrollment_of(
                        #[trigger] self.enrollments@[j],
                        student_id,
                        course_id,
                    ),
        {
            let e = &self.enrollments[i];
            if e.student_id == student_id && e.course_id == course_id && e.is_active() {
                assert(is_active_enrollment_of(self.enrollments()[i as int], student_id, course_id));
                return true;
            }
        }
        false
    }

    /// Marks every enrollment of the student in the course dropped.
    pub fn drop_student(&mut self, student_id: StudentId, course_id: CourseId)
        requires
            old(self).wf(),
        ensures
            final(self).wf(),
            final(self).enrollments() == old(self).enrollments().map_values(
                |e: Enrollment| after_drop(e, student_id, course_id),
            ),
            final(self).courses() == old(self).courses(),
            final(self).quizzes() == old(self).quizzes(),
            final(self).progress() == old(self).progress(),
            final(self).certificates() == old(self).certificates(),
            final(self).next_certificate_id() == old(self).next_certificate_id(),
    {
        let n = self.enrollments.len();
        for i in 0..n
            invariant
                n == self.enrollments@.len(),
                n == old(self).enrollments@.len(),
                self.courses == old(self).courses,
                self.quizzes == old(self).quizzes,
                self.progress == old(self).progress,
                self.certificates == old(self).certificates,
                self.next_cert_id == old(self).next_cert_id,
                forall|j: int|
                    0 <= j < n ==> #[trigger] self.enrollments@[j] == if j < i {
                        after_drop(old(self).enrollments@[j], student_id, course_id)
                    } else {
                        old(self).enrollments@[j]
                    },
        {
            if self.enrollments[i].student_id == student_id && self.enrollments[i].course_id
                == course_id {
                self.enrollments[i].drop_enrollment();
            }
        }
        assert(self.enrollments@ == old(self).enrollments@.map_values(
            |e: Enrollment| after_drop(e, student_id, course_id),
        ));
    }

    /// Number of enrollments ever made.
    pub fn enrollment_count(&self) -> (n: usize)
        ensures
            n == self.enrollments().len(),
    {
        self.enrollments.len()
    }

    /// Number of active enrollments.
    pub fn active_enrollments(&self) -> (n: usize)
        ensures
            n == self.enrollments().filter(enrollment_active()).len(),
    {
        let mut count: usize = 0;
        let n = self.enrollments.len();
        for i in 0..n
            invariant
                n == self.enrollments@.len(),
                count == self.enrollments@.take(i as int).filter(enrollment_active()).len(),
                count <= i,
        {
            proof {
                assert(self.enrollments@.take(i + 1) == self.enrollments@.take(i as int).push(
                    self.enrollments@[i as int],
                ));
                self.enrollments@.take(i as int).lemma_filter_push(
                    self.enrollments@[i as int],
                    enrollment_active(),
                );
            }
            if self.enrollments[i].is_active() {
                count = count + 1;
            }
        }
        assert(self.enrollments@.take(n as int) == self.enrollments@);
        count
    }

    /// The enrollments of the student, oldest first.
    pub fn enrollments_for_student(&self, student_id: StudentId) -> (r: Vec<&Enrollment>)
        ensures
            r@.map_values(|e: &Enrollment| *e) == self.enrollments().filter(
                enrollment_of_student(student_id),
            ),
    {
        let mut out: Vec<&Enrollment> = Vec::new();
        let n = self.enrollments.len();
        for i in 0..n
            invariant
                n == self.enrollments@.len(),
                out@.map_values(|e: &Enrollment| *e) == self.enrollments@.take(i as int).filter(
                    enrollment_of_student(student_id),
                ),
        {
            proof {
                assert(self.enrollments@.take(i + 1) == self.enrollments@.take(i as int).push(
                    self.enrollments@[i as int],
                ));
                self.enrollments@.take(i as int).lemma_filter_push(
                    self.enrollments@[i as int],
                    enrollment_of_student(student_id),
                );
            }
            let ghost before = out@;
            if self.enrollments[i].student_id == student_id {
                out.push(&self.enrollments[i]);
                assert(out@.map_values(|e: &Enrollment| *e) == before.map_values(
                    |e: &Enrollment| *e,
                ).push(self.enrollments@[i as int]));
            }
        }
        assert(self.enrollments@.take(n as int) == self.enrollments@);
        out
    }

    /// The enrollments in the course, oldest first.
    pub fn enrollments_for_course(&self, course_id: CourseId) -> (r: Vec<&Enrollment>)
        ensures
            r@.map_values(|e: &Enrollment| *e) == self.enrollments().filter(
                enrollment_in_course(course_id),
            ),
    {
        let mut out: Vec<&Enrollment> = Vec::new();
        let n = self.enrollments.len();
        for i in 0..n
            invariant
                n == self.enrollments@.len(),
                out@.map_values(|e: &Enrollment| *e) == self.enrollments@.take(i as int).filter(
                    enrollment_in_course(course_id),
                ),
        {
            proof {
                assert(self.enrollments@.take(i + 1) == self.enrollments@.take(i as int).push(
                    self.enrollments@[i as int],
                ));
                self.enrollments@.take(i as int).lemma_filter_push(
                    self.enrollments@[i as int],
                    enrollment_in_course(course_id),
                );
            }
            let ghost before = out@;
            if self.enrollments[i].course_id == course_id {
                out.push(&self.enrollments[i]);
                assert(out@.map_values(|e: &Enrollment| *e) == before.map_values(
                    |e: &Enrollment| *e,
                ).push(self.enrollments@[i as int]));
            }
        }
        assert(self.enrollments@.take(n as int) == self.enrollments@);
        out
    }

    // -- Progress -----------------------------------------------------------

    /// Marks the lesson complete in the student's progress in the course, if
    /// progress is kept for them.
    pub fn complete_lesson(&mut self, student_id: StudentId, course_id: CourseId, lesson_id: LessonId)
        requires
            old(self).wf(),
        ensures
            final(self).wf(),
            final(self).progress().dom() == old(self).progress().dom(),
            forall|k: (StudentId, CourseId)|
                k != (student_id, course_id) && #[trigger] old(self).progress().dom().contains(k)
                    ==> final(self).progress()[k] == old(self).progress()[k],
            old(self).progress().dom().contains((student_id, course_id)) ==> lesson_completed(
                old(self).progress()[(student_id, course_id)],
                final(self).progress()[(student_id, course_id)],
                lesson_id,
            ),
            final(self).courses() == old(self).courses(),
            final(self).quizzes() == old(self).quizzes(),
            final(self).enrollments() == old(self).enrollments(),
            final(self).certificates() == old(self).certificates(),
            final(self).next_certificate_id() == old(self).next_certificate_id(),
    {
        proof {
            lemma_pair_map_dom(self.progress@);
        }
        match find_pair_key(&self.progress, (student_id, course_id)) {
            Some(i) => {
                let ghost before = self.progress@;
                proof {
                    lemma_pair_map_index(before, i as int);
                }
                self.progress[i].1.complete_lesson(lesson_id);
                proof {
                    assert(self.progress@ == before.update(i as int, (before[i as int].0, self.progress@[i as int].1)));
                    lemma_pair_map_update(before, i as int, self.progress@[i as int].1);
                    assert forall|j: int| 0 <= j < self.progress@.len() implies (#[trigger] self.progress@[j]).1.wf() by {
                        if j != i {
                            assert(self.progress@[j] == before[j]);
                        }
                    }
                }
            },
            None => {},
        }
    }

    /// Adds study time to the student's progress in the course, if progress
    /// is kept for them.
    pub fn add_time(&mut self, student_id: StudentId, course_id: CourseId, minutes: u32)
        requires
            old(self).wf(),
            old(self).progress().dom().contains((student_id, course_id)) ==> old(self).progress()[(
                student_id,
                course_id,
            )].minutes() + minutes <= u32::MAX,
        ensures
            final(self).wf(),
            final(self).progress().dom() == old(self).progress().dom(),
            forall|k: (StudentId, CourseId)|
                k != (student_id, course_id) && #[trigger] old(self).progress().dom().contains(k)
                    ==> final(self).progress()[k] == old(self).progress()[k],
            old(self).progress().dom().contains((student_id, course_id)) ==> time_added(
                old(self).progress()[(student_id, course_id)],
                final(self).progress()[(student_id, course_id)],
                minutes,
            ),
            final(self).courses() == old(self).courses(),
            final(self).quizzes() == old(self).quizzes(),
            final(self).enrollments() == old(self).enrollments(),
            final(self).certificates() == old(self).certificates(),
            final(self).next_certificate_id() == old(self).next_certificate_id(),
    {
        proof {
            lemma_pair_map_dom(self.progress@);
        }
        match find_pair_key(&self.progress, (student_id, course_id)) {
            Some(i) => {
                let ghost before = self.progress@;
                proof {
                    lemma_pair_map_index(before, i as int);
                }
                self.progress[i].1.add_time(minutes);
                proof {
                    assert(self.progress@ == before.update(i as int, (before[i as int].0, self.progress@[i as int].1)));
                    lemma_pair_map_update(before, i as int, self.progress@[i as int].1);
                    assert forall|j: int| 0 <= j < self.progress@.len() implies (#[trigger] self.progress@[j]).1.wf() by {
                        if j != i {
                            assert(self.progress@[j] == before[j]);
                        }
                    }
                }
            },
            None => {},
        }
    }

    /// The student's completion percentage in the course; 0 when no progress
    /// is kept for them.
    pub fn completion_percent(&self, student_id: StudentId, course_id: CourseId) -> (pct: u32)
        requires
            self.wf(),
            self.progress().dom().contains((student_id, course_id)) ==> self.progress()[(
                student_id,
                course_id,
            )].completed().len() * 100 <= usize::MAX,
        ensures
            pct == self.completion_of(student_id, course_id),
            pct <= 100,
    {
        match self.get_progress(student_id, course_id) {
            Some(p) => p.completion_percent(),
            None => 0,
        }
    }

    /// Minutes the student spent on the course; 0 when no progress is kept
    /// for them.
    pub fn time_spent(&self, student_id: StudentId, course_id: CourseId) -> (m: u32)
        requires
            self.wf(),
        ensures
            m == (if self.progress().dom().contains((student_id, course_id)) {
                self.progress()[(student_id, course_id)].minutes()
            } else {
                0
            }),
    {
        match self.get_progress(student_id, course_id) {
            Some(p) => p.time_spent(),
            None => 0,
        }
    }

    /// The progress kept for the student in the course, if any.
    pub fn get_progress(&self, student_id: StudentId, course_id: CourseId) -> (r: Option<&Progress>)
        requires
            self.wf(),
        ensures
            r is Some == self.progress().dom().contains((student_id, course_id)),
            r matches Some(p) ==> *p == self.progress()[(student_id, course_id)],
    {
        proof {
            lemma_pair_map_dom(self.progress@);
        }
        match find_pair_key(&self.progress, (student_id, course_id)) {
            Some(i) => {
                proof {
                    lemma_pair_map_index(self.progress@, i as int);
                }
                Some(&self.progress[i].1)
            },
            None => None,
        }
    }

    // -- Quiz submission ----------------------------------------------------

    /// Grades answers to the quiz held under `quiz_id`; `None` when there is
    /// no such quiz.
    pub fn submit_quiz(&self, quiz_id: QuizId, answers: &[Answer]) -> (r: Option<QuizResult>)
        requires
            self.wf(),
            self.quizzes().dom().contains(quiz_id) ==> max_points(
                self.quizzes()[quiz_id].questions@,
            ) <= u32::MAX,
        ensures
            r is Some == self.quizzes().dom().contains(quiz_id),
            r matches Some(res) ==> res == grade_of(self.quizzes()[quiz_id], answers@),
    {
        match self.get_quiz(quiz_id) {
            Some(q) => Some(q.grade(answers)),
            None => None,
        }
    }

    // -- Certificates -------------------------------------------------------

    /// Issues a certificate when the criteria are met: the completion
    /// percentage reaches `min_completion_percent`, `quiz_pass_count` (the
    /// number of passed graded items) reaches `min_quiz_pass_count`, and the
    /// grade point average reaches its minimum, which `gpa_meets_minimum`
    /// says. The certificate gets the next identifier and the course's title
    /// (empty for an unknown course), and is recorded.
    pub fn issue_certificate(
        &mut self,
        student_id: StudentId,
        course_id: CourseId,
        student_name: &str,
        min_completion_percent: u32,
        min_quiz_pass_count: u32,
        quiz_pass_count: u32,
        gpa_meets_minimum: bool,
        date: &str,
    ) -> (r: Option<IssuedCertificate>)
        requires
            old(self).wf(),
            old(self).progress().dom().contains((student_id, course_id)) ==> old(self).progress()[(
                student_id,
                course_id,
            )].completed().len() * 100 <= usize::MAX,
            old(self).completion_of(student_id, course_id) >= min_completion_percent
                && quiz_pass_count >= min_quiz_pass_count && gpa_meets_minimum
                ==> old(self).next_certificate_id() < u64::MAX,
        ensures
            final(self).wf(),
            r is Some == (old(self).completion_of(student_id, course_id) >= min_completion_percent
                && quiz_pass_count >= min_quiz_pass_count && gpa_meets_minimum),
            match r {
                Some(c) => {
                    &&& c.id == old(self).next_certificate_id()
                    &&& c.student_id == student_id
                    &&& c.course_id == course_id
                    &&& c.student_name@ == student_name@
                    &&& c.course_title@ == (if old(self).courses().dom().contains(course_id) {
                        old(self).courses()[course_id].title@
                    } else {
                        Seq::<char>::empty()
                    })
                    &&& c.issued_date@ == date@
                    &&& final(self).certificates() == old(self).certificates().push(c)
                    &&& final(self).next_certificate_id() == old(self).next_certificate_id() + 1
                },
                None => {
                    &&& final(self).certificates() == old(self).certificates()
                    &&& final(self).next_certificate_id() == old(self).next_certificate_id()
                },
            },
            final(self).courses() == old(self).courses(),
            final(self).quizzes() == old(self).quizzes(),
            final(self).enrollments() == old(self).enrollments(),
            final(self).progress() == old(self).progress(),
    {
        let completion = self.completion_percent(student_id, course_id);
        let course_title = match self.get_course(course_id) {
            Some(c) => c.title.clone(),
            None => String::new(),
        };
        if completion >= min_completion_percent && quiz_pass_count >= min_quiz_pass_count
            && gpa_meets_minimum {
            let cert = IssuedCertificate {
                id: self.next_cert_id,
                student_id,
                course_id,
                student_name: student_name.to_owned(),
                course_title,
                issued_date: date.to_owned(),
            };
            self.next_cert_id = self.next_cert_id + 1;
            self.certificates.push(cert.duplicate());
            Some(cert)
        } else {
            None
        }
    }

    /// Number of certificates issued.
    pub fn certificate_count(&self) -> (n: usize)
        ensures
            n == self.certificates().len(),
    {
        self.certificates.len()
    }

    /// The certificates issued to the student, oldest first.
    pub fn certificates_for_student(&self, student_id: StudentId) -> (r: Vec<&IssuedCertificate>)
        ensures
            r@.map_values(|c: &IssuedCertificate| *c) == self.certificates().filter(
                certificate_of_student(student_id),
            ),
    {
        let mut out: Vec<&IssuedCertificate> = Vec::new();
        let n = self.certificates.len();
        for i in 0..n
            invariant
                n == self.certificates@.len(),
                out@.map_values(|c: &IssuedCertificate| *c) == self.certificates@.take(
                    i as int,
                ).filter(certificate_of_student(student_id)),
        {
            proof {
                assert(self.certificates@.take(i + 1) == self.certificates@.take(i as int).push(
                    self.certificates@[i as int],
                ));
                self.certificates@.take(i as int).lemma_filter_push(
                    self.certificates@[i as int],
                    certificate_of_student(student_id),
                );
            }
            let ghost before = out@;
            if self.certificates[i].student_id == student_id {
                out.push(&self.certificates[i]);
                assert(out@.map_values(|c: &IssuedCertificate| *c) == before.map_values(
                    |c: &IssuedCertificate| *c,
                ).push(self.certificates@[i as int]));
            }
        }
        assert(self.certificates@.take(n as int) == self.certificates@);
        out
    }
}

} // verus!
