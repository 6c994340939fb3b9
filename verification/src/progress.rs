//! A student's progress through one course.

use vstd::prelude::*;

use crate::ids::{CourseId, LessonId, StudentId};

verus! {

/// The completion percentage for `completed` finished lessons out of `total`:
/// 0 when the course has no lessons, capped at 100.
pub open spec fn percent_of(completed: int, total: int) -> int {
    if total == 0 {
        0
    } else if completed * 100 / total > 100 {
        100
    } else {
        completed * 100 / total
    }
}

/// `p` is progress as it starts for the student in the course: nothing
/// completed and no time spent.
pub open spec fn is_fresh(p: Progress, student_id: StudentId, course_id: CourseId, total_lessons: usize) -> bool {
    &&& p.student() == student_id
    &&& p.course() == course_id
    &&& p.completed() == Seq::<LessonId>::empty()
    &&& p.minutes() == 0
    &&& p.lesson_total() == total_lessons
    &&& p.wf()
}

/// `after` is `before` with lesson `lesson_id` marked complete: the lesson is
/// added at the end unless it was already complete, and nothing else changes.
pub open spec fn lesson_completed(before: Progress, after: Progress, lesson_id: LessonId) -> bool {
    &&& after.completed() == (if before.completed().contains(lesson_id) {
        before.completed()
    } else {
        before.completed().push(lesson_id)
    })
    &&& after.minutes() == before.minutes()
    &&& after.lesson_total() == before.lesson_total()
    &&& after.student() == before.student()
    &&& after.course() == before.course()
}

/// `after` is `before` with `minutes` more time spent, and nothing else changed.
pub open spec fn time_added(before: Progress, after: Progress, minutes: u32) -> bool {
    &&& after.minutes() == before.minutes() + minutes
    &&& after.completed() == before.completed()
    &&& after.lesson_total() == before.lesson_total()
    &&& after.student() == before.student()
    &&& after.course() == before.course()
}

/// Tracks a student's progress through a single course.
#[derive(Debug, Clone)]
pub struct Progress {
    pub student_id: StudentId,
    pub course_id: CourseId,
    completed_lessons: Vec<LessonId>,
    time_spent_minutes: u32,
    total_lessons: usize,
}

impl Progress {
    /// The student whose progress this is.
    pub closed spec fn student(&self) -> StudentId {
        self.student_id
    }

    /// The course this progress is about.
    pub closed spec fn course(&self) -> CourseId {
        self.course_id
    }

    /// The lessons marked complete, in the order they were first completed.
    pub closed spec fn completed(&self) -> Seq<LessonId> {
        self.completed_lessons@
    }

    /// The minutes spent studying.
    pub closed spec fn minutes(&self) -> u32 {
        self.time_spent_minutes
    }

    /// The number of lessons of the course, fixed when tracking started.
    pub closed spec fn lesson_total(&self) -> usize {
        self.total_lessons
    }

    /// No lesson is counted twice.
    pub open spec fn wf(&self) -> bool {
        self.completed().no_duplicates()
    }

    /// Fresh progress: nothing completed, no time spent.
    pub fn new(student_id: StudentId, course_id: CourseId, total_lessons: usize) -> (p: Self)
        ensures
            is_fresh(p, student_id, course_id, total_lessons),
    {
        let p = Progress {
            student_id,
            course_id,
            completed_lessons: Vec::new(),
            time_spent_minutes: 0,
            total_lessons,
        };
        assert(p.completed_lessons@ == Seq::<LessonId>::empty());
        p
    }

    /// Marks a lesson as complete; completing it again changes nothing.
    pub fn complete_lesson(&mut self, lesson_id: LessonId)
        ensures
            lesson_completed(*old(self), *final(self), lesson_id),
            old(self).wf() ==> final(self).wf(),
    {
        let mut found = false;
        let n = self.completed_lessons.len();
        for i in 0..n
            invariant
                n == self.completed_lessons@.len(),
                found == (exists|j: int| 0 <= j < i && self.completed_lessons@[j] == lesson_id),
        {
            if self.completed_lessons[i] == lesson_id {
                found = true;
            }
        }
        if !found {
            self.completed_lessons.push(lesson_id);
            proof {
                let s = old(self).completed_lessons@;
                if s.no_duplicates() {
                    assert forall|a: int, b: int|
                        0 <= a < b < s.len() + 1 implies self.completed_lessons@[a]
                        != self.completed_lessons@[b] by {
                        if b == s.len() {
                            assert(s[a] != lesson_id);
                        }
                    }
                }
            }
        } else {
            assert(self.completed_lessons@.contains(lesson_id));
        }
    }

    /// Adds time spent studying.
    pub fn add_time(&mut self, minutes: u32)
        requires
            old(self).minutes() + minutes <= u32::MAX,
        ensures
            time_added(*old(self), *final(self), minutes),
            old(self).wf() ==> final(self).wf(),
    {
        self.time_spent_minutes = self.time_spent_minutes + minutes;
    }

    /// Completion percentage, from 0 to 100.
    pub fn completion_percent(&self) -> (pct: u32)
        requires
            self.completed().len() * 100 <= usize::MAX,
        ensures
            pct == percent_of(self.completed().len() as int, self.lesson_total() as int),
            pct <= 100,
    {
        if self.total_lessons == 0 {
            return 0;
        }
        let pct = (self.completed_lessons.len() * 100) / self.total_lessons;
        if pct > 100 {
            100
        } else {
            pct as u32
        }
    }

    /// Minutes spent studying.
    pub fn time_spent(&self) -> (m: u32)
        ensures
            m == self.minutes(),
    {
        self.time_spent_minutes
    }

    /// Whether at least as many lessons are complete as the course has.
    pub fn is_complete(&self) -> (b: bool)
        ensures
            b == (self.completed().len() >= self.lesson_total()),
    {
        self.completed_lessons.len() >= self.total_lessons
    }

    /// Number of lessons completed.
    pub fn completed_count(&self) -> (n: usize)
        ensures
            n == self.completed().len(),
    {
        self.completed_lessons.len()
    }
}

} // verus!
