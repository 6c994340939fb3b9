//! Enrollment of a student in a course.

use vstd::prelude::*;

use crate::ids::{CourseId, StudentId};

verus! {

/// Status of a student's enrollment.
#[derive(Debug, Clone, Copy, PartialEq, Eq, Structural)]
pub enum EnrollmentStatus {
    Active,
    Completed,
    Dropped,
    Pending,
}

/// An enrollment record.
#[derive(Debug, Clone)]
pub struct Enrollment {
    pub student_id: StudentId,
    pub course_id: CourseId,
    pub status: EnrollmentStatus,
    pub enrolled_date: String,
}

impl Enrollment {
    /// A new enrollment starts out pending.
    pub fn new(student_id: StudentId, course_id: CourseId, enrolled_date: &str) -> (e: Self)
        ensures
            e.student_id == student_id,
            e.course_id == course_id,
            e.status == EnrollmentStatus::Pending,
            e.enrolled_date@ == enrolled_date@,
    {
        Enrollment {
            student_id,
            course_id,
            status: EnrollmentStatus::Pending,
            enrolled_date: enrolled_date.to_owned(),
        }
    }

    /// Marks the enrollment active.
    pub fn activate(&mut self)
        ensures
            *final(self) == (Enrollment { status: EnrollmentStatus::Active, ..*old(self) }),
    {
        self.status = EnrollmentStatus::Active;
    }

    /// Marks the enrollment completed.
    pub fn complete(&mut self)
        ensures
            *final(self) == (Enrollment { status: EnrollmentStatus::Completed, ..*old(self) }),
    {
        self.status = EnrollmentStatus::Completed;
    }

    /// Marks the enrollment dropped.
    pub fn drop_enrollment(&mut self)
        ensures
            *final(self) == (Enrollment { status: EnrollmentStatus::Dropped, ..*old(self) }),
    {
        self.status = EnrollmentStatus::Dropped;
    }

    /// Whether the enrollment is active.
    pub fn is_active(&self) -> (b: bool)
        ensures
            b == (self.status == EnrollmentStatus::Active),
    {
        self.status == EnrollmentStatus::Active
    }
}

} // verus!
