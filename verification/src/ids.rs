//! Identifier types shared by the whole library.

use vstd::prelude::*;

verus! {

/// Identifies a course.
pub type CourseId = u64;

/// Identifies a module inside a course.
pub type ModuleId = u64;

/// Identifies a lesson inside a module.
pub type LessonId = u64;

/// Identifies a student.
pub type StudentId = u64;

/// Identifies a quiz.
pub type QuizId = u64;

/// Identifies an issued certificate.
pub type CertificateId = u64;

} // verus!
