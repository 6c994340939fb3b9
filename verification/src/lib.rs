//! Learning management: courses made of ordered modules and lessons,
//! enrollment and progress tracking, a quiz engine, certificate issuance
//! and a hash-chained trail of signed learning events.

pub mod course;
pub mod enrollment;
pub mod ids;
pub mod keyed;
pub mod laws;
pub mod lesson;
pub mod module;
pub mod ordering;
pub mod progress;
pub mod sums;
pub mod quiz;
pub mod signed_certificate;
pub mod system;
pub mod text;


pub use crate::course::Course;
pub use crate::enrollment::{Enrollment, EnrollmentStatus};
pub use crate::ids::{CertificateId, CourseId, LessonId, ModuleId, QuizId, StudentId};
pub use crate::lesson::Lesson;
pub use crate::module::Module;
pub use crate::progress::Progress;
pub use crate::quiz::{Answer, Question, QuestionKind, Quiz, QuizResult};
pub use crate::signed_certificate::{
    CertificateTrail, LearningEventKind, LearningRecord, SignedLearningRecord,
};
pub use crate::system::{IssuedCertificate, Lms};
