//! A single lesson.

use vstd::prelude::*;

use crate::ids::LessonId;

verus! {

/// A single lesson inside a module.
#[derive(Debug, Clone)]
pub struct Lesson {
    pub id: LessonId,
    pub title: String,
    pub order: u32,
    pub duration_minutes: u32,
}

impl Lesson {
    /// Builds a lesson from its parts.
    pub fn new(id: LessonId, title: &str, order: u32, duration_minutes: u32) -> (l: Self)
        ensures
            l.id == id,
            l.title@ == title@,
            l.order == order,
            l.duration_minutes == duration_minutes,
    {
        Lesson { id, title: title.to_owned(), order, duration_minutes }
    }
}

} // verus!
