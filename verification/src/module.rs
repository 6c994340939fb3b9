//! A module: a group of lessons kept in lesson order.

use vstd::prelude::*;

use crate::ids::ModuleId;
use crate::lesson::Lesson;
use crate::ordering::{is_stable_sort_of, lemma_insert_sorted};
use crate::sums::{lemma_sum_prefix, lemma_sum_take_next, sum_of};

verus! {

broadcast use vstd::seq_lib::group_to_multiset_ensures;

/// The key by which a module orders its lessons.
pub open spec fn lesson_key() -> spec_fn(Lesson) -> int {
    |l: Lesson| l.order as int
}

/// The duration of a lesson, as a weight.
pub open spec fn lesson_minutes() -> spec_fn(Lesson) -> int {
    |l: Lesson| l.duration_minutes as int
}

/// The total duration of `lessons`, in minutes.
pub open spec fn sum_durations(lessons: Seq<Lesson>) -> int {
    sum_of(lessons, lesson_minutes())
}

/// A duration is never negative.
pub proof fn lemma_sum_durations_nonneg(lessons: Seq<Lesson>)
    ensures
        sum_durations(lessons) >= 0,
    decreases lessons.len(),
{
    if lessons.len() > 0 {
        lemma_sum_durations_nonneg(lessons.drop_last());
    }
}

/// A module groups related lessons inside a course.
#[derive(Debug, Clone)]
pub struct Module {
    pub id: ModuleId,
    pub title: String,
    pub order: u32,
    pub lessons: Vec<Lesson>,
}

/// Sorts `v` stably by lesson order.
fn sort_lessons(v: Vec<Lesson>) -> (r: Vec<Lesson>)
    ensures
        is_stable_sort_of(r@, v@, lesson_key()),
        r@.to_multiset() == v@.to_multiset(),
{
    let ghost all = v@;
    let mut rest = v;
    let mut acc: Vec<Lesson> = Vec::new();
    let ghost mut done: Seq<Lesson> = Seq::empty();
    assert(all == done + rest@);
    while rest.len() > 0
        invariant
            all == done + rest@,
            is_stable_sort_of(acc@, done, lesson_key()),
            acc@.to_multiset() == done.to_multiset(),
        decreases rest.len(),
    {
        let x = rest.remove(0);
        let mut p: usize = 0;
        while p < acc.len() && acc[p].order <= x.order
            invariant
                p <= acc.len(),
                forall|j: int| 0 <= j < p ==> (#[trigger] acc@[j]).order <= x.order,
            decreases acc.len() - p,
        {
            p = p + 1;
        }
        proof {
            lemma_insert_sorted(acc@, done, lesson_key(), x, p as int);
            done = done.push(x);
        }
        acc.insert(p, x);
        assert(all == done + rest@);
    }
    assert(done == all);
    acc
}

impl Module {
    /// A module with no lessons.
    pub fn new(id: ModuleId, title: &str, order: u32) -> (m: Self)
        ensures
            m.id == id,
            m.title@ == title@,
            m.order == order,
            m.lessons@.len() == 0,
    {
        Module { id, title: title.to_owned(), order, lessons: Vec::new() }
    }

    /// Adds a lesson; the lessons are then kept stably ordered by `order`.
    pub fn add_lesson(&mut self, lesson: Lesson)
        ensures
            is_stable_sort_of(final(self).lessons@, old(self).lessons@.push(lesson), lesson_key()),
            final(self).lessons@.to_multiset() == old(self).lessons@.push(lesson).to_multiset(),
            final(self).id == old(self).id,
            final(self).title == old(self).title,
            final(self).order == old(self).order,
    {
        let mut lessons: Vec<Lesson> = Vec::new();
        std::mem::swap(&mut lessons, &mut self.lessons);
        lessons.push(lesson);
        self.lessons = sort_lessons(lessons);
    }

    /// Total duration of the lessons, in minutes.
    pub fn total_duration(&self) -> (total: u32)
        requires
            sum_durations(self.lessons@) <= u32::MAX,
        ensures
            total == sum_durations(self.lessons@),
    {
        let mut total: u32 = 0;
        let n = self.lessons.len();
        for i in 0..n
            invariant
                n == self.lessons@.len(),
                sum_durations(self.lessons@) <= u32::MAX,
                total == sum_of(self.lessons@.take(i as int), lesson_minutes()),
        {
            proof {
                lemma_sum_take_next(self.lessons@, lesson_minutes(), i as int);
                lemma_sum_prefix(self.lessons@, lesson_minutes(), i + 1);
            }
            total = total + self.lessons[i].duration_minutes;
        }
        assert(self.lessons@.take(n as int) == self.lessons@);
        total
    }

    /// Number of lessons.
    pub fn lesson_count(&self) -> (n: usize)
        ensures
            n == self.lessons@.len(),
    {
        self.lessons.len()
    }
}

} // verus!
