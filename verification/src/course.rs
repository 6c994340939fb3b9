//! A course: modules kept in module order.

use vstd::prelude::*;

use crate::ids::{CourseId, LessonId};
use crate::lesson::Lesson;
use crate::module::{sum_durations, Module};
use crate::ordering::{is_stable_sort_of, lemma_insert_sorted};
use crate::sums::{lemma_sum_prefix, lemma_sum_take_next, sum_of};

verus! {

broadcast use vstd::seq_lib::group_to_multiset_ensures;

/// The key by which a course orders its modules.
pub open spec fn module_key() -> spec_fn(Module) -> int {
    |m: Module| m.order as int
}

/// The number of lessons of a module, as a weight.
pub open spec fn module_lessons() -> spec_fn(Module) -> int {
    |m: Module| m.lessons@.len() as int
}

/// The duration of a module, as a weight.
pub open spec fn module_minutes() -> spec_fn(Module) -> int {
    |m: Module| sum_durations(m.lessons@)
}

/// The number of lessons over all `modules`.
pub open spec fn count_lessons(modules: Seq<Module>) -> int {
    sum_of(modules, module_lessons())
}

/// The duration of all `modules`, in minutes.
pub open spec fn course_minutes(modules: Seq<Module>) -> int {
    sum_of(modules, module_minutes())
}

/// The identifiers of the lessons of one module, in lesson order.
pub open spec fn module_lesson_ids(m: Module) -> Seq<LessonId> {
    m.lessons@.map_values(|l: Lesson| l.id)
}

/// The identifiers of all lessons, in module order and then lesson order.
pub open spec fn lesson_ids(modules: Seq<Module>) -> Seq<LessonId>
    decreases modules.len(),
{
    if modules.len() == 0 {
        Seq::empty()
    } else {
        lesson_ids(modules.drop_last()) + module_lesson_ids(modules.last())
    }
}

/// There are as many lesson identifiers as lessons.
pub proof fn lemma_lesson_ids_len(modules: Seq<Module>)
    ensures
        lesson_ids(modules).len() == count_lessons(modules),
    decreases modules.len(),
{
    if modules.len() > 0 {
        lemma_lesson_ids_len(modules.drop_last());
    }
}

/// A course contains ordered modules.
#[derive(Debug, Clone)]
pub struct Course {
    pub id: CourseId,
    pub title: String,
    pub description: String,
    pub modules: Vec<Module>,
}

/// Sorts `v` stably by module order.
fn sort_modules(v: Vec<Module>) -> (r: Vec<Module>)
    ensures
        is_stable_sort_of(r@, v@, module_key()),
        r@.to_multiset() == v@.to_multiset(),
{
    let ghost all = v@;
    let mut rest = v;
    let mut acc: Vec<Module> = Vec::new();
    let ghost mut done: Seq<Module> = Seq::empty();
    assert(all == done + rest@);
    while rest.len() > 0
        invariant
            all == done + rest@,
            is_stable_sort_of(acc@, done, module_key()),
            acc@.to_multiset() == done.to_multiset(),
        decreases rest.len(),
    {
        let x = rest.remove(0);
        let mut p: usize = 0;
        while p < acc.len() && acc[p].order <= x.order
            invariant
                p <= acc.len(),
                forall|j: int| 0 <= j < p ==> (#[trigger] acc@[j]).order <= x.order,
            decreases acc.len() - p,
        {
            p = p + 1;
        }
        proof {
            lemma_insert_sorted(acc@, done, module_key(), x, p as int);
            done = done.push(x);
        }
        acc.insert(p, x);
        assert(all == done + rest@);
    }
    assert(done == all);
    acc
}

impl Course {
    /// A course with no modules.
    pub fn new(id: CourseId, title: &str, description: &str) -> (c: Self)
        ensures
            c.id == id,
            c.title@ == title@,
            c.description@ == description@,
            c.modules@.len() == 0,
    {
        Course {
            id,
            title: title.to_owned(),
            description: description.to_owned(),
            modules: Vec::new(),
        }
    }

    /// Adds a module; the modules are then kept stably ordered by `order`.
    pub fn add_module(&mut self, module: Module)
        ensures
            is_stable_sort_of(final(self).modules@, old(self).modules@.push(module), module_key()),
            final(self).modules@.to_multiset() == old(self).modules@.push(module).to_multiset(),
            final(self).id == old(self).id,
            final(self).title == old(self).title,
            final(self).description == old(self).description,
    {
        let mut modules: Vec<Module> = Vec::new();
        std::mem::swap(&mut modules, &mut self.modules);
        modules.push(module);
        self.modules = sort_modules(modules);
    }

    /// Number of lessons over all modules.
    pub fn total_lessons(&self) -> (n: usize)
        requires
            count_lessons(self.modules@) <= usize::MAX,
        ensures
            n == count_lessons(self.modules@),
    {
        let mut total: usize = 0;
        let n = self.modules.len();
        for i in 0..n
            invariant
                n == self.modules@.len(),
                count_lessons(self.modules@) <= usize::MAX,
                total == sum_of(self.modules@.take(i as int), module_lessons()),
        {
            proof {
                lemma_sum_take_next(self.modules@, module_lessons(), i as int);
                lemma_sum_prefix(self.modules@, module_lessons(), i + 1);
            }
            total = total + self.modules[i].lesson_count();
        }
        assert(self.modules@.take(n as int) == self.modules@);
        total
    }

    /// Total duration over all modules, in minutes.
    pub fn total_duration(&self) -> (total: u32)
        requires
            course_minutes(self.modules@) <= u32::MAX,
        ensures
            total == course_minutes(self.modules@),
    {
        let mut total: u32 = 0;
        let n = self.modules.len();
        for i in 0..n
            invariant
                n == self.modules@.len(),
                course_minutes(self.modules@) <= u32::MAX,
                total == sum_of(self.modules@.take(i as int), module_minutes()),
        {
            proof {
                assert forall|j: int| 0 <= j < self.modules@.len() implies (#[trigger] module_minutes()(
                    self.modules@[j],
                )) >= 0 by {
                    crate::module::lemma_sum_durations_nonneg(self.modules@[j].lessons@);
                }
                lemma_sum_take_next(self.modules@, module_minutes(), i as int);
                lemma_sum_prefix(self.modules@, module_minutes(), i + 1);
                lemma_sum_prefix(self.modules@, module_minutes(), i as int);
                crate::module::lemma_sum_durations_nonneg(self.modules@[i as int].lessons@);
            }
            let m = self.modules[i].total_duration();
            total = total + m;
        }
        assert(self.modules@.take(n as int) == self.modules@);
        total
    }

    /// All lesson identifiers, in module order and then lesson order.
    pub fn all_lesson_ids(&self) -> (ids: Vec<LessonId>)
        ensures
            ids@ == lesson_ids(self.modules@),
            ids@.len() == count_lessons(self.modules@),
    {
        let mut ids: Vec<LessonId> = Vec::new();
        let n = self.modules.len();
        for i in 0..n
            invariant
                n == self.modules@.len(),
                ids@ == lesson_ids(self.modules@.take(i as int)),
        {
            let m = &self.modules[i];
            let k = m.lessons.len();
            let ghost before = ids@;
            for j in 0..k
                invariant
                    k == m.lessons@.len(),
                    ids@ == before + module_lesson_ids(*m).take(j as int),
            {
                ids.push(m.lessons[j].id);
                assert(module_lesson_ids(*m).take(j + 1) == module_lesson_ids(*m).take(j as int).push(
                    m.lessons@[j as int].id,
                ));
            }
            assert(module_lesson_ids(*m).take(k as int) == module_lesson_ids(*m));
            assert(self.modules@.take(i + 1).drop_last() == self.modules@.take(i as int));
        }
        assert(self.modules@.take(n as int) == self.modules@);
        proof {
            lemma_lesson_ids_len(self.modules@);
        }
        ids
    }
}

} // verus!
