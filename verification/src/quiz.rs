//! The quiz engine: questions, answers and grading.

use vstd::prelude::*;

use crate::ids::{CourseId, QuizId};
use crate::sums::{lemma_sum_prefix, lemma_sum_take_next, sum_of};
use crate::text::{eq_ignore_ascii_case, text_eq_ignore_ascii_case};

verus! {

/// The kind of question.
#[derive(Debug, Clone, PartialEq, Eq)]
pub enum QuestionKind {
    /// Multiple-choice with index of correct answer (0-based).
    MultipleChoice { choices: Vec<String>, correct: usize },
    /// Fill-in-the-blank with expected answer (case-insensitive match).
    FillIn { expected: String },
}

/// A single question.
#[derive(Debug, Clone)]
pub struct Question {
    pub text: String,
    pub kind: QuestionKind,
    pub points: u32,
}

/// An answer submitted by a student.
#[derive(Debug, Clone)]
pub enum Answer {
    Choice(usize),
    Text(String),
}

/// Whether `answer` is a correct answer to a question of kind `kind`: the
/// right choice for a multiple-choice question, the expected text up to ASCII
/// letter case for a fill-in question, and never an answer of the other sort.
pub open spec fn answer_is_correct(kind: QuestionKind, answer: Answer) -> bool {
    match kind {
        QuestionKind::MultipleChoice { correct, .. } => match answer {
            Answer::Choice(i) => i == correct,
            Answer::Text(_) => false,
        },
        QuestionKind::FillIn { expected } => match answer {
            Answer::Choice(_) => false,
            Answer::Text(t) => text_eq_ignore_ascii_case(t@, expected@),
        },
    }
}

/// The points of a question, as a weight.
pub open spec fn question_points() -> spec_fn(Question) -> int {
    |q: Question| q.points as int
}

/// The most points a quiz with `questions` can give.
pub open spec fn max_points(questions: Seq<Question>) -> int {
    sum_of(questions, question_points())
}

/// The points earned on the first `n` questions: each question answered
/// correctly by the answer at the same position gives its points.
pub open spec fn earned_points(questions: Seq<Question>, answers: Seq<Answer>, n: int) -> int
    decreases n,
{
    if n <= 0 {
        0
    } else {
        earned_points(questions, answers, n - 1) + if answer_is_correct(
            questions[n - 1].kind,
            answers[n - 1],
        ) {
            questions[n - 1].points as int
        } else {
            0
        }
    }
}

/// The number of question and answer pairs that are graded.
pub open spec fn graded_count(questions: Seq<Question>, answers: Seq<Answer>) -> int {
    if questions.len() <= answers.len() {
        questions.len() as int
    } else {
        answers.len() as int
    }
}

/// Earned points never exceed what the same questions could give.
pub proof fn lemma_earned_at_most_max(questions: Seq<Question>, answers: Seq<Answer>, n: int)
    requires
        0 <= n <= questions.len(),
    ensures
        0 <= earned_points(questions, answers, n) <= sum_of(questions.take(n), question_points()),
    decreases n,
{
    if n > 0 {
        lemma_earned_at_most_max(questions, answers, n - 1);
        lemma_sum_take_next(questions, question_points(), n - 1);
    }
}

impl Question {
    /// A multiple-choice question.
    pub fn multiple_choice(text: &str, choices: &[&str], correct: usize, points: u32) -> (q: Self)
        ensures
            q.text@ == text@,
            q.points == points,
            q.kind matches QuestionKind::MultipleChoice { choices: c, correct: k } && k == correct
                && c@.len() == choices@.len() && forall|i: int|
                0 <= i < choices@.len() ==> (#[trigger] c@[i])@ == choices@[i]@,
    {
        let mut owned: Vec<String> = Vec::new();
        let n = choices.len();
        for i in 0..n
            invariant
                n == choices@.len(),
                owned@.len() == i,
                forall|j: int| 0 <= j < i ==> (#[trigger] owned@[j])@ == choices@[j]@,
        {
            owned.push(choices[i].to_owned());
        }
        Question {
            text: text.to_owned(),
            kind: QuestionKind::MultipleChoice { choices: owned, correct },
            points,
        }
    }

    /// A fill-in-the-blank question.
    pub fn fill_in(text: &str, expected: &str, points: u32) -> (q: Self)
        ensures
            q.text@ == text@,
            q.points == points,
            q.kind matches QuestionKind::FillIn { expected: e } && e@ == expected@,
    {
        Question {
            text: text.to_owned(),
            kind: QuestionKind::FillIn { expected: expected.to_owned() },
            points,
        }
    }

    /// Whether `answer` is correct.
    pub fn check(&self, answer: &Answer) -> (r: bool)
        ensures
            r == answer_is_correct(self.kind, *answer),
    {
        match &self.kind {
            QuestionKind::MultipleChoice { correct, .. } => match answer {
                Answer::Choice(idx) => *idx == *correct,
                Answer::Text(_) => false,
            },
            QuestionKind::FillIn { expected } => match answer {
                Answer::Choice(_) => false,
                Answer::Text(txt) => eq_ignore_ascii_case(txt.as_str(), expected.as_str()),
            },
        }
    }
}

/// A quiz attached to a course.
#[derive(Debug, Clone)]
pub struct Quiz {
    pub id: QuizId,
    pub course_id: CourseId,
    pub title: String,
    pub questions: Vec<Question>,
    pub passing_score: u32,
}

/// Result of grading a quiz.
#[derive(Debug, Clone, PartialEq, Eq, Structural)]
pub struct QuizResult {
    pub earned: u32,
    pub max: u32,
    pub passed: bool,
}

/// The percentage `earned` is of `max`, rounded down; 0 when `max` is 0.
pub open spec fn percentage_of(earned: int, max: int) -> int {
    if max == 0 {
        0
    } else {
        earned * 100 / max
    }
}

/// The result of grading `answers` against `quiz`.
pub open spec fn grade_of(quiz: Quiz, answers: Seq<Answer>) -> QuizResult {
    let earned = earned_points(quiz.questions@, answers, graded_count(quiz.questions@, answers));
    QuizResult {
        earned: earned as u32,
        max: max_points(quiz.questions@) as u32,
        passed: earned >= quiz.passing_score,
    }
}

impl Quiz {
    /// A quiz with no questions.
    pub fn new(id: QuizId, course_id: CourseId, title: &str, passing_score: u32) -> (q: Self)
        ensures
            q.id == id,
            q.course_id == course_id,
            q.title@ == title@,
            q.questions@.len() == 0,
            q.passing_score == passing_score,
    {
        Quiz { id, course_id, title: title.to_owned(), questions: Vec::new(), passing_score }
    }

    /// Appends a question.
    pub fn add_question(&mut self, question: Question)
        ensures
            *final(self) == (Quiz { questions: final(self).questions, ..*old(self) }),
            final(self).questions@ == old(self).questions@.push(question),
    {
        self.questions.push(question);
    }

    /// The most points the quiz can give.
    pub fn max_score(&self) -> (m: u32)
        requires
            max_points(self.questions@) <= u32::MAX,
        ensures
            m == max_points(self.questions@),
    {
        let mut total: u32 = 0;
        let n = self.questions.len();
        for i in 0..n
            invariant
                n == self.questions@.len(),
                max_points(self.questions@) <= u32::MAX,
                total == sum_of(self.questions@.take(i as int), question_points()),
        {
            proof {
                lemma_sum_take_next(self.questions@, question_points(), i as int);
                lemma_sum_prefix(self.questions@, question_points(), i + 1);
            }
            total = total + self.questions[i].points;
        }
        assert(self.questions@.take(n as int) == self.questions@);
        total
    }

    /// Grades answers, pairing each question with the answer at the same
    /// position; questions past the last answer, and answers past the last
    /// question, are ignored.
    pub fn grade(&self, answers: &[Answer]) -> (r: QuizResult)
        requires
            max_points(self.questions@) <= u32::MAX,
        ensures
            r.earned == earned_points(
                self.questions@,
                answers@,
                graded_count(self.questions@, answers@),
            ),
            r.max == max_points(self.questions@),
            r.passed == (r.earned >= self.passing_score),
            r.earned <= r.max,
            r == grade_of(*self, answers@),
    {
        let mut earned: u32 = 0;
        let nq = self.questions.len();
        let na = answers.len();
        let n = if nq <= na {
            nq
        } else {
            na
        };
        for i in 0..n
            invariant
                n == graded_count(self.questions@, answers@),
                nq == self.questions@.len(),
                na == answers@.len(),
                max_points(self.questions@) <= u32::MAX,
                earned == earned_points(self.questions@, answers@, i as int),
        {
            proof {
                lemma_earned_at_most_max(self.questions@, answers@, i + 1);
                lemma_sum_prefix(self.questions@, question_points(), i + 1);
            }
            if self.questions[i].check(&answers[i]) {
                earned = earned + self.questions[i].points;
            }
        }
        proof {
            lemma_earned_at_most_max(self.questions@, answers@, n as int);
            lemma_sum_prefix(self.questions@, question_points(), n as int);
        }
        let max = self.max_score();
        let passed = earned >= self.passing_score;
        QuizResult { earned, max, passed }
    }
}

impl QuizResult {
    /// Percentage score, rounded down; 0 when nothing could be earned.
    pub fn percentage(&self) -> (p: u32)
        requires
            self.max == 0 || self.earned * 100 <= u32::MAX,
        ensures
            p == percentage_of(self.earned as int, self.max as int),
    {
        if self.max == 0 {
            return 0;
        }
        (self.earned * 100) / self.max
    }
}

} // verus!
