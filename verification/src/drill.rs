//! A drill of the times table: questions drawn at random, answers judged,
//! and the score kept.

use vstd::prelude::*;

verus! {

/// The least factor of a question.
pub const LEAST_FACTOR: i32 = 3;

/// The greatest factor of a question.
pub const GREATEST_FACTOR: i32 = 12;

/// The number of questions where none is given.
pub const DEFAULT_QUESTIONS: usize = 20;

/// `rand::random_range` on a closed range of integers: some integer of the
/// range. Which one is up to chance.
#[verifier::external_body]
fn draw(low: i32, high: i32) -> (n: i32)
    requires
        low <= high,
    ensures
        low <= n <= high,
{
    rand::random_range(low..=high)
}

/// A question: two factors, each drawn at random between 3 and 12.
pub fn question() -> (factors: (i32, i32))
    ensures
        LEAST_FACTOR <= factors.0 <= GREATEST_FACTOR,
        LEAST_FACTOR <= factors.1 <= GREATEST_FACTOR,
{
    let first = draw(LEAST_FACTOR, GREATEST_FACTOR);
    let second = draw(LEAST_FACTOR, GREATEST_FACTOR);
    (first, second)
}

/// The number of questions of a drill: the number that was given, or 20
/// where none was.
pub fn question_count(given: Option<usize>) -> (count: usize)
    ensures
        count == match given {
            Some(n) => n,
            None => DEFAULT_QUESTIONS,
        },
{
    match given {
        Some(n) => n,
        None => DEFAULT_QUESTIONS,
    }
}

/// How an answer was judged.
#[derive(Debug, Clone, Copy, PartialEq, Eq, Structural)]
pub enum Verdict {
    /// The answer is the product.
    Correct,
    /// The answer is another number; the product is attached.
    Wrong(i64),
    /// The answer is no number.
    Unreadable,
}

/// Judges the answer to a question; `None` stands for an answer that is no
/// number.
pub fn judge(first: i32, second: i32, answer: Option<i32>) -> (verdict: Verdict)
    ensures
        verdict == match answer {
            None => Verdict::Unreadable,
            Some(n) => if n == first * second {
                Verdict::Correct
            } else {
                Verdict::Wrong((first * second) as i64)
            },
        },
{
    proof {
        assert(-0x4000_0000_0000_0000 <= first * second <= 0x4000_0000_0000_0000)
            by (nonlinear_arith)
            requires
                -0x8000_0000 <= first <= 0x7FFF_FFFF,
                -0x8000_0000 <= second <= 0x7FFF_FFFF,
        ;
    }
    let product: i64 = wide(first) * wide(second);
    match answer {
        None => Verdict::Unreadable,
        Some(n) => if wide(n) == product {
            Verdict::Correct
        } else {
            Verdict::Wrong(product)
        },
    }
}

/// An integer in the wider type, in which every product of two fits.
fn wide(n: i32) -> (w: i64)
    ensures
        w == n,
{
    n as i64
}

/// The score of a drill: how many questions were asked and how many of the
/// answers were correct.
#[derive(Debug, Clone, Copy)]
pub struct Score {
    pub asked: usize,
    pub correct: usize,
}

impl Score {
    /// The score before the first question.
    pub fn new() -> (score: Self)
        ensures
            score.asked == 0,
            score.correct == 0,
    {
        Score { asked: 0, correct: 0 }
    }

    /// Whether no more answers are correct than questions were asked.
    pub open spec fn is_sound(self) -> bool {
        self.correct <= self.asked
    }

    /// Notes the verdict on one more question. An answer that is no number
    /// uses up its question.
    pub fn record(&mut self, verdict: Verdict)
        requires
            old(self).is_sound(),
            old(self).asked < usize::MAX,
        ensures
            final(self).is_sound(),
            final(self).asked == old(self).asked + 1,
            final(self).correct == if verdict == Verdict::Correct {
                old(self).correct + 1
            } else {
                old(self).correct as int
            },
    {
        self.asked = self.asked + 1;
        match verdict {
            Verdict::Correct => {
                self.correct = self.correct + 1;
            },
            _ => {},
        }
    }
}

} // verus!
