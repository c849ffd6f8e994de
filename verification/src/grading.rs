//! Grading a submission: which answers count, whether the score reaches the
//! passing score, and the level it earns.

use crate::question::DynamicQuestion;
use crate::ratio::Ratio;
use crate::shuffle::texts;
use vstd::prelude::*;
use vstd::string::*;

verus! {

/// An answer counts as correct when it is longer than five characters. This
/// stands in for a comparison under encryption and looks at nothing else.
pub open spec fn is_accepted(answer: Seq<char>) -> bool {
    answer.len() > 5
}

/// The number of accepted answers among `answers`.
pub open spec fn accepted_among(answers: Seq<Seq<char>>) -> int
    decreases answers.len(),
{
    if answers.len() == 0 {
        0
    } else {
        accepted_among(answers.drop_last()) + if is_accepted(answers.last()) {
            1int
        } else {
            0int
        }
    }
}

/// The number of correct answers of a submission to a quiz of
/// `total_questions` questions: answers beyond the last question do not count.
pub open spec fn correct_count(answers: Seq<Seq<char>>, total_questions: int) -> int {
    if answers.len() <= total_questions {
        accepted_among(answers)
    } else if total_questions >= 0 {
        accepted_among(answers.take(total_questions))
    } else {
        0
    }
}

/// The share `correct / total` reaches the passing score. No share of no
/// questions does.
pub open spec fn reaches(correct: int, total: int, passing_score: Ratio) -> bool {
    total > 0 && correct * passing_score.den >= passing_score.num * total
}

/// The level that the share `correct / total` earns: 5 from 0.9, 4 from 0.7, 3
/// from 0.6, 2 from 0.5, else 1.
pub open spec fn level_of(correct: int, total: int) -> int {
    if total <= 0 {
        1
    } else if 10 * correct >= 9 * total {
        5
    } else if 10 * correct >= 7 * total {
        4
    } else if 10 * correct >= 6 * total {
        3
    } else if 10 * correct >= 5 * total {
        2
    } else {
        1
    }
}

/// Whether a submitted answer counts as correct for the question at
/// `question_index`.
pub fn simulate_encrypted_check(
    encrypted_answer: &str,
    question_index: usize,
    question: &DynamicQuestion,
) -> (accepted: bool)
    ensures
        accepted == is_accepted(encrypted_answer@),
{
    encrypted_answer.unicode_len() > 5
}

/// Counts the correct answers of a submission.
pub fn count_correct(answers: &Vec<String>, questions: &Vec<DynamicQuestion>) -> (count: usize)
    ensures
        count == correct_count(texts(answers@), questions@.len() as int),
        count <= questions@.len(),
        count <= answers@.len(),
{
    let limit = if answers.len() <= questions.len() {
        answers.len()
    } else {
        questions.len()
    };
    let ghost counted = texts(answers@).take(limit as int);
    let mut count: usize = 0;
    let mut i: usize = 0;
    while i < limit
        invariant
            i <= limit,
            limit <= answers@.len(),
            limit <= questions@.len(),
            counted == texts(answers@).take(limit as int),
            count == accepted_among(counted.take(i as int)),
            count <= i,
        decreases limit - i,
    {
        proof {
            assert(counted.take(i + 1).drop_last() =~= counted.take(i as int));
            assert(counted.take(i + 1).last() == answers@[i as int]@);
        }
        if simulate_encrypted_check(answers[i].as_str(), i, &questions[i]) {
            count = count + 1;
        }
        i = i + 1;
    }
    proof {
        assert(counted.take(i as int) =~= counted);
        if answers@.len() <= questions@.len() {
            assert(counted =~= texts(answers@));
        }
    }
    count
}

/// Decides whether `correct` answers out of `total` reach the passing score.
pub fn reaches_passing_score(correct: usize, total: usize, passing_score: Ratio) -> (reached:
    bool)
    requires
        passing_score.num <= u64::MAX,
        passing_score.den <= u64::MAX,
    ensures
        reached == reaches(correct as int, total as int, passing_score),
{
    proof {
        assert(0 <= correct * passing_score.den <= 0xFFFF_FFFF_FFFF_FFFF * 0xFFFF_FFFF_FFFF_FFFF)
            by (nonlinear_arith)
            requires
                0 <= correct <= 0xFFFF_FFFF_FFFF_FFFF,
                0 <= passing_score.den <= 0xFFFF_FFFF_FFFF_FFFF,
        ;
        assert(0 <= passing_score.num * total <= 0xFFFF_FFFF_FFFF_FFFF * 0xFFFF_FFFF_FFFF_FFFF)
            by (nonlinear_arith)
            requires
                0 <= total <= 0xFFFF_FFFF_FFFF_FFFF,
                0 <= passing_score.num <= 0xFFFF_FFFF_FFFF_FFFF,
        ;
    }
    total > 0 && (correct as u128) * passing_score.den >= passing_score.num * (total as u128)
}

/// The level that `correct` answers out of `total` earn.
pub fn level_for(correct: usize, total: usize) -> (level: u8)
    ensures
        level == level_of(correct as int, total as int),
        1 <= level <= 5,
{
    let c = 10 * (correct as u128);
    let t = total as u128;
    if total == 0 {
        1
    } else if c >= 9 * t {
        5
    } else if c >= 7 * t {
        4
    } else if c >= 6 * t {
        3
    } else if c >= 5 * t {
        2
    } else {
        1
    }
}

} // verus!
