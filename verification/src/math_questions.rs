//! Arithmetic questions: the problem that is drawn, the answer and the
//! distractors that follow from it, and the question built from them.

use crate::question::{named_texts, DynamicQuestion, QuestionView, OPTION_COUNT};
use crate::random::{random_in_range, random_u32};
use crate::ratio::Ratio;
use crate::shuffle::{
    draw_picks, is_only_match, lemma_shuffle_is_permutation, lemma_shuffle_keeps_single, texts,
    valid_picks,
};
use crate::text::{
    decimal, decimal_string, lemma_signed_decimal_injective, signed_decimal,
    signed_decimal_string,
};
use vstd::prelude::*;
use vstd::string::*;

verus! {

/// The four kinds of arithmetic question.
#[derive(Clone, Copy, Debug, PartialEq, Eq, Structural)]
pub enum MathOperation {
    Addition,
    Subtraction,
    Multiplication,
    Division,
}

/// One drawn arithmetic problem: the operation, its two operands `a` and `b`
/// as they appear in the prompt, and the two offsets by which the first two
/// distractors lie above and below the answer.
#[derive(Clone, Copy, Debug, PartialEq, Eq, Structural)]
pub struct MathProblem {
    pub operation: MathOperation,
    pub a: i32,
    pub b: i32,
    pub raise: i32,
    pub lower: i32,
}

impl MathProblem {
    /// The operands and offsets lie in the ranges from which problems of this
    /// operation are drawn. A division is drawn as divisor and quotient, so its
    /// dividend `a` is a multiple of `b`.
    pub open spec fn in_range(self) -> bool {
        match self.operation {
            MathOperation::Addition => {
                &&& 1 <= self.a < 100
                &&& 1 <= self.b < 100
                &&& 5 <= self.raise < 15
                &&& 5 <= self.lower < 15
            },
            MathOperation::Subtraction => {
                &&& 50 <= self.a < 200
                &&& 1 <= self.b < self.a
                &&& 5 <= self.raise < 15
                &&& 5 <= self.lower < 15
            },
            MathOperation::Multiplication => {
                &&& 2 <= self.a < 20
                &&& 2 <= self.b < 12
                &&& 5 <= self.raise < 15
                &&& 5 <= self.lower < 15
            },
            MathOperation::Division => {
                &&& 2 <= self.b < 12
                &&& (self.a as int) % (self.b as int) == 0
                &&& 2 <= (self.a as int) / (self.b as int) < 20
                &&& self.raise == 1
                &&& self.lower == 1
            },
        }
    }

    /// The numbers drawn for a problem of the given kind lie in the ranges of
    /// that kind. Kind 0 is an addition, 1 a subtraction, 2 a multiplication,
    /// each of `first` and `second` with two offsets; any other kind is a
    /// division, drawn as divisor `first` and quotient `second`, for which no
    /// offset is drawn.
    pub open spec fn draw_bounds(kind: int, first: int, second: int, raise: int, lower: int) -> bool {
        if kind == 0 {
            &&& 1 <= first < 100
            &&& 1 <= second < 100
            &&& 5 <= raise < 15
            &&& 5 <= lower < 15
        } else if kind == 1 {
            &&& 50 <= first < 200
            &&& 1 <= second < first
            &&& 5 <= raise < 15
            &&& 5 <= lower < 15
        } else if kind == 2 {
            &&& 2 <= first < 20
            &&& 2 <= second < 12
            &&& 5 <= raise < 15
            &&& 5 <= lower < 15
        } else {
            &&& 2 <= first < 12
            &&& 2 <= second < 20
        }
    }

    /// The problem that the drawn numbers make: the operation of the kind on
    /// `first` and `second` with the drawn offsets, and for a division the
    /// dividend `first * second` over the divisor `first`, with both offsets 1.
    pub open spec fn of_draw(kind: int, first: int, second: int, raise: int, lower: int) -> MathProblem {
        if kind == 0 {
            MathProblem {
                operation: MathOperation::Addition,
                a: first as i32,
                b: second as i32,
                raise: raise as i32,
                lower: lower as i32,
            }
        } else if kind == 1 {
            MathProblem {
                operation: MathOperation::Subtraction,
                a: first as i32,
                b: second as i32,
                raise: raise as i32,
                lower: lower as i32,
            }
        } else if kind == 2 {
            MathProblem {
                operation: MathOperation::Multiplication,
                a: first as i32,
                b: second as i32,
                raise: raise as i32,
                lower: lower as i32,
            }
        } else {
            MathProblem {
                operation: MathOperation::Division,
                a: (first * second) as i32,
                b: first as i32,
                raise: 1,
                lower: 1,
            }
        }
    }

    /// The true result of the operation on the two operands.
    pub open spec fn answer(self) -> int {
        let a = self.a as int;
        let b = self.b as int;
        match self.operation {
            MathOperation::Addition => a + b,
            MathOperation::Subtraction => a - b,
            MathOperation::Multiplication => a * b,
            MathOperation::Division => a / b,
        }
    }

    /// The result that a plausible slip gives: one too many, the operands
    /// added, one factor too large, or the divisor one too large (but at least
    /// one).
    pub open spec fn slip(self) -> int {
        let a = self.a as int;
        let b = self.b as int;
        match self.operation {
            MathOperation::Addition => a + b + 1,
            MathOperation::Subtraction => a + b,
            MathOperation::Multiplication => (a + 1) * b,
            MathOperation::Division => if a / (b + 1) >= 1 {
                a / (b + 1)
            } else {
                1
            },
        }
    }

    /// The decimal forms of the three wrong values, in the order in which
    /// they are listed: the answer raised, the answer lowered, the slip.
    pub open spec fn distractor_texts(self) -> Seq<Seq<char>> {
        seq![
            signed_decimal(self.answer() + self.raise),
            signed_decimal(self.answer() - self.lower),
            signed_decimal(self.slip()),
        ]
    }

    /// The sign of the operation as the prompt shows it, with a blank on each
    /// side.
    pub open spec fn sign(self) -> Seq<char> {
        match self.operation {
            MathOperation::Addition => " + "@,
            MathOperation::Subtraction => " - "@,
            MathOperation::Multiplication => " \u{d7} "@,
            MathOperation::Division => " \u{f7} "@,
        }
    }

    /// The name under which the operation is recorded.
    pub open spec fn kind_name(self) -> Seq<char> {
        match self.operation {
            MathOperation::Addition => "addition"@,
            MathOperation::Subtraction => "subtraction"@,
            MathOperation::Multiplication => "multiplication"@,
            MathOperation::Division => "division"@,
        }
    }

    /// The prompt: `What is a + b?` with the operation's own sign.
    pub open spec fn prompt(self) -> Seq<char> {
        "What is "@ + signed_decimal(self.a as int) + self.sign() + signed_decimal(self.b as int)
            + "?"@
    }

    /// The recorded generation parameters: both operands and the operation.
    pub open spec fn parameters(self) -> Seq<(Seq<char>, Seq<char>)> {
        seq![
            ("a"@, signed_decimal(self.a as int)),
            ("b"@, signed_decimal(self.b as int)),
            ("type"@, self.kind_name()),
        ]
    }

    /// The identifier of a question on this problem for `user_id`.
    pub open spec fn question_id(user_id: Seq<char>, suffix: u32) -> Seq<char> {
        "math_"@ + user_id + "_"@ + decimal(suffix as nat)
    }

    /// The time expected for an arithmetic question, in seconds.
    pub open spec fn expected_time() -> u32 {
        30
    }

    /// In a division the dividend is the quotient times the divisor: the
    /// division leaves no remainder.
    pub proof fn lemma_division_is_exact(self)
        requires
            self.in_range(),
            self.operation == MathOperation::Division,
        ensures
            self.a == self.answer() * self.b,
            (self.a as int) % (self.b as int) == 0,
            4 <= self.a <= 209,
    {
        let a = self.a as int;
        let b = self.b as int;
        vstd::arithmetic::div_mod::lemma_fundamental_div_mod(a, b);
        assert((a / b) * b == b * (a / b)) by (nonlinear_arith);
        assert(4 <= b * (a / b) <= 209) by (nonlinear_arith)
            requires
                2 <= b < 12,
                2 <= a / b < 20,
        ;
    }

    /// The answer is a small positive number, and none of the three wrong
    /// values equals it.
    pub proof fn lemma_distractors_differ(self)
        requires
            self.in_range(),
        ensures
            1 <= self.answer() <= 209,
            1 <= self.slip() <= 397,
            self.answer() + self.raise != self.answer(),
            self.answer() - self.lower != self.answer(),
            self.slip() != self.answer(),
    {
        let a = self.a as int;
        let b = self.b as int;
        match self.operation {
            MathOperation::Addition => {},
            MathOperation::Subtraction => {},
            MathOperation::Multiplication => {
                assert(4 <= a * b <= 209 && (a + 1) * b == a * b + b) by (nonlinear_arith)
                    requires
                        2 <= a < 20,
                        2 <= b < 12,
                ;
            },
            MathOperation::Division => {
                self.lemma_division_is_exact();
                let q = a / b;
                let x = a / (b + 1);
                vstd::arithmetic::div_mod::lemma_fundamental_div_mod(a, b + 1);
                vstd::arithmetic::div_mod::lemma_mod_pos_bound(a, b + 1);
                assert(x < q) by (nonlinear_arith)
                    requires
                        a == q * b,
                        a == (b + 1) * x + a % (b + 1),
                        0 <= a % (b + 1),
                        2 <= b,
                        2 <= q,
                ;
            },
        }
    }

    /// Computes the answer.
    pub fn compute_answer(&self) -> (r: i32)
        requires
            self.in_range(),
        ensures
            r == self.answer(),
    {
        match self.operation {
            MathOperation::Addition => self.a + self.b,
            MathOperation::Subtraction => self.a - self.b,
            MathOperation::Multiplication => {
                assert(self.a * self.b <= 19 * 11) by (nonlinear_arith)
                    requires
                        2 <= self.a < 20,
                        2 <= self.b < 12,
                ;
                assert(self.a * self.b >= 0) by (nonlinear_arith)
                    requires
                        2 <= self.a < 20,
                        2 <= self.b < 12,
                ;
                self.a * self.b
            },
            MathOperation::Division => {
                proof {
                    self.lemma_division_is_exact();
                }
                self.a / self.b
            },
        }
    }

    /// Computes the result that a plausible slip gives.
    pub fn compute_slip(&self) -> (r: i32)
        requires
            self.in_range(),
        ensures
            r == self.slip(),
    {
        match self.operation {
            MathOperation::Addition => self.a + self.b + 1,
            MathOperation::Subtraction => self.a + self.b,
            MathOperation::Multiplication => {
                assert(0 <= (self.a + 1) * self.b <= 20 * 11) by (nonlinear_arith)
                    requires
                        2 <= self.a < 20,
                        2 <= self.b < 12,
                ;
                (self.a + 1) * self.b
            },
            MathOperation::Division => {
                proof {
                    self.lemma_division_is_exact();
                }
                let shrunk = self.a / (self.b + 1);
                if shrunk >= 1 {
                    shrunk
                } else {
                    1
                }
            },
        }
    }

    /// Draws a problem: one of the four operations with equal chance, then its
    /// operands and offsets from the ranges of that operation.
    pub fn draw() -> (p: MathProblem)
        ensures
            p.in_range(),
    {
        let kind = random_in_range(0, 4);
        if kind == 0 {
            let first = random_in_range(1, 100);
            let second = random_in_range(1, 100);
            let raise = random_in_range(5, 15);
            let lower = random_in_range(5, 15);
            MathProblem::from_draw(kind, first, second, raise, lower)
        } else if kind == 1 {
            let first = random_in_range(50, 200);
            let second = random_in_range(1, first);
            let raise = random_in_range(5, 15);
            let lower = random_in_range(5, 15);
            MathProblem::from_draw(kind, first, second, raise, lower)
        } else if kind == 2 {
            let first = random_in_range(2, 20);
            let second = random_in_range(2, 12);
            let raise = random_in_range(5, 15);
            let lower = random_in_range(5, 15);
            MathProblem::from_draw(kind, first, second, raise, lower)
        } else {
            let divisor = random_in_range(2, 12);
            let quotient = random_in_range(2, 20);
            MathProblem::from_draw(kind, divisor, quotient, 1, 1)
        }
    }

    /// The problem that a drawn kind and the numbers drawn from the ranges of
    /// that kind make.
    pub fn from_draw(kind: i32, first: i32, second: i32, raise: i32, lower: i32) -> (p: MathProblem)
        requires
            0 <= kind < 4,
            MathProblem::draw_bounds(
                kind as int,
                first as int,
                second as int,
                raise as int,
                lower as int,
            ),
        ensures
            p == MathProblem::of_draw(
                kind as int,
                first as int,
                second as int,
                raise as int,
                lower as int,
            ),
            p.in_range(),
    {
        if kind == 0 {
            MathProblem { operation: MathOperation::Addition, a: first, b: second, raise, lower }
        } else if kind == 1 {
            MathProblem { operation: MathOperation::Subtraction, a: first, b: second, raise, lower }
        } else if kind == 2 {
            MathProblem {
                operation: MathOperation::Multiplication,
                a: first,
                b: second,
                raise,
                lower,
            }
        } else {
            assert(0 <= first * second <= 11 * 19) by (nonlinear_arith)
                requires
                    2 <= first < 12,
                    2 <= second < 20,
            ;
            let dividend = first * second;
            proof {
                assert(dividend == second * first) by (nonlinear_arith)
                    requires
                        dividend == first * second,
                ;
                vstd::arithmetic::div_mod::lemma_fundamental_div_mod_converse(
                    dividend as int,
                    first as int,
                    second as int,
                    0,
                );
            }
            MathProblem { operation: MathOperation::Division, a: dividend, b: first, raise: 1, lower: 1 }
        }
    }

    /// The sign of the operation, with a blank on each side.
    fn sign_text(&self) -> (s: &'static str)
        ensures
            s@ == self.sign(),
    {
        match self.operation {
            MathOperation::Addition => " + ",
            MathOperation::Subtraction => " - ",
            MathOperation::Multiplication => " \u{d7} ",
            MathOperation::Division => " \u{f7} ",
        }
    }

    /// The name under which the operation is recorded.
    fn kind_text(&self) -> (s: &'static str)
        ensures
            s@ == self.kind_name(),
    {
        match self.operation {
            MathOperation::Addition => "addition",
            MathOperation::Subtraction => "subtraction",
            MathOperation::Multiplication => "multiplication",
            MathOperation::Division => "division",
        }
    }
}

impl QuestionView {
    /// The question is the arithmetic question on `problem` for `user_id`, with
    /// its options shuffled by `picks` and its identifier ending in `suffix`.
    pub open spec fn is_math_question(
        self,
        user_id: Seq<char>,
        difficulty: Ratio,
        problem: MathProblem,
        picks: Seq<usize>,
        suffix: u32,
    ) -> bool {
        self.is_assembled(
            MathProblem::question_id(user_id, suffix),
            problem.prompt(),
            signed_decimal(problem.answer()),
            problem.distractor_texts(),
            problem.parameters(),
            difficulty,
            MathProblem::expected_time(),
            picks,
        )
    }

    /// The question is an arithmetic question for `user_id` on some problem
    /// within the ranges, shuffled in some way.
    pub open spec fn is_generated_math(self, user_id: Seq<char>, difficulty: Ratio) -> bool {
        exists|problem: MathProblem, picks: Seq<usize>, suffix: u32|
            problem.in_range() && valid_picks(picks, OPTION_COUNT as nat)
                && #[trigger] self.is_math_question(user_id, difficulty, problem, picks, suffix)
    }
}

/// Exactly one of the four options of an arithmetic question is the decimal
/// form of the true result of its operation, and it is the one that the
/// correct-option index names. In a division that result times the divisor is
/// the dividend: the division leaves no remainder.
pub proof fn lemma_math_one_correct_option(
    q: QuestionView,
    user_id: Seq<char>,
    difficulty: Ratio,
    problem: MathProblem,
    picks: Seq<usize>,
    suffix: u32,
)
    requires
        problem.in_range(),
        valid_picks(picks, OPTION_COUNT as nat),
        q.is_math_question(user_id, difficulty, problem, picks, suffix),
    ensures
        q.options.len() == OPTION_COUNT,
        forall|k: int|
            0 <= k < q.options.len() ==> (q.options[k] == signed_decimal(problem.answer()) <==> k
                == q.correct_answer),
        problem.operation == MathOperation::Division ==> (problem.a as int) % (problem.b as int)
            == 0 && problem.answer() * problem.b == problem.a,
{
    let correct = signed_decimal(problem.answer());
    let unshuffled = seq![correct] + problem.distractor_texts();
    problem.lemma_distractors_differ();
    assert(is_only_match(unshuffled, correct, 0)) by {
        assert forall|k: int| 0 <= k < unshuffled.len() && unshuffled[k] == correct implies k
            == 0 by {
            if k == 1 {
                lemma_signed_decimal_injective(problem.answer() + problem.raise, problem.answer());
            } else if k == 2 {
                lemma_signed_decimal_injective(problem.answer() - problem.lower, problem.answer());
            } else if k == 3 {
                lemma_signed_decimal_injective(problem.slip(), problem.answer());
            }
        }
    }
    lemma_shuffle_keeps_single(unshuffled, picks, unshuffled.len(), correct);
    lemma_shuffle_is_permutation(unshuffled, picks, unshuffled.len());
    let m = choose|m: int| is_only_match(q.options, correct, m);
    assert(m == q.correct_answer);
    if problem.operation == MathOperation::Division {
        problem.lemma_division_is_exact();
    }
}

/// Every generated arithmetic question asks some problem within the ranges,
/// and exactly one of its options is the decimal form of that problem's true
/// result: the one that its correct-option index names.
pub proof fn lemma_generated_math_one_correct_option(
    q: QuestionView,
    user_id: Seq<char>,
    difficulty: Ratio,
)
    requires
        q.is_generated_math(user_id, difficulty),
    ensures
        exists|problem: MathProblem|
            {
                &&& problem.in_range()
                &&& q.question_text == #[trigger] problem.prompt()
                &&& q.parameters == problem.parameters()
                &&& forall|k: int|
                    0 <= k < q.options.len() ==> (q.options[k] == signed_decimal(problem.answer())
                        <==> k == q.correct_answer)
            },
{
    let (problem, picks, suffix) = choose|problem: MathProblem, picks: Seq<usize>, suffix: u32|
        problem.in_range() && valid_picks(picks, OPTION_COUNT as nat)
            && #[trigger] q.is_math_question(user_id, difficulty, problem, picks, suffix);
    lemma_math_one_correct_option(q, user_id, difficulty, problem, picks, suffix);
    assert(q.question_text == problem.prompt());
}

impl DynamicQuestion {
    /// The arithmetic question on `problem` for `user_id`, with its options
    /// shuffled by `picks` and its identifier ending in `suffix`.
    pub fn math_question(
        user_id: &str,
        difficulty: Ratio,
        problem: &MathProblem,
        picks: &Vec<usize>,
        suffix: u32,
    ) -> (q: DynamicQuestion)
        requires
            problem.in_range(),
            valid_picks(picks@, OPTION_COUNT as nat),
        ensures
            q@.is_math_question(user_id@, difficulty, *problem, picks@, suffix),
            q.wf(),
            q@.options.len() == OPTION_COUNT,
            q@.options[q.correct_answer as int] == signed_decimal(problem.answer()),
    {
        let answer = problem.compute_answer();
        let slip = problem.compute_slip();
        proof {
            problem.lemma_distractors_differ();
        }
        let a_text = signed_decimal_string(problem.a as i64);
        let b_text = signed_decimal_string(problem.b as i64);

        let mut question_text = String::from_str("What is ");
        question_text.append(a_text.as_str());
        question_text.append(problem.sign_text());
        question_text.append(b_text.as_str());
        question_text.append("?");

        let mut parameters: Vec<(String, String)> = Vec::new();
        parameters.push((String::from_str("a"), a_text));
        parameters.push((String::from_str("b"), b_text));
        parameters.push((String::from_str("type"), String::from_str(problem.kind_text())));
        assert(named_texts(parameters@) =~= problem.parameters());

        let mut distractors: Vec<String> = Vec::new();
        distractors.push(signed_decimal_string((answer + problem.raise) as i64));
        distractors.push(signed_decimal_string((answer - problem.lower) as i64));
        distractors.push(signed_decimal_string(slip as i64));
        assert(texts(distractors@) =~= problem.distractor_texts());

        let mut question_id = String::from_str("math_");
        question_id.append(user_id);
        question_id.append("_");
        question_id.append(decimal_string(suffix as u64).as_str());

        DynamicQuestion::assemble(
            question_id,
            question_text,
            signed_decimal_string(answer as i64),
            distractors,
            parameters,
            difficulty,
            30,
            picks,
        )
    }

    /// Generates a fresh arithmetic question for `user_id`. The difficulty is
    /// recorded and has no influence on the problem that is drawn. The
    /// draw comes from the thread's generator and nothing is seeded from
    /// `user_id`: the same user gets other questions each time.
    pub fn generate_math_question(user_id: &str, difficulty: Ratio) -> (q: DynamicQuestion)
        ensures
            q@.is_generated_math(user_id@, difficulty),
            q.wf(),
            q@.options.len() == OPTION_COUNT,
    {
        let problem = MathProblem::draw();
        let picks = draw_picks(4);
        let suffix = random_u32();
        let q = DynamicQuestion::math_question(user_id, difficulty, &problem, &picks, suffix);
        assert(q@.is_math_question(user_id@, difficulty, problem, picks@, suffix));
        q
    }
}

} // verus!
