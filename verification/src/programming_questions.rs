//! Programming-knowledge questions: a Fibonacci number, a factorial, or an
//! entry of the table of the first ten primes.

use crate::question::{named_texts, DynamicQuestion, QuestionView, OPTION_COUNT};
use crate::random::{random_in_range, random_u32};
use crate::ratio::Ratio;
use crate::shuffle::{
    draw_picks, is_only_match, lemma_shuffle_is_permutation, lemma_shuffle_keeps_single, texts,
    valid_picks,
};
use crate::text::{decimal, decimal_string, lemma_decimal_injective};
use vstd::prelude::*;
use vstd::string::*;

verus! {

/// The Fibonacci sequence that starts 0, 1.
pub open spec fn fib(n: nat) -> nat
    decreases n,
{
    if n == 0 {
        0
    } else if n == 1 {
        1
    } else {
        fib((n - 2) as nat) + fib((n - 1) as nat)
    }
}

/// The product of the numbers from 1 to `n`.
pub open spec fn factorial(n: nat) -> nat
    decreases n,
{
    if n == 0 {
        1
    } else {
        n * factorial((n - 1) as nat)
    }
}

/// The first ten primes.
pub open spec fn first_primes() -> Seq<u32> {
    seq![2u32, 3u32, 5u32, 7u32, 11u32, 13u32, 17u32, 19u32, 23u32, 29u32]
}

/// The Fibonacci sequence never falls.
pub proof fn lemma_fib_monotonic(i: nat, j: nat)
    requires
        i <= j,
    ensures
        fib(i) <= fib(j),
    decreases j,
{
    if i < j {
        lemma_fib_monotonic(i, (j - 1) as nat);
        if j >= 2 {
            assert(fib(j) == fib((j - 2) as nat) + fib((j - 1) as nat));
        }
    }
}

/// The factorial never falls, and is never zero.
pub proof fn lemma_factorial_monotonic(i: nat, j: nat)
    requires
        i <= j,
    ensures
        1 <= factorial(i) <= factorial(j),
    decreases j,
{
    if j == 0 {
    } else if i < j {
        lemma_factorial_monotonic(i, (j - 1) as nat);
        assert(factorial((j - 1) as nat) <= j * factorial((j - 1) as nat)) by (nonlinear_arith)
            requires
                j >= 1,
        ;
    } else {
        lemma_factorial_monotonic((i - 1) as nat, (j - 1) as nat);
        assert(1 <= j * factorial((j - 1) as nat)) by (nonlinear_arith)
            requires
                j >= 1,
                factorial((j - 1) as nat) >= 1,
        ;
    }
}

/// The Fibonacci numbers from which questions are drawn.
pub proof fn lemma_fib_values()
    ensures
        fib(5) == 5,
        fib(6) == 8,
        fib(7) == 13,
        fib(8) == 21,
        fib(9) == 34,
        fib(10) == 55,
        fib(11) == 89,
        fib(12) == 144,
        fib(13) == 233,
        fib(14) == 377,
{
    assert(fib(0) == 0);
    assert(fib(1) == 1);
    assert(fib(2) == 1);
    assert(fib(3) == 2);
    assert(fib(4) == 3);
    assert(fib(5) == 5);
    assert(fib(6) == 8);
    assert(fib(7) == 13);
    assert(fib(8) == 21);
    assert(fib(9) == 34);
    assert(fib(10) == 55);
    assert(fib(11) == 89);
    assert(fib(12) == 144);
    assert(fib(13) == 233);
    assert(fib(14) == 377);
}

/// The factorials from which questions are drawn.
pub proof fn lemma_factorial_values()
    ensures
        factorial(4) == 24,
        factorial(5) == 120,
        factorial(6) == 720,
        factorial(7) == 5040,
{
    assert(factorial(0) == 1);
    assert(factorial(1) == 1);
    assert(factorial(2) == 2);
    assert(factorial(3) == 6);
    assert(factorial(4) == 24);
    assert(factorial(5) == 120);
    assert(factorial(6) == 720);
    assert(factorial(7) == 5040);
}

/// One drawn programming problem.
#[derive(Clone, Copy, Debug, PartialEq, Eq, Structural)]
pub enum ProgrammingProblem {
    /// The `n`th Fibonacci number.
    Fibonacci { n: u32 },
    /// The factorial of `n`.
    Factorial { n: u32 },
    /// The prime at position `index` of the table, counted from zero.
    Prime { index: u32 },
}

impl ProgrammingProblem {
    /// The parameter lies in the range from which problems of this kind are
    /// drawn.
    pub open spec fn in_range(self) -> bool {
        match self {
            ProgrammingProblem::Fibonacci { n } => 5 <= n < 15,
            ProgrammingProblem::Factorial { n } => 4 <= n < 8,
            ProgrammingProblem::Prime { index } => index < 10,
        }
    }

    /// The range, lower bound included and upper bound excluded, from which
    /// the parameter of a problem is drawn once its kind is drawn: kind 0 is a
    /// Fibonacci number, kind 1 a factorial, any other kind a prime.
    pub open spec fn parameter_bounds(kind: int) -> (int, int) {
        if kind == 0 {
            (5, 15)
        } else if kind == 1 {
            (4, 8)
        } else {
            (0, 10)
        }
    }

    /// The problem that a drawn kind and a drawn parameter make.
    pub open spec fn of_draw(kind: int, parameter: int) -> ProgrammingProblem {
        if kind == 0 {
            ProgrammingProblem::Fibonacci { n: parameter as u32 }
        } else if kind == 1 {
            ProgrammingProblem::Factorial { n: parameter as u32 }
        } else {
            ProgrammingProblem::Prime { index: parameter as u32 }
        }
    }

    /// The value asked for.
    pub open spec fn answer(self) -> nat {
        match self {
            ProgrammingProblem::Fibonacci { n } => fib(n as nat),
            ProgrammingProblem::Factorial { n } => factorial(n as nat),
            ProgrammingProblem::Prime { index } => first_primes()[index as int] as nat,
        }
    }

    /// The decimal forms of the three wrong values: one more, one less, and
    /// twice the answer.
    pub open spec fn distractor_texts(self) -> Seq<Seq<char>> {
        seq![
            decimal(self.answer() + 1),
            decimal((self.answer() - 1) as nat),
            decimal(self.answer() * 2),
        ]
    }

    /// The prompt.
    pub open spec fn prompt(self) -> Seq<char> {
        match self {
            ProgrammingProblem::Fibonacci { n } => "What is the "@ + decimal(n as nat)
                + "th number in the Fibonacci sequence? (Start: 0, 1)"@,
            ProgrammingProblem::Factorial { n } => "What is "@ + decimal(n as nat)
                + "! (factorial)?"@,
            ProgrammingProblem::Prime { index } => "What is the "@ + decimal((index + 1) as nat)
                + "th prime number?"@,
        }
    }

    /// The recorded generation parameters: the drawn number and the kind of
    /// problem.
    pub open spec fn parameters(self) -> Seq<(Seq<char>, Seq<char>)> {
        match self {
            ProgrammingProblem::Fibonacci { n } => seq![
                ("n"@, decimal(n as nat)),
                ("type"@, "fibonacci"@),
            ],
            ProgrammingProblem::Factorial { n } => seq![
                ("n"@, decimal(n as nat)),
                ("type"@, "factorial"@),
            ],
            ProgrammingProblem::Prime { index } => seq![
                ("prime_index"@, decimal(index as nat)),
                ("type"@, "prime"@),
            ],
        }
    }

    /// The identifier of a question on this problem for `user_id`.
    pub open spec fn question_id(user_id: Seq<char>, suffix: u32) -> Seq<char> {
        "prog_"@ + user_id + "_"@ + decimal(suffix as nat)
    }

    /// The time expected for a programming question, in seconds.
    pub open spec fn expected_time() -> u32 {
        45
    }

    /// The answer is at least 2 and at most 5040.
    pub proof fn lemma_answer_bounds(self)
        requires
            self.in_range(),
        ensures
            2 <= self.answer() <= 5040,
    {
        lemma_fib_values();
        lemma_factorial_values();
    }

    /// Draws a problem: one of the three kinds with equal chance, then its
    /// parameter from the range of that kind.
    pub fn draw() -> (p: ProgrammingProblem)
        ensures
            p.in_range(),
    {
        let kind = random_in_range(0, 3);
        let (low, high) = ProgrammingProblem::parameter_range(kind);
        let parameter = random_in_range(low, high);
        ProgrammingProblem::from_draw(kind, parameter)
    }

    /// The range from which the parameter of a problem of the given kind is
    /// drawn.
    pub fn parameter_range(kind: i32) -> (bounds: (i32, i32))
        ensures
            bounds.0 == ProgrammingProblem::parameter_bounds(kind as int).0,
            bounds.1 == ProgrammingProblem::parameter_bounds(kind as int).1,
            bounds.0 < bounds.1,
    {
        if kind == 0 {
            (5, 15)
        } else if kind == 1 {
            (4, 8)
        } else {
            (0, 10)
        }
    }

    /// The problem that a drawn kind and a parameter drawn from the range of
    /// that kind make.
    pub fn from_draw(kind: i32, parameter: i32) -> (p: ProgrammingProblem)
        requires
            ProgrammingProblem::parameter_bounds(kind as int).0 <= parameter
                < ProgrammingProblem::parameter_bounds(kind as int).1,
        ensures
            p == ProgrammingProblem::of_draw(kind as int, parameter as int),
            p.in_range(),
    {
        if kind == 0 {
            ProgrammingProblem::Fibonacci { n: parameter as u32 }
        } else if kind == 1 {
            ProgrammingProblem::Factorial { n: parameter as u32 }
        } else {
            ProgrammingProblem::Prime { index: parameter as u32 }
        }
    }

    /// Computes the value asked for.
    pub fn compute_answer(&self) -> (r: u32)
        requires
            self.in_range(),
        ensures
            r == self.answer(),
    {
        proof {
            lemma_fib_values();
            lemma_factorial_values();
        }
        match self {
            ProgrammingProblem::Fibonacci { n } => DynamicQuestion::fibonacci(*n),
            ProgrammingProblem::Factorial { n } => DynamicQuestion::factorial(*n),
            ProgrammingProblem::Prime { index } => nth_prime(*index),
        }
    }
}

/// The prime at position `index` of the table of the first ten.
pub fn nth_prime(index: u32) -> (r: u32)
    requires
        index < 10,
    ensures
        r == first_primes()[index as int],
{
    let primes: [u32; 10] = [2, 3, 5, 7, 11, 13, 17, 19, 23, 29];
    primes[index as usize]
}

impl QuestionView {
    /// The question is the programming question on `problem` for `user_id`,
    /// with its options shuffled by `picks` and its identifier ending in
    /// `suffix`.
    pub open spec fn is_programming_question(
        self,
        user_id: Seq<char>,
        difficulty: Ratio,
        problem: ProgrammingProblem,
        picks: Seq<usize>,
        suffix: u32,
    ) -> bool {
        self.is_assembled(
            ProgrammingProblem::question_id(user_id, suffix),
            problem.prompt(),
            decimal(problem.answer()),
            problem.distractor_texts(),
            problem.parameters(),
            difficulty,
            ProgrammingProblem::expected_time(),
            picks,
        )
    }

    /// The question is a programming question for `user_id` on some problem
    /// within the ranges, shuffled in some way.
    pub open spec fn is_generated_programming(
        self,
        user_id: Seq<char>,
        difficulty: Ratio,
    ) -> bool {
        exists|problem: ProgrammingProblem, picks: Seq<usize>, suffix: u32|
            problem.in_range() && valid_picks(picks, OPTION_COUNT as nat)
                && #[trigger] self.is_programming_question(
                user_id,
                difficulty,
                problem,
                picks,
                suffix,
            )
    }
}

/// Exactly one of the four options of a programming question is the decimal
/// form of the value asked for, and it is the one that the correct-option
/// index names.
pub proof fn lemma_programming_one_correct_option(
    q: QuestionView,
    user_id: Seq<char>,
    difficulty: Ratio,
    problem: ProgrammingProblem,
    picks: Seq<usize>,
    suffix: u32,
)
    requires
        problem.in_range(),
        valid_picks(picks, OPTION_COUNT as nat),
        q.is_programming_question(user_id, difficulty, problem, picks, suffix),
    ensures
        q.options.len() == OPTION_COUNT,
        forall|k: int|
            0 <= k < q.options.len() ==> (q.options[k] == decimal(problem.answer()) <==> k
                == q.correct_answer),
{
    let answer = problem.answer();
    let correct = decimal(answer);
    let unshuffled = seq![correct] + problem.distractor_texts();
    problem.lemma_answer_bounds();
    assert(is_only_match(unshuffled, correct, 0)) by {
        assert forall|k: int| 0 <= k < unshuffled.len() && unshuffled[k] == correct implies k
            == 0 by {
            if k == 1 {
                lemma_decimal_injective(answer + 1, answer);
            } else if k == 2 {
                lemma_decimal_injective((answer - 1) as nat, answer);
            } else if k == 3 {
                lemma_decimal_injective(answer * 2, answer);
            }
        }
    }
    lemma_shuffle_keeps_single(unshuffled, picks, unshuffled.len(), correct);
    lemma_shuffle_is_permutation(unshuffled, picks, unshuffled.len());
    let m = choose|m: int| is_only_match(q.options, correct, m);
    assert(m == q.correct_answer);
}

impl DynamicQuestion {
    /// The programming question on `problem` for `user_id`, with its options
    /// shuffled by `picks` and its identifier ending in `suffix`.
    pub fn programming_question(
        user_id: &str,
        difficulty: Ratio,
        problem: &ProgrammingProblem,
        picks: &Vec<usize>,
        suffix: u32,
    ) -> (q: DynamicQuestion)
        requires
            problem.in_range(),
            valid_picks(picks@, OPTION_COUNT as nat),
        ensures
            q@.is_programming_question(user_id@, difficulty, *problem, picks@, suffix),
            q.wf(),
            q@.options.len() == OPTION_COUNT,
            q@.options[q.correct_answer as int] == decimal(problem.answer()),
    {
        let answer = problem.compute_answer();
        proof {
            problem.lemma_answer_bounds();
        }
        let mut question_text: String;
        let mut parameters: Vec<(String, String)> = Vec::new();
        match problem {
            ProgrammingProblem::Fibonacci { n } => {
                let n_text = decimal_string(*n as u64);
                question_text = String::from_str("What is the ");
                question_text.append(n_text.as_str());
                question_text.append("th number in the Fibonacci sequence? (Start: 0, 1)");
                parameters.push((String::from_str("n"), n_text));
                parameters.push((String::from_str("type"), String::from_str("fibonacci")));
            },
            ProgrammingProblem::Factorial { n } => {
                let n_text = decimal_string(*n as u64);
                question_text = String::from_str("What is ");
                question_text.append(n_text.as_str());
                question_text.append("! (factorial)?");
                parameters.push((String::from_str("n"), n_text));
                parameters.push((String::from_str("type"), String::from_str("factorial")));
            },
            ProgrammingProblem::Prime { index } => {
                question_text = String::from_str("What is the ");
                question_text.append(decimal_string((*index + 1) as u64).as_str());
                question_text.append("th prime number?");
                parameters.push(
                    (String::from_str("prime_index"), decimal_string(*index as u64)),
                );
                parameters.push((String::from_str("type"), String::from_str("prime")));
            },
        }
        assert(named_texts(parameters@) =~= problem.parameters());

        let mut distractors: Vec<String> = Vec::new();
        distractors.push(decimal_string((answer + 1) as u64));
        distractors.push(decimal_string((answer - 1) as u64));
        distractors.push(decimal_string((answer * 2) as u64));
        assert(texts(distractors@) =~= problem.distractor_texts());

        let mut question_id = String::from_str("prog_");
        question_id.append(user_id);
        question_id.append("_");
        question_id.append(decimal_string(suffix as u64).as_str());

        DynamicQuestion::assemble(
            question_id,
            question_text,
            decimal_string(answer as u64),
            distractors,
            parameters,
            difficulty,
            45,
            picks,
        )
    }

    /// Generates a fresh programming question for `user_id`. The difficulty is
    /// recorded and has no influence on the problem that is drawn. The
    /// draw comes from the thread's generator and nothing is seeded from
    /// `user_id`: the same user gets other questions each time.
    pub fn generate_programming_question(user_id: &str, difficulty: Ratio) -> (q:
        DynamicQuestion)
        ensures
            q@.is_generated_programming(user_id@, difficulty),
            q.wf(),
            q@.options.len() == OPTION_COUNT,
    {
        let problem = ProgrammingProblem::draw();
        let picks = draw_picks(4);
        let suffix = random_u32();
        let q = DynamicQuestion::programming_question(
            user_id,
            difficulty,
            &problem,
            &picks,
            suffix,
        );
        assert(q@.is_programming_question(user_id@, difficulty, problem, picks@, suffix));
        q
    }

    /// The `n`th Fibonacci number, for an `n` whose Fibonacci number fits in 32
    /// bits.
    pub fn fibonacci(n: u32) -> (r: u32)
        requires
            fib(n as nat) <= u32::MAX,
        ensures
            r == fib(n as nat),
    {
        if n == 0 {
            return 0;
        }
        if n == 1 {
            return 1;
        }
        let mut a: u32 = 0;
        let mut b: u32 = 1;
        let mut i: u32 = 1;
        while i < n
            invariant
                1 <= i <= n,
                a == fib((i - 1) as nat),
                b == fib(i as nat),
                fib(n as nat) <= u32::MAX,
            decreases n - i,
        {
            proof {
                lemma_fib_monotonic((i + 1) as nat, n as nat);
            }
            let next = a + b;
            a = b;
            b = next;
            i = i + 1;
        }
        b
    }

    /// The factorial of `n`, for an `n` whose factorial fits in 32 bits.
    pub fn factorial(n: u32) -> (r: u32)
        requires
            factorial(n as nat) <= u32::MAX,
        ensures
            r == factorial(n as nat),
    {
        let mut product: u32 = 1;
        let mut i: u32 = 0;
        while i < n
            invariant
                i <= n,
                product == factorial(i as nat),
                factorial(n as nat) <= u32::MAX,
            decreases n - i,
        {
            proof {
                lemma_factorial_monotonic((i + 1) as nat, n as nat);
                assert(factorial((i + 1) as nat) == (i + 1) * factorial(i as nat));
            }
            i = i + 1;
            product = product * i;
        }
        product
    }
}

} // verus!
