use quiz_engine::canned_questions::CannedTopic;
use quiz_engine::math_questions::{MathOperation, MathProblem};
use quiz_engine::programming_questions::{nth_prime, ProgrammingProblem};
use quiz_engine::{DynamicQuestion, Ratio};

fn parameter<'a>(question: &'a DynamicQuestion, name: &str) -> Option<&'a str> {
    question.parameters.iter().find(|(key, _)| key == name).map(|(_, value)| value.as_str())
}

fn occurrences(question: &DynamicQuestion, text: &str) -> usize {
    question.options.iter().filter(|option| option.as_str() == text).count()
}

fn half() -> Ratio {
    Ratio { num: 5, den: 10 }
}

#[test]
fn addition_question_is_built_exactly() {
    let problem =
        MathProblem { operation: MathOperation::Addition, a: 15, b: 27, raise: 7, lower: 9 };
    let q = DynamicQuestion::math_question("ann", half(), &problem, &vec![0, 1, 2, 3], 77);
    assert_eq!(q.question_id, "math_ann_77");
    assert_eq!(q.question_text, "What is 15 + 27?");
    assert_eq!(q.options, vec!["42", "49", "33", "43"]);
    assert_eq!(q.correct_answer, 0);
    assert_eq!(
        q.parameters,
        vec![
            ("a".to_string(), "15".to_string()),
            ("b".to_string(), "27".to_string()),
            ("type".to_string(), "addition".to_string()),
        ]
    );
    assert_eq!(q.difficulty, half());
    assert_eq!(q.expected_time, 30);
}

#[test]
fn subtraction_question_is_built_exactly() {
    let problem =
        MathProblem { operation: MathOperation::Subtraction, a: 120, b: 20, raise: 5, lower: 14 };
    let q = DynamicQuestion::math_question("bob", half(), &problem, &vec![3, 1, 2, 3], 0);
    assert_eq!(q.question_id, "math_bob_0");
    assert_eq!(q.question_text, "What is 120 - 20?");
    // before the shuffle: 100, 105, 86, 140; the first and the last change places
    assert_eq!(q.options, vec!["140", "105", "86", "100"]);
    assert_eq!(q.correct_answer, 3);
    assert_eq!(parameter(&q, "type"), Some("subtraction"));
}

#[test]
fn multiplication_question_is_built_exactly() {
    let problem =
        MathProblem { operation: MathOperation::Multiplication, a: 8, b: 7, raise: 5, lower: 6 };
    let q = DynamicQuestion::math_question("eve", half(), &problem, &vec![1, 1, 2, 3], 4294967295);
    assert_eq!(q.question_id, "math_eve_4294967295");
    assert_eq!(q.question_text, "What is 8 \u{d7} 7?");
    // before the shuffle: 56, 61, 50, 63
    assert_eq!(q.options, vec!["61", "56", "50", "63"]);
    assert_eq!(q.correct_answer, 1);
    assert_eq!(parameter(&q, "type"), Some("multiplication"));
}

#[test]
fn division_question_is_built_exactly() {
    let problem =
        MathProblem { operation: MathOperation::Division, a: 144, b: 12, raise: 1, lower: 1 };
    let q = DynamicQuestion::math_question("dan", half(), &problem, &vec![0, 1, 2, 3], 5);
    assert_eq!(q.question_text, "What is 144 \u{f7} 12?");
    // 144 / 13 = 11
    assert_eq!(q.options, vec!["12", "13", "11", "11"]);
    assert_eq!(q.correct_answer, 0);
    assert_eq!(parameter(&q, "a"), Some("144"));
    assert_eq!(parameter(&q, "b"), Some("12"));
    assert_eq!(parameter(&q, "type"), Some("division"));
}

#[test]
fn division_slip_is_at_least_one() {
    let problem =
        MathProblem { operation: MathOperation::Division, a: 4, b: 2, raise: 1, lower: 1 };
    assert_eq!(problem.compute_answer(), 2);
    assert_eq!(problem.compute_slip(), 1);
    let problem =
        MathProblem { operation: MathOperation::Division, a: 209, b: 11, raise: 1, lower: 1 };
    assert_eq!(problem.compute_answer(), 19);
    assert_eq!(problem.compute_slip(), 17);
}

#[test]
fn distractors_may_repeat_each_other() {
    // 120 - 5 = 115; 115 + 10 and 120 + 5 are both 125
    let problem =
        MathProblem { operation: MathOperation::Subtraction, a: 120, b: 5, raise: 10, lower: 5 };
    let q = DynamicQuestion::math_question("u", half(), &problem, &vec![0, 1, 2, 3], 1);
    assert_eq!(q.options, vec!["115", "125", "110", "125"]);
    assert_eq!(occurrences(&q, "115"), 1);
}

#[test]
fn negative_distractors_are_rendered_with_a_minus() {
    let problem =
        MathProblem { operation: MathOperation::Addition, a: 1, b: 1, raise: 5, lower: 14 };
    let q = DynamicQuestion::math_question("u", half(), &problem, &vec![0, 1, 2, 3], 1);
    assert_eq!(q.options, vec!["2", "7", "-12", "3"]);
}

#[test]
fn drawn_kind_and_numbers_make_the_math_problem() {
    assert_eq!(
        MathProblem::from_draw(0, 15, 27, 7, 9),
        MathProblem { operation: MathOperation::Addition, a: 15, b: 27, raise: 7, lower: 9 }
    );
    assert_eq!(
        MathProblem::from_draw(1, 120, 20, 5, 14),
        MathProblem { operation: MathOperation::Subtraction, a: 120, b: 20, raise: 5, lower: 14 }
    );
    assert_eq!(
        MathProblem::from_draw(2, 8, 7, 5, 6),
        MathProblem { operation: MathOperation::Multiplication, a: 8, b: 7, raise: 5, lower: 6 }
    );
    // a division is drawn as divisor and quotient
    assert_eq!(
        MathProblem::from_draw(3, 12, 5, 1, 1),
        MathProblem { operation: MathOperation::Division, a: 60, b: 12, raise: 1, lower: 1 }
    );
    assert_eq!(
        MathProblem::from_draw(3, 11, 19, 9, 9),
        MathProblem { operation: MathOperation::Division, a: 209, b: 11, raise: 1, lower: 1 }
    );
}

#[test]
fn drawn_math_problems_lie_in_their_ranges() {
    let mut seen = [false; 4];
    for _ in 0..2000 {
        let p = MathProblem::draw();
        match p.operation {
            MathOperation::Addition => {
                seen[0] = true;
                assert!((1..100).contains(&p.a) && (1..100).contains(&p.b));
                assert!((5..15).contains(&p.raise) && (5..15).contains(&p.lower));
            }
            MathOperation::Subtraction => {
                seen[1] = true;
                assert!((50..200).contains(&p.a) && (1..p.a).contains(&p.b));
                assert!((5..15).contains(&p.raise) && (5..15).contains(&p.lower));
                assert!(p.compute_answer() >= 1);
            }
            MathOperation::Multiplication => {
                seen[2] = true;
                assert!((2..20).contains(&p.a) && (2..12).contains(&p.b));
                assert!((5..15).contains(&p.raise) && (5..15).contains(&p.lower));
            }
            MathOperation::Division => {
                seen[3] = true;
                assert!((2..12).contains(&p.b));
                assert_eq!(p.a % p.b, 0);
                assert!((2..20).contains(&(p.a / p.b)));
                assert_eq!((p.raise, p.lower), (1, 1));
            }
        }
    }
    assert_eq!(seen, [true; 4]);
}

#[test]
fn generated_math_question_has_exactly_one_true_option() {
    for _ in 0..500 {
        let q = DynamicQuestion::generate_math_question("zoe", half());
        assert_eq!(q.options.len(), 4);
        let a: i64 = parameter(&q, "a").unwrap().parse().unwrap();
        let b: i64 = parameter(&q, "b").unwrap().parse().unwrap();
        let (truth, sign) = match parameter(&q, "type").unwrap() {
            "addition" => (a + b, "+"),
            "subtraction" => (a - b, "-"),
            "multiplication" => (a * b, "\u{d7}"),
            "division" => {
                assert_eq!(a % b, 0);
                (a / b, "\u{f7}")
            }
            other => panic!("unknown operation {}", other),
        };
        assert_eq!(q.question_text, format!("What is {} {} {}?", a, sign, b));
        assert_eq!(occurrences(&q, &truth.to_string()), 1);
        assert_eq!(q.options[q.correct_answer as usize], truth.to_string());
        assert!(q.question_id.starts_with("math_zoe_"));
        assert!(q.question_id["math_zoe_".len()..].parse::<u32>().is_ok());
        assert_eq!(q.expected_time, 30);
        assert_eq!(q.difficulty, half());
    }
}

#[test]
fn fibonacci_and_factorial_values() {
    let fib: Vec<u32> = (0..15).map(DynamicQuestion::fibonacci).collect();
    assert_eq!(fib, vec![0, 1, 1, 2, 3, 5, 8, 13, 21, 34, 55, 89, 144, 233, 377]);
    assert_eq!(DynamicQuestion::fibonacci(47), 2971215073);
    let fact: Vec<u32> = (0..8).map(DynamicQuestion::factorial).collect();
    assert_eq!(fact, vec![1, 1, 2, 6, 24, 120, 720, 5040]);
    assert_eq!(DynamicQuestion::factorial(12), 479001600);
}

#[test]
fn prime_table_holds_the_first_ten_primes() {
    let primes: Vec<u32> = (0..10).map(nth_prime).collect();
    assert_eq!(primes, vec![2, 3, 5, 7, 11, 13, 17, 19, 23, 29]);
}

#[test]
fn drawn_kind_and_parameter_make_the_problem() {
    assert_eq!(ProgrammingProblem::parameter_range(0), (5, 15));
    assert_eq!(ProgrammingProblem::parameter_range(1), (4, 8));
    assert_eq!(ProgrammingProblem::parameter_range(2), (0, 10));
    assert_eq!(ProgrammingProblem::from_draw(0, 5), ProgrammingProblem::Fibonacci { n: 5 });
    assert_eq!(ProgrammingProblem::from_draw(0, 14), ProgrammingProblem::Fibonacci { n: 14 });
    assert_eq!(ProgrammingProblem::from_draw(1, 4), ProgrammingProblem::Factorial { n: 4 });
    assert_eq!(ProgrammingProblem::from_draw(1, 7), ProgrammingProblem::Factorial { n: 7 });
    assert_eq!(ProgrammingProblem::from_draw(2, 0), ProgrammingProblem::Prime { index: 0 });
    assert_eq!(ProgrammingProblem::from_draw(2, 9), ProgrammingProblem::Prime { index: 9 });
}

#[test]
fn drawn_programming_problems_lie_in_their_ranges() {
    let mut seen = [false; 3];
    for _ in 0..2000 {
        match ProgrammingProblem::draw() {
            ProgrammingProblem::Fibonacci { n } => {
                seen[0] = true;
                assert!((5..15).contains(&n));
            }
            ProgrammingProblem::Factorial { n } => {
                seen[1] = true;
                assert!((4..8).contains(&n));
            }
            ProgrammingProblem::Prime { index } => {
                seen[2] = true;
                assert!(index < 10);
            }
        }
    }
    assert_eq!(seen, [true; 3]);
}

#[test]
fn fibonacci_question_is_built_exactly() {
    let problem = ProgrammingProblem::Fibonacci { n: 10 };
    let q = DynamicQuestion::programming_question("ann", half(), &problem, &vec![2, 1, 2, 3], 9);
    assert_eq!(q.question_id, "prog_ann_9");
    assert_eq!(
        q.question_text,
        "What is the 10th number in the Fibonacci sequence? (Start: 0, 1)"
    );
    // before the shuffle: 55, 56, 54, 110
    assert_eq!(q.options, vec!["54", "56", "55", "110"]);
    assert_eq!(q.correct_answer, 2);
    assert_eq!(
        q.parameters,
        vec![
            ("n".to_string(), "10".to_string()),
            ("type".to_string(), "fibonacci".to_string()),
        ]
    );
    assert_eq!(q.expected_time, 45);
}

#[test]
fn factorial_question_is_built_exactly() {
    let problem = ProgrammingProblem::Factorial { n: 5 };
    let q = DynamicQuestion::programming_question("ann", half(), &problem, &vec![0, 1, 2, 3], 9);
    assert_eq!(q.question_text, "What is 5! (factorial)?");
    assert_eq!(q.options, vec!["120", "121", "119", "240"]);
    assert_eq!(q.correct_answer, 0);
    assert_eq!(parameter(&q, "n"), Some("5"));
    assert_eq!(parameter(&q, "type"), Some("factorial"));
}

#[test]
fn prime_question_counts_positions_from_one() {
    let problem = ProgrammingProblem::Prime { index: 0 };
    let q = DynamicQuestion::programming_question("ann", half(), &problem, &vec![0, 1, 2, 3], 9);
    assert_eq!(q.question_text, "What is the 1th prime number?");
    assert_eq!(q.options, vec!["2", "3", "1", "4"]);
    assert_eq!(parameter(&q, "prime_index"), Some("0"));
    assert_eq!(parameter(&q, "type"), Some("prime"));

    let problem = ProgrammingProblem::Prime { index: 9 };
    let q = DynamicQuestion::programming_question("ann", half(), &problem, &vec![0, 1, 2, 3], 9);
    assert_eq!(q.question_text, "What is the 10th prime number?");
    assert_eq!(q.options, vec!["29", "30", "28", "58"]);
}

#[test]
fn generated_programming_question_has_exactly_one_true_option() {
    let mut kinds = std::collections::BTreeSet::new();
    for _ in 0..500 {
        let q = DynamicQuestion::generate_programming_question("zoe", half());
        assert_eq!(q.options.len(), 4);
        let kind = parameter(&q, "type").unwrap().to_string();
        let truth: u32 = match kind.as_str() {
            "fibonacci" => {
                let n: u32 = parameter(&q, "n").unwrap().parse().unwrap();
                assert!((5..15).contains(&n));
                DynamicQuestion::fibonacci(n)
            }
            "factorial" => {
                let n: u32 = parameter(&q, "n").unwrap().parse().unwrap();
                assert!((4..8).contains(&n));
                DynamicQuestion::factorial(n)
            }
            "prime" => {
                let index: u32 = parameter(&q, "prime_index").unwrap().parse().unwrap();
                assert!(index < 10);
                nth_prime(index)
            }
            other => panic!("unknown kind {}", other),
        };
        kinds.insert(kind);
        assert_eq!(occurrences(&q, &truth.to_string()), 1);
        assert_eq!(q.options[q.correct_answer as usize], truth.to_string());
        let mut expected = vec![
            truth.to_string(),
            (truth + 1).to_string(),
            (truth - 1).to_string(),
            (truth * 2).to_string(),
        ];
        let mut shown = q.options.clone();
        expected.sort();
        shown.sort();
        assert_eq!(shown, expected);
        assert!(q.question_id.starts_with("prog_zoe_"));
        assert_eq!(q.expected_time, 45);
    }
    assert_eq!(kinds.len(), 3);
}

#[test]
fn blockchain_question_is_built_exactly() {
    let q = DynamicQuestion::canned_question(
        CannedTopic::Blockchain,
        "ann",
        half(),
        1,
        &vec![2, 1, 2, 3],
        12,
    );
    assert_eq!(q.question_id, "bc_ann_12");
    assert_eq!(q.question_text, "Which consensus mechanism does Ethereum currently use?");
    assert_eq!(
        q.options,
        vec![
            "Cryptocurrency wallet",
            "Legal document on blockchain",
            "Self-executing contract with code",
            "Network node",
        ]
    );
    assert_eq!(q.correct_answer, 2);
    assert!(q.parameters.is_empty());
    assert_eq!(q.expected_time, 40);
}

#[test]
fn security_question_is_built_exactly() {
    let q = DynamicQuestion::canned_question(
        CannedTopic::Security,
        "ann",
        half(),
        4,
        &vec![0, 1, 2, 3],
        12,
    );
    assert_eq!(q.question_id, "sec_ann_12");
    assert_eq!(q.question_text, "What is social engineering?");
    assert_eq!(
        q.options,
        vec![
            "Protect data confidentiality",
            "Increase data size",
            "Speed up data transfer",
            "Make data public",
        ]
    );
    assert_eq!(q.correct_answer, 0);
    assert!(q.parameters.is_empty());
    assert_eq!(q.expected_time, 35);
}

#[test]
fn every_prompt_of_both_pools_can_be_asked() {
    let blockchain = [
        "What is the main purpose of a smart contract?",
        "Which consensus mechanism does Ethereum currently use?",
        "What does 'gas' represent in Ethereum?",
        "What is a blockchain fork?",
        "What is the role of miners/validators?",
    ];
    let security = [
        "What is the primary goal of encryption?",
        "What does 2FA help protect against?",
        "What is a common phishing attack method?",
        "Why should passwords be hashed?",
        "What is social engineering?",
    ];
    for i in 0..5 {
        let picks = vec![0, 1, 2, 3];
        let q = DynamicQuestion::canned_question(CannedTopic::Blockchain, "u", half(), i, &picks, 0);
        assert_eq!(q.question_text, blockchain[i]);
        let q = DynamicQuestion::canned_question(CannedTopic::Security, "u", half(), i, &picks, 0);
        assert_eq!(q.question_text, security[i]);
    }
}

#[test]
fn generated_canned_questions_read_back_the_correct_statement() {
    for _ in 0..200 {
        let q = DynamicQuestion::generate_blockchain_question("zoe", half());
        assert_eq!(q.options.len(), 4);
        assert_eq!(q.options[q.correct_answer as usize], "Self-executing contract with code");
        assert!(q.question_id.starts_with("bc_zoe_"));
        let q = DynamicQuestion::generate_security_question("zoe", half());
        assert_eq!(q.options.len(), 4);
        assert_eq!(q.options[q.correct_answer as usize], "Protect data confidentiality");
        assert!(q.question_id.starts_with("sec_zoe_"));
    }
}

#[test]
fn assemble_records_the_first_position_of_the_correct_answer() {
    let q = DynamicQuestion::assemble(
        "id".to_string(),
        "text".to_string(),
        "yes".to_string(),
        vec!["no".to_string(), "yes".to_string(), "maybe".to_string()],
        Vec::new(),
        half(),
        10,
        &vec![3, 1, 2, 3],
    );
    // before the shuffle: yes no yes maybe; after: maybe no yes yes
    assert_eq!(q.options, vec!["maybe", "no", "yes", "yes"]);
    assert_eq!(q.correct_answer, 2);
}

#[test]
fn display_leaves_out_the_correct_option() {
    let problem =
        MathProblem { operation: MathOperation::Addition, a: 15, b: 27, raise: 7, lower: 9 };
    let q = DynamicQuestion::math_question("ann", half(), &problem, &vec![1, 1, 2, 3], 77);
    let shown = q.display();
    assert_eq!(shown.question_id, q.question_id);
    assert_eq!(shown.question_text, q.question_text);
    assert_eq!(shown.options, q.options);
    assert_eq!(shown.difficulty, q.difficulty);
    assert_eq!(shown.expected_time, q.expected_time);
}

#[test]
fn clone_copies_every_field() {
    let problem =
        MathProblem { operation: MathOperation::Division, a: 144, b: 12, raise: 1, lower: 1 };
    let q = DynamicQuestion::math_question("ann", half(), &problem, &vec![2, 3, 2, 3], 77);
    let copy = q.clone();
    assert_eq!(copy.question_id, q.question_id);
    assert_eq!(copy.question_text, q.question_text);
    assert_eq!(copy.options, q.options);
    assert_eq!(copy.correct_answer, q.correct_answer);
    assert_eq!(copy.parameters, q.parameters);
    assert_eq!(copy.difficulty, q.difficulty);
    assert_eq!(copy.expected_time, q.expected_time);
}
