//! The fixed configuration of each quiz topic: its passing score and its
//! canonical question set.

use crate::ratio::Ratio;
use crate::shuffle::texts;
use vstd::prelude::*;
use vstd::string::*;

verus! {

/// One question of a canonical set. Its first option is the correct one.
#[derive(Debug)]
pub struct Question {
    pub id: u32,
    pub question: String,
    pub options: Vec<String>,
    pub correct_answer: u8,
}

/// The configuration of one topic.
#[derive(Debug)]
pub struct QuizConfig {
    pub quiz_type: String,
    pub questions: Vec<Question>,
    /// The share of correct answers from which the quiz counts as passed.
    pub passing_score: Ratio,
}

/// What a canonical question holds, as plain mathematical values.
pub struct FixedQuestionView {
    pub id: u32,
    pub question: Seq<char>,
    pub options: Seq<Seq<char>>,
    pub correct_answer: u8,
}

/// What a topic's configuration holds, as plain mathematical values.
pub struct QuizConfigView {
    pub quiz_type: Seq<char>,
    pub questions: Seq<FixedQuestionView>,
    pub passing_score: Ratio,
}

impl View for Question {
    type V = FixedQuestionView;

    open spec fn view(&self) -> FixedQuestionView {
        FixedQuestionView {
            id: self.id,
            question: self.question@,
            options: texts(self.options@),
            correct_answer: self.correct_answer,
        }
    }
}

/// What a list of canonical questions holds.
pub open spec fn fixed_question_views(questions: Seq<Question>) -> Seq<FixedQuestionView> {
    questions.map_values(|q: Question| q@)
}

impl View for QuizConfig {
    type V = QuizConfigView;

    open spec fn view(&self) -> QuizConfigView {
        QuizConfigView {
            quiz_type: self.quiz_type@,
            questions: fixed_question_views(self.questions@),
            passing_score: self.passing_score,
        }
    }
}

/// The canonical question `id` with the given prompt and three options, the
/// first of which is correct.
pub open spec fn fixed_question(
    id: u32,
    question: Seq<char>,
    first: Seq<char>,
    second: Seq<char>,
    third: Seq<char>,
) -> FixedQuestionView {
    FixedQuestionView { id, question, options: seq![first, second, third], correct_answer: 0 }
}

/// The programming topic: passed from 0.6.
pub open spec fn programming_config() -> QuizConfigView {
    QuizConfigView {
        quiz_type: "programming"@,
        questions: seq![
            fixed_question(
                1,
                "What does FHE stand for?"@,
                "Fully Homomorphic Encryption"@,
                "Federated Hardware Encryption"@,
                "Fast Hash Encryption"@,
            ),
            fixed_question(
                2,
                "Which language is best for FHE?"@,
                "Rust"@,
                "Python"@,
                "JavaScript"@,
            ),
            fixed_question(
                3,
                "What is Zero-Knowledge Proof?"@,
                "Proving something without revealing details"@,
                "A type of encryption"@,
                "A blockchain consensus"@,
            ),
        ],
        passing_score: Ratio { num: 6, den: 10 },
    }
}

/// The arithmetic topic: passed from 0.7.
pub open spec fn math_config() -> QuizConfigView {
    QuizConfigView {
        quiz_type: "math"@,
        questions: seq![
            fixed_question(1, "What is 15 + 27?"@, "42"@, "32"@, "52"@),
            fixed_question(2, "Solve: 8 \u{d7} 7"@, "56"@, "54"@, "64"@),
            fixed_question(3, "What is 144 \u{f7} 12?"@, "12"@, "11"@, "13"@),
        ],
        passing_score: Ratio { num: 7, den: 10 },
    }
}

/// The blockchain topic: passed from 0.6.
pub open spec fn blockchain_config() -> QuizConfigView {
    QuizConfigView {
        quiz_type: "blockchain"@,
        questions: seq![
            fixed_question(
                1,
                "What is a smart contract?"@,
                "Self-executing contract with code"@,
                "Legal document on blockchain"@,
                "Cryptocurrency wallet"@,
            ),
            fixed_question(
                2,
                "Which consensus mechanism does Ethereum use?"@,
                "Proof of Stake"@,
                "Proof of Work"@,
                "Delegated Proof of Stake"@,
            ),
            fixed_question(
                3,
                "What is gas fee in Ethereum?"@,
                "Transaction execution cost"@,
                "Mining reward"@,
                "Network subscription"@,
            ),
        ],
        passing_score: Ratio { num: 6, den: 10 },
    }
}

/// The security topic: passed from 0.8.
pub open spec fn security_config() -> QuizConfigView {
    QuizConfigView {
        quiz_type: "security"@,
        questions: seq![
            fixed_question(
                1,
                "What is phishing?"@,
                "Fraudulent attempt to obtain sensitive information"@,
                "Type of encryption"@,
                "Blockchain attack"@,
            ),
            fixed_question(
                2,
                "What is 2FA?"@,
                "Two-Factor Authentication"@,
                "Two-File Archive"@,
                "Two-Function Algorithm"@,
            ),
            fixed_question(
                3,
                "What's a common password best practice?"@,
                "Use long, complex passwords"@,
                "Use same password everywhere"@,
                "Use personal information"@,
            ),
        ],
        passing_score: Ratio { num: 8, den: 10 },
    }
}

impl Question {
    /// The canonical question `id` with the given prompt and three options, the
    /// first of which is correct.
    pub fn fixed(id: u32, question: &str, first: &str, second: &str, third: &str) -> (q: Question)
        ensures
            q@ == fixed_question(id, question@, first@, second@, third@),
    {
        let mut options: Vec<String> = Vec::new();
        options.push(String::from_str(first));
        options.push(String::from_str(second));
        options.push(String::from_str(third));
        assert(texts(options@) =~= seq![first@, second@, third@]);
        Question { id, question: String::from_str(question), options, correct_answer: 0 }
    }
}

impl QuizConfig {
    /// The configuration named `quiz_type` with the three given questions.
    fn of_three(
        quiz_type: &str,
        passing_score: Ratio,
        first: Question,
        second: Question,
        third: Question,
    ) -> (config: QuizConfig)
        ensures
            config@ == (QuizConfigView {
                quiz_type: quiz_type@,
                questions: seq![first@, second@, third@],
                passing_score,
            }),
    {
        let mut questions: Vec<Question> = Vec::new();
        questions.push(first);
        questions.push(second);
        questions.push(third);
        assert(fixed_question_views(questions@) =~= seq![first@, second@, third@]);
        QuizConfig { quiz_type: String::from_str(quiz_type), questions, passing_score }
    }

    /// The configuration of the programming topic.
    pub fn programming_quiz() -> (config: QuizConfig)
        ensures
            config@ == programming_config(),
    {
        QuizConfig::of_three(
            "programming",
            Ratio { num: 6, den: 10 },
            Question::fixed(
                1,
                "What does FHE stand for?",
                "Fully Homomorphic Encryption",
                "Federated Hardware Encryption",
                "Fast Hash Encryption",
            ),
            Question::fixed(2, "Which language is best for FHE?", "Rust", "Python", "JavaScript"),
            Question::fixed(
                3,
                "What is Zero-Knowledge Proof?",
                "Proving something without revealing details",
                "A type of encryption",
                "A blockchain consensus",
            ),
        )
    }

    /// The configuration of the arithmetic topic.
    pub fn math_quiz() -> (config: QuizConfig)
        ensures
            config@ == math_config(),
    {
        QuizConfig::of_three(
            "math",
            Ratio { num: 7, den: 10 },
            Question::fixed(1, "What is 15 + 27?", "42", "32", "52"),
            Question::fixed(2, "Solve: 8 \u{d7} 7", "56", "54", "64"),
            Question::fixed(3, "What is 144 \u{f7} 12?", "12", "11", "13"),
        )
    }

    /// The configuration of the blockchain topic.
    pub fn blockchain_quiz() -> (config: QuizConfig)
        ensures
            config@ == blockchain_config(),
    {
        QuizConfig::of_three(
            "blockchain",
            Ratio { num: 6, den: 10 },
            Question::fixed(
                1,
                "What is a smart contract?",
                "Self-executing contract with code",
                "Legal document on blockchain",
                "Cryptocurrency wallet",
            ),
            Question::fixed(
                2,
                "Which consensus mechanism does Ethereum use?",
                "Proof of Stake",
                "Proof of Work",
                "Delegated Proof of Stake",
            ),
            Question::fixed(
                3,
                "What is gas fee in Ethereum?",
                "Transaction execution cost",
                "Mining reward",
                "Network subscription",
            ),
        )
    }

    /// The configuration of the security topic.
    pub fn security_quiz() -> (config: QuizConfig)
        ensures
            config@ == security_config(),
    {
        QuizConfig::of_three(
            "security",
            Ratio { num: 8, den: 10 },
            Question::fixed(
                1,
                "What is phishing?",
                "Fraudulent attempt to obtain sensitive information",
                "Type of encryption",
                "Blockchain attack",
            ),
            Question::fixed(
                2,
                "What is 2FA?",
                "Two-Factor Authentication",
                "Two-File Archive",
                "Two-Function Algorithm",
            ),
            Question::fixed(
                3,
                "What's a common password best practice?",
                "Use long, complex passwords",
                "Use same password everywhere",
                "Use personal information",
            ),
        )
    }
}

} // verus!
