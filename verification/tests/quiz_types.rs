use quiz_engine::{Question, QuizConfig, Ratio};

fn check_shape(config: &QuizConfig, name: &str, passing_score: Ratio) {
    assert_eq!(config.quiz_type, name);
    assert_eq!(config.passing_score, passing_score);
    assert_eq!(config.questions.len(), 3);
    for (i, question) in config.questions.iter().enumerate() {
        assert_eq!(question.id as usize, i + 1);
        assert_eq!(question.options.len(), 3);
        assert_eq!(question.correct_answer, 0);
    }
}

#[test]
fn programming_quiz_is_configured() {
    let config = QuizConfig::programming_quiz();
    check_shape(&config, "programming", Ratio { num: 6, den: 10 });
    assert_eq!(config.questions[0].question, "What does FHE stand for?");
    assert_eq!(
        config.questions[0].options,
        vec![
            "Fully Homomorphic Encryption",
            "Federated Hardware Encryption",
            "Fast Hash Encryption",
        ]
    );
    assert_eq!(config.questions[1].question, "Which language is best for FHE?");
    assert_eq!(config.questions[1].options, vec!["Rust", "Python", "JavaScript"]);
    assert_eq!(config.questions[2].question, "What is Zero-Knowledge Proof?");
    assert_eq!(
        config.questions[2].options,
        vec![
            "Proving something without revealing details",
            "A type of encryption",
            "A blockchain consensus",
        ]
    );
}

#[test]
fn math_quiz_is_configured() {
    let config = QuizConfig::math_quiz();
    check_shape(&config, "math", Ratio { num: 7, den: 10 });
    assert_eq!(config.questions[0].question, "What is 15 + 27?");
    assert_eq!(config.questions[0].options, vec!["42", "32", "52"]);
    assert_eq!(config.questions[1].question, "Solve: 8 \u{d7} 7");
    assert_eq!(config.questions[1].options, vec!["56", "54", "64"]);
    assert_eq!(config.questions[2].question, "What is 144 \u{f7} 12?");
    assert_eq!(config.questions[2].options, vec!["12", "11", "13"]);
}

#[test]
fn blockchain_quiz_is_configured() {
    let config = QuizConfig::blockchain_quiz();
    check_shape(&config, "blockchain", Ratio { num: 6, den: 10 });
    assert_eq!(config.questions[0].question, "What is a smart contract?");
    assert_eq!(
        config.questions[0].options,
        vec![
            "Self-executing contract with code",
            "Legal document on blockchain",
            "Cryptocurrency wallet",
        ]
    );
    assert_eq!(config.questions[1].question, "Which consensus mechanism does Ethereum use?");
    assert_eq!(
        config.questions[1].options,
        vec!["Proof of Stake", "Proof of Work", "Delegated Proof of Stake"]
    );
    assert_eq!(config.questions[2].question, "What is gas fee in Ethereum?");
    assert_eq!(
        config.questions[2].options,
        vec!["Transaction execution cost", "Mining reward", "Network subscription"]
    );
}

#[test]
fn security_quiz_is_configured() {
    let config = QuizConfig::security_quiz();
    check_shape(&config, "security", Ratio { num: 8, den: 10 });
    assert_eq!(config.questions[0].question, "What is phishing?");
    assert_eq!(
        config.questions[0].options,
        vec![
            "Fraudulent attempt to obtain sensitive information",
            "Type of encryption",
            "Blockchain attack",
        ]
    );
    assert_eq!(config.questions[1].question, "What is 2FA?");
    assert_eq!(
        config.questions[1].options,
        vec!["Two-Factor Authentication", "Two-File Archive", "Two-Function Algorithm"]
    );
    assert_eq!(config.questions[2].question, "What's a common password best practice?");
    assert_eq!(
        config.questions[2].options,
        vec![
            "Use long, complex passwords",
            "Use same password everywhere",
            "Use personal information",
        ]
    );
}

#[test]
fn fixed_question_puts_the_correct_option_first() {
    let question = Question::fixed(9, "prompt", "right", "wrong", "worse");
    assert_eq!(question.id, 9);
    assert_eq!(question.question, "prompt");
    assert_eq!(question.options, vec!["right", "wrong", "worse"]);
    assert_eq!(question.correct_answer, 0);
}
