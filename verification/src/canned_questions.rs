//! Blockchain and security questions: a prompt chosen from a fixed pool, with
//! one fixed correct statement and three fixed wrong ones.

use crate::question::{DynamicQuestion, QuestionView, OPTION_COUNT};
use crate::random::{random_in_range, random_u32};
use crate::ratio::Ratio;
use crate::shuffle::{draw_picks, texts, valid_picks};
use crate::text::{decimal, decimal_string};
use vstd::prelude::*;
use vstd::string::*;

verus! {

/// The number of prompts in the pool of each topic.
pub const PROMPT_COUNT: usize = 5;

/// The two topics whose questions are taken from a fixed pool.
#[derive(Clone, Copy, Debug, PartialEq, Eq, Structural)]
pub enum CannedTopic {
    Blockchain,
    Security,
}

impl CannedTopic {
    /// The pool of prompts.
    pub open spec fn prompts(self) -> Seq<Seq<char>> {
        match self {
            CannedTopic::Blockchain => seq![
                "What is the main purpose of a smart contract?"@,
                "Which consensus mechanism does Ethereum currently use?"@,
                "What does 'gas' represent in Ethereum?"@,
                "What is a blockchain fork?"@,
                "What is the role of miners/validators?"@,
            ],
            CannedTopic::Security => seq![
                "What is the primary goal of encryption?"@,
                "What does 2FA help protect against?"@,
                "What is a common phishing attack method?"@,
                "Why should passwords be hashed?"@,
                "What is social engineering?"@,
            ],
        }
    }

    /// The statement that counts as correct.
    pub open spec fn correct(self) -> Seq<char> {
        match self {
            CannedTopic::Blockchain => "Self-executing contract with code"@,
            CannedTopic::Security => "Protect data confidentiality"@,
        }
    }

    /// The three wrong statements, in the order in which they are listed.
    pub open spec fn distractors(self) -> Seq<Seq<char>> {
        match self {
            CannedTopic::Blockchain => seq![
                "Legal document on blockchain"@,
                "Cryptocurrency wallet"@,
                "Network node"@,
            ],
            CannedTopic::Security => seq![
                "Increase data size"@,
                "Speed up data transfer"@,
                "Make data public"@,
            ],
        }
    }

    /// The prefix of the identifiers of the topic's questions.
    pub open spec fn prefix(self) -> Seq<char> {
        match self {
            CannedTopic::Blockchain => "bc_"@,
            CannedTopic::Security => "sec_"@,
        }
    }

    /// The identifier of a question of this topic for `user_id`.
    pub open spec fn question_id(self, user_id: Seq<char>, suffix: u32) -> Seq<char> {
        self.prefix() + user_id + "_"@ + decimal(suffix as nat)
    }

    /// The time expected for a question of the topic, in seconds.
    pub open spec fn expected_time(self) -> u32 {
        match self {
            CannedTopic::Blockchain => 40,
            CannedTopic::Security => 35,
        }
    }

    /// The prompt at position `index` of the pool.
    fn prompt_text(&self, index: usize) -> (s: &'static str)
        requires
            index < PROMPT_COUNT,
        ensures
            s@ == self.prompts()[index as int],
    {
        match self {
            CannedTopic::Blockchain => {
                if index == 0 {
                    "What is the main purpose of a smart contract?"
                } else if index == 1 {
                    "Which consensus mechanism does Ethereum currently use?"
                } else if index == 2 {
                    "What does 'gas' represent in Ethereum?"
                } else if index == 3 {
                    "What is a blockchain fork?"
                } else {
                    "What is the role of miners/validators?"
                }
            },
            CannedTopic::Security => {
                if index == 0 {
                    "What is the primary goal of encryption?"
                } else if index == 1 {
                    "What does 2FA help protect against?"
                } else if index == 2 {
                    "What is a common phishing attack method?"
                } else if index == 3 {
                    "Why should passwords be hashed?"
                } else {
                    "What is social engineering?"
                }
            },
        }
    }

    /// The statement that counts as correct.
    fn correct_text(&self) -> (s: &'static str)
        ensures
            s@ == self.correct(),
    {
        match self {
            CannedTopic::Blockchain => "Self-executing contract with code",
            CannedTopic::Security => "Protect data confidentiality",
        }
    }

    /// The three wrong statements.
    fn distractor_list(&self) -> (list: Vec<String>)
        ensures
            list@.len() == OPTION_COUNT - 1,
            texts(list@) == self.distractors(),
    {
        let mut list: Vec<String> = Vec::new();
        match self {
            CannedTopic::Blockchain => {
                list.push(String::from_str("Legal document on blockchain"));
                list.push(String::from_str("Cryptocurrency wallet"));
                list.push(String::from_str("Network node"));
            },
            CannedTopic::Security => {
                list.push(String::from_str("Increase data size"));
                list.push(String::from_str("Speed up data transfer"));
                list.push(String::from_str("Make data public"));
            },
        }
        assert(texts(list@) =~= self.distractors());
        list
    }

    /// The prefix of the identifiers of the topic's questions.
    fn prefix_text(&self) -> (s: &'static str)
        ensures
            s@ == self.prefix(),
    {
        match self {
            CannedTopic::Blockchain => "bc_",
            CannedTopic::Security => "sec_",
        }
    }

    /// The time expected for a question of the topic, in seconds.
    pub fn expected_seconds(&self) -> (t: u32)
        ensures
            t == self.expected_time(),
    {
        match self {
            CannedTopic::Blockchain => 40,
            CannedTopic::Security => 35,
        }
    }
}

impl QuestionView {
    /// The question is the one of `topic` for `user_id` that asks the prompt at
    /// `prompt_index`, with its options shuffled by `picks` and its identifier
    /// ending in `suffix`. It records no generation parameters.
    pub open spec fn is_canned_question(
        self,
        topic: CannedTopic,
        user_id: Seq<char>,
        difficulty: Ratio,
        prompt_index: int,
        picks: Seq<usize>,
        suffix: u32,
    ) -> bool {
        self.is_assembled(
            topic.question_id(user_id, suffix),
            topic.prompts()[prompt_index],
            topic.correct(),
            topic.distractors(),
            Seq::empty(),
            difficulty,
            topic.expected_time(),
            picks,
        )
    }

    /// The question is one of `topic` for `user_id` on some prompt of the pool,
    /// shuffled in some way.
    pub open spec fn is_generated_canned(
        self,
        topic: CannedTopic,
        user_id: Seq<char>,
        difficulty: Ratio,
    ) -> bool {
        exists|prompt_index: int, picks: Seq<usize>, suffix: u32|
            0 <= prompt_index < PROMPT_COUNT && valid_picks(picks, OPTION_COUNT as nat)
                && #[trigger] self.is_canned_question(
                topic,
                user_id,
                difficulty,
                prompt_index,
                picks,
                suffix,
            )
    }
}

impl DynamicQuestion {
    /// The question of `topic` for `user_id` that asks the prompt at
    /// `prompt_index`, with its options shuffled by `picks` and its identifier
    /// ending in `suffix`.
    pub fn canned_question(
        topic: CannedTopic,
        user_id: &str,
        difficulty: Ratio,
        prompt_index: usize,
        picks: &Vec<usize>,
        suffix: u32,
    ) -> (q: DynamicQuestion)
        requires
            prompt_index < PROMPT_COUNT,
            valid_picks(picks@, OPTION_COUNT as nat),
        ensures
            q@.is_canned_question(topic, user_id@, difficulty, prompt_index as int, picks@, suffix),
            q.wf(),
            q@.options.len() == OPTION_COUNT,
            q@.options[q.correct_answer as int] == topic.correct(),
    {
        let mut question_id = String::from_str(topic.prefix_text());
        question_id.append(user_id);
        question_id.append("_");
        question_id.append(decimal_string(suffix as u64).as_str());
        let parameters: Vec<(String, String)> = Vec::new();
        assert(crate::question::named_texts(parameters@) =~= Seq::empty());
        DynamicQuestion::assemble(
            question_id,
            String::from_str(topic.prompt_text(prompt_index)),
            String::from_str(topic.correct_text()),
            topic.distractor_list(),
            parameters,
            difficulty,
            topic.expected_seconds(),
            picks,
        )
    }

    /// Draws the prompt, the shuffle and the identifier of a question of
    /// `topic`, and builds it.
    fn generate_canned_question(topic: CannedTopic, user_id: &str, difficulty: Ratio) -> (q:
        DynamicQuestion)
        ensures
            q@.is_generated_canned(topic, user_id@, difficulty),
            q.wf(),
            q@.options.len() == OPTION_COUNT,
            q@.options[q.correct_answer as int] == topic.correct(),
    {
        let prompt_index = random_in_range(0, 5) as usize;
        let picks = draw_picks(4);
        let suffix = random_u32();
        let q = DynamicQuestion::canned_question(
            topic,
            user_id,
            difficulty,
            prompt_index,
            &picks,
            suffix,
        );
        assert(q@.is_canned_question(
            topic,
            user_id@,
            difficulty,
            prompt_index as int,
            picks@,
            suffix,
        ));
        q
    }

    /// Generates a fresh blockchain question for `user_id`. The difficulty is
    /// recorded and has no influence on the prompt that is drawn. The
    /// draw comes from the thread's generator and nothing is seeded from
    /// `user_id`: the same user gets other questions each time.
    pub fn generate_blockchain_question(user_id: &str, difficulty: Ratio) -> (q: DynamicQuestion)
        ensures
            q@.is_generated_canned(CannedTopic::Blockchain, user_id@, difficulty),
            q.wf(),
            q@.options.len() == OPTION_COUNT,
            q@.options[q.correct_answer as int] == CannedTopic::Blockchain.correct(),
    {
        DynamicQuestion::generate_canned_question(CannedTopic::Blockchain, user_id, difficulty)
    }

    /// Generates a fresh security question for `user_id`. The difficulty is
    /// recorded and has no influence on the prompt that is drawn. The
    /// draw comes from the thread's generator and nothing is seeded from
    /// `user_id`: the same user gets other questions each time.
    pub fn generate_security_question(user_id: &str, difficulty: Ratio) -> (q: DynamicQuestion)
        ensures
            q@.is_generated_canned(CannedTopic::Security, user_id@, difficulty),
            q.wf(),
            q@.options.len() == OPTION_COUNT,
            q@.options[q.correct_answer as int] == CannedTopic::Security.correct(),
    {
        DynamicQuestion::generate_canned_question(CannedTopic::Security, user_id, difficulty)
    }
}

} // verus!
