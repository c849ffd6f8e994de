//! The question record and its assembly from a correct answer and its
//! distractors.

use crate::ratio::Ratio;
use crate::shuffle::{
    apply_picks, is_first_match, lemma_shuffle_is_permutation, lemma_shuffle_keeps_members,
    position_of, shuffled, texts, valid_picks,
};
use vstd::prelude::*;

verus! {

/// The number of options that every generated question offers.
pub const OPTION_COUNT: usize = 4;

/// One question as it is served: its options in the order in which they are
/// shown, and the position of the correct one among them.
#[derive(Debug)]
pub struct DynamicQuestion {
    pub question_id: String,
    pub question_text: String,
    pub options: Vec<String>,
    pub correct_answer: u8,
    /// The values the question was generated from, by name, in the order in
    /// which they were recorded.
    pub parameters: Vec<(String, String)>,
    pub difficulty: Ratio,
    /// The time a candidate is expected to need, in seconds.
    pub expected_time: u32,
}

/// What a question holds, as plain mathematical values.
pub struct QuestionView {
    pub question_id: Seq<char>,
    pub question_text: Seq<char>,
    pub options: Seq<Seq<char>>,
    pub correct_answer: u8,
    pub parameters: Seq<(Seq<char>, Seq<char>)>,
    pub difficulty: Ratio,
    pub expected_time: u32,
}

/// A question as a candidate sees it: without the position of the correct
/// option and without the values it was generated from.
#[derive(Debug)]
pub struct QuestionDisplay {
    pub question_id: String,
    pub question_text: String,
    pub options: Vec<String>,
    pub difficulty: Ratio,
    pub expected_time: u32,
}

/// What a displayed question holds, as plain mathematical values.
pub struct DisplayView {
    pub question_id: Seq<char>,
    pub question_text: Seq<char>,
    pub options: Seq<Seq<char>>,
    pub difficulty: Ratio,
    pub expected_time: u32,
}

impl View for QuestionDisplay {
    type V = DisplayView;

    open spec fn view(&self) -> DisplayView {
        DisplayView {
            question_id: self.question_id@,
            question_text: self.question_text@,
            options: texts(self.options@),
            difficulty: self.difficulty,
            expected_time: self.expected_time,
        }
    }
}

impl QuestionView {
    /// The part of the question that a candidate sees.
    pub open spec fn displayed(self) -> DisplayView {
        DisplayView {
            question_id: self.question_id,
            question_text: self.question_text,
            options: self.options,
            difficulty: self.difficulty,
            expected_time: self.expected_time,
        }
    }
}

/// The texts of a list of named values.
pub open spec fn named_texts(v: Seq<(String, String)>) -> Seq<(Seq<char>, Seq<char>)> {
    v.map_values(|p: (String, String)| (p.0@, p.1@))
}

impl View for DynamicQuestion {
    type V = QuestionView;

    open spec fn view(&self) -> QuestionView {
        QuestionView {
            question_id: self.question_id@,
            question_text: self.question_text@,
            options: texts(self.options@),
            correct_answer: self.correct_answer,
            parameters: named_texts(self.parameters@),
            difficulty: self.difficulty,
            expected_time: self.expected_time,
        }
    }
}

impl QuestionView {
    /// The correct-option index points into the options.
    pub open spec fn wf(self) -> bool {
        (self.correct_answer as int) < self.options.len()
    }

    /// The question is the one assembled from the given parts: its options are
    /// the correct answer followed by the distractors, shuffled by `picks`, and
    /// its index is the first position at which the correct answer then stands.
    pub open spec fn is_assembled(
        self,
        question_id: Seq<char>,
        question_text: Seq<char>,
        correct: Seq<char>,
        distractors: Seq<Seq<char>>,
        parameters: Seq<(Seq<char>, Seq<char>)>,
        difficulty: Ratio,
        expected_time: u32,
        picks: Seq<usize>,
    ) -> bool {
        &&& self.question_id == question_id
        &&& self.question_text == question_text
        &&& self.options == shuffled(seq![correct] + distractors, picks)
        &&& is_first_match(self.options, correct, self.correct_answer as int)
        &&& self.parameters == parameters
        &&& self.difficulty == difficulty
        &&& self.expected_time == expected_time
    }
}

/// The recorded index of an assembled question reads the correct answer back
/// from the shuffled options, and the shuffle neither adds nor drops an option.
pub proof fn lemma_assembled_reads_back(
    q: QuestionView,
    question_id: Seq<char>,
    question_text: Seq<char>,
    correct: Seq<char>,
    distractors: Seq<Seq<char>>,
    parameters: Seq<(Seq<char>, Seq<char>)>,
    difficulty: Ratio,
    expected_time: u32,
    picks: Seq<usize>,
)
    requires
        valid_picks(picks, distractors.len() + 1),
        q.is_assembled(
            question_id,
            question_text,
            correct,
            distractors,
            parameters,
            difficulty,
            expected_time,
            picks,
        ),
    ensures
        q.wf(),
        q.options[q.correct_answer as int] == correct,
        q.options.len() == distractors.len() + 1,
        q.options.to_multiset() == (seq![correct] + distractors).to_multiset(),
{
    lemma_shuffle_is_permutation(seq![correct] + distractors, picks, distractors.len() + 1);
}

/// Copies a list of strings.
pub fn copy_texts(list: &Vec<String>) -> (copy: Vec<String>)
    ensures
        texts(copy@) == texts(list@),
        copy@.len() == list@.len(),
{
    let mut copy: Vec<String> = Vec::new();
    let mut i: usize = 0;
    while i < list.len()
        invariant
            i <= list@.len(),
            copy@.len() == i,
            texts(copy@) =~= texts(list@).take(i as int),
        decreases list@.len() - i,
    {
        copy.push(list[i].clone());
        i = i + 1;
    }
    assert(texts(list@).take(i as int) =~= texts(list@));
    copy
}

/// Copies a list of named values.
pub fn copy_named_texts(list: &Vec<(String, String)>) -> (copy: Vec<(String, String)>)
    ensures
        named_texts(copy@) == named_texts(list@),
{
    let mut copy: Vec<(String, String)> = Vec::new();
    let mut i: usize = 0;
    while i < list.len()
        invariant
            i <= list@.len(),
            copy@.len() == i,
            named_texts(copy@) =~= named_texts(list@).take(i as int),
        decreases list@.len() - i,
    {
        copy.push((list[i].0.clone(), list[i].1.clone()));
        i = i + 1;
    }
    assert(named_texts(list@).take(i as int) =~= named_texts(list@));
    copy
}

impl Clone for DynamicQuestion {
    /// A copy that holds what the question holds.
    fn clone(&self) -> (copy: DynamicQuestion)
        ensures
            copy@ == self@,
    {
        DynamicQuestion {
            question_id: self.question_id.clone(),
            question_text: self.question_text.clone(),
            options: copy_texts(&self.options),
            correct_answer: self.correct_answer,
            parameters: copy_named_texts(&self.parameters),
            difficulty: self.difficulty,
            expected_time: self.expected_time,
        }
    }
}

impl DynamicQuestion {
    /// The correct-option index points into the options.
    pub open spec fn wf(&self) -> bool {
        self@.wf()
    }

    /// The question as a candidate sees it.
    pub fn display(&self) -> (shown: QuestionDisplay)
        ensures
            shown@ == self@.displayed(),
    {
        QuestionDisplay {
            question_id: self.question_id.clone(),
            question_text: self.question_text.clone(),
            options: copy_texts(&self.options),
            difficulty: self.difficulty,
            expected_time: self.expected_time,
        }
    }

    /// Builds a question: puts the correct answer in front of the distractors,
    /// shuffles the four by `picks` and records where the correct answer then
    /// stands. The correct answer is always found again, so the recorded index
    /// always reads it back.
    pub fn assemble(
        question_id: String,
        question_text: String,
        correct: String,
        distractors: Vec<String>,
        parameters: Vec<(String, String)>,
        difficulty: Ratio,
        expected_time: u32,
        picks: &Vec<usize>,
    ) -> (q: DynamicQuestion)
        requires
            distractors@.len() == OPTION_COUNT - 1,
            valid_picks(picks@, OPTION_COUNT as nat),
        ensures
            q@.is_assembled(
                question_id@,
                question_text@,
                correct@,
                texts(distractors@),
                named_texts(parameters@),
                difficulty,
                expected_time,
                picks@,
            ),
            q@.options.len() == OPTION_COUNT,
            q@.options.to_multiset() == (seq![correct@] + texts(distractors@)).to_multiset(),
            q@.options[q.correct_answer as int] == correct@,
            q.wf(),
    {
        let mut options: Vec<String> = Vec::new();
        options.push(correct.clone());
        let mut k: usize = 0;
        while k < distractors.len()
            invariant
                k <= distractors@.len(),
                distractors@.len() == OPTION_COUNT - 1,
                texts(options@) =~= seq![correct@] + texts(distractors@).take(k as int),
            decreases distractors@.len() - k,
        {
            let ghost before = options@;
            options.push(distractors[k].clone());
            proof {
                assert(texts(options@) =~= texts(before).push(distractors@[k as int]@));
                assert(texts(distractors@).take(k + 1) =~= texts(distractors@).take(k as int).push(
                    distractors@[k as int]@,
                ));
            }
            k = k + 1;
        }
        let ghost unshuffled = seq![correct@] + texts(distractors@);
        proof {
            assert(texts(distractors@).take(k as int) =~= texts(distractors@));
            assert(unshuffled.contains(correct@)) by {
                assert(unshuffled[0] == correct@);
            }
            lemma_shuffle_is_permutation(unshuffled, picks@, unshuffled.len());
            lemma_shuffle_keeps_members(unshuffled, picks@, correct@);
        }
        apply_picks(&mut options, picks);
        let correct_answer: u8 = match position_of(&options, &correct) {
            Some(i) => i as u8,
            None => 0,
        };
        DynamicQuestion {
            question_id,
            question_text,
            options,
            correct_answer,
            parameters,
            difficulty,
            expected_time,
        }
    }
}

} // verus!
