//! A candidate's session: the questions drawn for it, the behaviour recorded
//! while it is answered, and the cheating likelihood that follows from that
//! behaviour.

use crate::canned_questions::CannedTopic;
use crate::clock::{now, since_epoch, whole_seconds};
use crate::question::{DynamicQuestion, QuestionView, OPTION_COUNT};
use crate::ratio::Ratio;
use crate::statistics::{
    count_below, count_below_of, has_variance_below_one, lemma_sums_bounds, lemma_sums_step,
    sum_of, total, variance_below_one,
};
use crate::topic::Topic;
use vstd::prelude::*;
use vstd::string::*;

verus! {

/// What was observed of a candidate so far.
#[derive(Debug)]
pub struct BehaviorMetrics {
    /// The time spent on each answer, in seconds, in the order of arrival.
    pub answer_times: Vec<u32>,
    /// How many answers were changed at least once.
    pub switch_count: u32,
    pub consistency_score: Ratio,
}

/// The questions of one candidate and what was observed of that candidate.
#[derive(Debug)]
pub struct UserSession {
    pub user_id: String,
    /// The quiz type that the session was begun for, as it was named then.
    pub quiz_type: String,
    pub questions: Vec<DynamicQuestion>,
    /// When the session began, in seconds since the Unix epoch.
    pub start_time: u64,
    pub behavior_metrics: BehaviorMetrics,
}

/// What a session holds, as plain mathematical values.
pub struct SessionView {
    pub user_id: Seq<char>,
    pub quiz_type: Seq<char>,
    pub questions: Seq<QuestionView>,
    pub start_time: u64,
    pub answer_times: Seq<u32>,
    pub switch_count: u32,
    pub consistency_score: Ratio,
}

/// What a list of questions holds.
pub open spec fn question_views(questions: Seq<DynamicQuestion>) -> Seq<QuestionView> {
    questions.map_values(|q: DynamicQuestion| q@)
}

impl View for UserSession {
    type V = SessionView;

    open spec fn view(&self) -> SessionView {
        SessionView {
            user_id: self.user_id@,
            quiz_type: self.quiz_type@,
            questions: question_views(self.questions@),
            start_time: self.start_time,
            answer_times: self.behavior_metrics.answer_times@,
            switch_count: self.behavior_metrics.switch_count,
            consistency_score: self.behavior_metrics.consistency_score,
        }
    }
}

/// The number of answers that were changed at least once, given how often each
/// was changed.
pub open spec fn changed_answers(switch_counts: Seq<u32>) -> int {
    switch_counts.len() - count_below(switch_counts, 1)
}

impl SessionView {
    /// The switch counter can take the changed answers that `switch_counts`
    /// reports.
    pub open spec fn has_room_for(self, switch_counts: Seq<u32>) -> bool {
        self.switch_count + changed_answers(switch_counts) <= u32::MAX
    }

    /// The session after a report: the answer times appended, the switch
    /// counter raised by one for each answer that was changed.
    pub open spec fn with_telemetry(self, times: Seq<u32>, switch_counts: Seq<u32>) -> SessionView {
        SessionView {
            answer_times: self.answer_times + times,
            switch_count: (self.switch_count + changed_answers(switch_counts)) as u32,
            ..self
        }
    }
}

impl SessionView {
    /// The session is one that has just begun for `user_id` on the named quiz
    /// type: it keeps that name, and holds `question_count` questions as the
    /// generator of its topic makes them, each with four options and a valid index, with difficulty
    /// rising from question to question, and nothing is observed yet.
    pub open spec fn is_fresh_for(
        self,
        user_id: Seq<char>,
        quiz_type: Seq<char>,
        question_count: int,
    ) -> bool {
        &&& self.user_id == user_id
        &&& self.quiz_type == quiz_type
        &&& self.questions.len() == question_count
        &&& forall|i: int|
            0 <= i < question_count ==> is_generated(
                #[trigger] self.questions[i],
                session_topic(quiz_type),
                user_id,
                difficulty_at(i),
            )
        &&& forall|i: int|
            0 <= i < question_count ==> (#[trigger] self.questions[i]).wf()
                && self.questions[i].options.len() == OPTION_COUNT
        &&& self.answer_times == Seq::<u32>::empty()
        &&& self.switch_count == 0
        &&& self.consistency_score == (Ratio { num: 1, den: 1 })
    }
}

/// Among the first `j` answers no more were changed than among all.
pub proof fn lemma_changed_prefix(switch_counts: Seq<u32>, j: int)
    requires
        0 <= j <= switch_counts.len(),
    ensures
        0 <= changed_answers(switch_counts.take(j)) <= changed_answers(switch_counts),
        j < switch_counts.len() ==> changed_answers(switch_counts.take(j + 1))
            == changed_answers(switch_counts.take(j)) + if switch_counts[j] > 0 {
            1int
        } else {
            0int
        },
    decreases switch_counts.len() - j,
{
    lemma_sums_bounds(switch_counts.take(j), 0, 1);
    if j < switch_counts.len() {
        lemma_changed_prefix(switch_counts, j + 1);
        lemma_sums_step(switch_counts, j, 0, 1);
    } else {
        assert(switch_counts.take(j) =~= switch_counts);
    }
}

/// Counts the answers that were changed at least once.
pub fn changed_answers_of(switch_counts: &Vec<u32>) -> (changed: usize)
    ensures
        changed == changed_answers(switch_counts@),
{
    proof {
        lemma_sums_bounds(switch_counts@, 0, 1);
    }
    switch_counts.len() - count_below_of(switch_counts, 1)
}

/// The topic whose questions a session of the named quiz type gets: the named
/// one, and arithmetic where the name is unknown.
pub open spec fn session_topic(quiz_type: Seq<char>) -> Topic {
    match Topic::named(quiz_type) {
        Some(topic) => topic,
        None => Topic::Math,
    }
}

/// The difficulty of the question at position `i` of a session: it starts at
/// 0.3 and rises by 0.2 from one question to the next.
pub open spec fn difficulty_at(i: int) -> Ratio {
    Ratio { num: (3 + 2 * i) as u128, den: 10 }
}

/// `q` is a question as the generator of `topic` makes them for `user_id`.
pub open spec fn is_generated(
    q: QuestionView,
    topic: Topic,
    user_id: Seq<char>,
    difficulty: Ratio,
) -> bool {
    match topic {
        Topic::Math => q.is_generated_math(user_id, difficulty),
        Topic::Programming => q.is_generated_programming(user_id, difficulty),
        Topic::Blockchain => q.is_generated_canned(CannedTopic::Blockchain, user_id, difficulty),
        Topic::Security => q.is_generated_canned(CannedTopic::Security, user_id, difficulty),
    }
}

/// More than half of the answers took less than three seconds.
pub open spec fn speed_anomaly(times: Seq<u32>) -> bool {
    2 * count_below(times, 3) > times.len()
}

/// The answer times vary so little that their population variance is below
/// one.
pub open spec fn uniform_timing(times: Seq<u32>) -> bool {
    variance_below_one(times)
}

/// Answers were changed on more than four fifths of the questions.
pub open spec fn excessive_switching(switch_count: int, question_count: int) -> bool {
    5 * switch_count > 4 * question_count
}

/// Every question was answered, in less than five seconds on average.
pub open spec fn fast_completion(times: Seq<u32>, question_count: int) -> bool {
    total(times) < 5 * times.len() && times.len() == question_count
}

/// The cheating likelihood in tenths: nothing without answer times; else 4 for
/// the speed anomaly, 3 for uniform timing, 2 for excessive switching and 3 for
/// fast completion, added up and capped at 10.
pub open spec fn cheating_tenths(times: Seq<u32>, switch_count: int, question_count: int) -> int {
    if times.len() == 0 {
        0
    } else {
        let raw = (if speed_anomaly(times) {
            4int
        } else {
            0int
        }) + (if uniform_timing(times) {
            3int
        } else {
            0int
        }) + (if excessive_switching(switch_count, question_count) {
            2int
        } else {
            0int
        }) + (if fast_completion(times, question_count) {
            3int
        } else {
            0int
        });
        if raw > 10 {
            10
        } else {
            raw
        }
    }
}

/// Scores recorded behaviour: the likelihood, between 0 and 1 in steps of a
/// tenth, that answers given in `times` seconds each, with `switch_count`
/// changed answers, on `question_count` questions were not the candidate's
/// own work.
pub fn cheating_likelihood(times: &Vec<u32>, switch_count: u32, question_count: usize) -> (r:
    Ratio)
    ensures
        r.den == 10,
        r.num == cheating_tenths(times@, switch_count as int, question_count as int),
        r.num <= 10,
        times@.len() == 0 ==> r.num == 0,
{
    if times.len() == 0 {
        return Ratio { num: 0, den: 10 };
    }
    let answered = times.len();
    let mut tenths: u128 = 0;
    let fast = count_below_of(times, 3);
    if 2 * (fast as u128) > answered as u128 {
        tenths = tenths + 4;
    }
    if has_variance_below_one(times) {
        tenths = tenths + 3;
    }
    if 5 * (switch_count as u128) > 4 * (question_count as u128) {
        tenths = tenths + 2;
    }
    let sum = sum_of(times);
    if sum < 5 * (answered as u128) && answered == question_count {
        tenths = tenths + 3;
    }
    if tenths > 10 {
        tenths = 10;
    }
    Ratio { num: tenths, den: 10 }
}

impl UserSession {
    /// Begins a session for `user_id`: draws `question_count` questions of the
    /// quiz type (arithmetic ones where the type is unknown), with difficulty
    /// rising from question to question, and starts with nothing observed.
    pub fn new(user_id: String, quiz_type: &str, question_count: usize) -> (session: UserSession)
        ensures
            session@.is_fresh_for(user_id@, quiz_type@, question_count as int),
    {
        let topic = match Topic::from_name(quiz_type) {
            Some(topic) => topic,
            None => Topic::Math,
        };
        let mut questions: Vec<DynamicQuestion> = Vec::new();
        let mut i: usize = 0;
        while i < question_count
            invariant
                i <= question_count,
                questions@.len() == i,
                topic == session_topic(quiz_type@),
                forall|k: int|
                    0 <= k < i ==> is_generated(
                        #[trigger] questions@[k]@,
                        topic,
                        user_id@,
                        difficulty_at(k),
                    ),
                forall|k: int|
                    0 <= k < i ==> (#[trigger] questions@[k]@).wf() && questions@[k]@.options.len()
                        == OPTION_COUNT,
            decreases question_count - i,
        {
            let difficulty = Ratio { num: 3 + 2 * (i as u128), den: 10 };
            let question = match topic {
                Topic::Math => DynamicQuestion::generate_math_question(
                    user_id.as_str(),
                    difficulty,
                ),
                Topic::Programming => DynamicQuestion::generate_programming_question(
                    user_id.as_str(),
                    difficulty,
                ),
                Topic::Blockchain => DynamicQuestion::generate_blockchain_question(
                    user_id.as_str(),
                    difficulty,
                ),
                Topic::Security => DynamicQuestion::generate_security_question(
                    user_id.as_str(),
                    difficulty,
                ),
            };
            questions.push(question);
            i = i + 1;
        }
        let begun = now();
        let start_time = match since_epoch(&begun) {
            Ok(elapsed) => whole_seconds(&elapsed),
            Err(_) => 0,
        };
        let session = UserSession {
            user_id,
            quiz_type: String::from_str(quiz_type),
            questions,
            start_time,
            behavior_metrics: BehaviorMetrics {
                answer_times: Vec::new(),
                switch_count: 0,
                consistency_score: Ratio { num: 1, den: 1 },
            },
        };
        assert(session@.questions.len() == question_count);
        session
    }

    /// Records the time spent on one more answer.
    pub fn add_answer_time(&mut self, time_seconds: u32)
        ensures
            final(self)@ == (SessionView {
                answer_times: old(self)@.answer_times.push(time_seconds),
                ..old(self)@
            }),
    {
        self.behavior_metrics.answer_times.push(time_seconds);
    }

    /// Records that one more answer was changed.
    pub fn increment_switch_count(&mut self)
        requires
            old(self).behavior_metrics.switch_count < u32::MAX,
        ensures
            final(self)@ == (SessionView {
                switch_count: (old(self)@.switch_count + 1) as u32,
                ..old(self)@
            }),
    {
        self.behavior_metrics.switch_count = self.behavior_metrics.switch_count + 1;
    }

    /// Whether the switch counter can take the changed answers that
    /// `switch_counts` reports.
    pub fn has_room_for(&self, switch_counts: &Vec<u32>) -> (room: bool)
        ensures
            room == self@.has_room_for(switch_counts@),
    {
        let changed = changed_answers_of(switch_counts);
        (self.behavior_metrics.switch_count as u128) + (changed as u128) <= 0xFFFF_FFFF
    }

    /// Takes a report into the record: appends each answer time and counts
    /// each answer that was changed at least once.
    pub fn record_telemetry(&mut self, times: &Vec<u32>, switch_counts: &Vec<u32>)
        requires
            old(self)@.has_room_for(switch_counts@),
        ensures
            final(self)@ == old(self)@.with_telemetry(times@, switch_counts@),
    {
        let mut i: usize = 0;
        while i < times.len()
            invariant
                i <= times@.len(),
                self@ == (SessionView {
                    answer_times: old(self)@.answer_times + times@.take(i as int),
                    ..old(self)@
                }),
            decreases times@.len() - i,
        {
            self.add_answer_time(times[i]);
            proof {
                assert((old(self)@.answer_times + times@.take(i as int)).push(times@[i as int])
                    =~= old(self)@.answer_times + times@.take(i + 1));
            }
            i = i + 1;
        }
        assert(times@.take(i as int) =~= times@);
        let mut j: usize = 0;
        proof {
            lemma_changed_prefix(switch_counts@, 0);
            assert(switch_counts@.take(0) =~= Seq::<u32>::empty());
        }
        while j < switch_counts.len()
            invariant
                j <= switch_counts@.len(),
                old(self)@.has_room_for(switch_counts@),
                self@ == (SessionView {
                    answer_times: old(self)@.answer_times + times@,
                    switch_count: (old(self)@.switch_count + changed_answers(
                        switch_counts@.take(j as int),
                    )) as u32,
                    ..old(self)@
                }),
            decreases switch_counts@.len() - j,
        {
            proof {
                lemma_changed_prefix(switch_counts@, j as int);
                lemma_changed_prefix(switch_counts@, j + 1);
            }
            if switch_counts[j] > 0 {
                self.increment_switch_count();
            }
            j = j + 1;
        }
        assert(switch_counts@.take(j as int) =~= switch_counts@);
    }

    /// The likelihood, between 0 and 1 in steps of a tenth, that the session
    /// was not the candidate's own work, judged by everything recorded so far.
    pub fn calculate_cheating_likelihood(&self) -> (r: Ratio)
        ensures
            r.den == 10,
            r.num == cheating_tenths(
                self@.answer_times,
                self@.switch_count as int,
                self@.questions.len() as int,
            ),
            r.num <= 10,
            self@.answer_times.len() == 0 ==> r.num == 0,
    {
        cheating_likelihood(
            &self.behavior_metrics.answer_times,
            self.behavior_metrics.switch_count,
            self.questions.len(),
        )
    }
}

} // verus!
