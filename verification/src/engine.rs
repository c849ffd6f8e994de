//! The assessment engine: the topic configurations, the table of running
//! sessions, and the evaluation of a submission against its session.
//!
//! The engine is a plain value. A service that serves several requests at once
//! keeps it behind one lock and calls it with the lock held.

use crate::analysis::{analysis_of, analyze_behavior, BehaviorAnalysis, BehaviorData};
use crate::grading::{
    correct_count, count_correct, level_for, level_of, reaches, reaches_passing_score,
};
use crate::question::{DisplayView, DynamicQuestion, QuestionDisplay, QuestionView};
use crate::quiz_types::{
    blockchain_config, math_config, programming_config, security_config, QuizConfig,
    QuizConfigView,
};
use crate::random::random_u32;
use crate::ratio::Ratio;
use crate::session::{cheating_tenths, question_views, SessionView, UserSession};
use crate::shuffle::texts;
use crate::statistics::MAX_SAMPLES;
use crate::text::{decimal, decimal_string, same_text};
use crate::tokens::{
    certificate_text, certificate_token, score_text, score_token, severity_code, to_uppercase,
    uppercase,
};
use crate::topic::Topic;
use vstd::prelude::*;
use vstd::string::*;

verus! {

/// The number of questions of a session whose quiz type has no configuration.
pub const DEFAULT_QUESTION_COUNT: usize = 3;

/// One running session under its identifier.
#[derive(Debug)]
pub struct SessionEntry {
    pub id: String,
    pub session: UserSession,
}

/// The engine: the configurations of the topics and the running sessions.
#[derive(Debug)]
pub struct MobileFHE {
    pub quizzes: Vec<QuizConfig>,
    /// The running sessions; no identifier occurs twice.
    pub user_sessions: Vec<SessionEntry>,
}

/// Why a submission was not evaluated.
#[derive(Clone, Copy, Debug, PartialEq, Eq, Structural)]
pub enum EvaluationError {
    /// No session runs under the identifier.
    SessionNotFound,
    /// The report holds more answer times than can be analysed exactly, or
    /// more changed answers than the session's counter can take.
    TelemetryTooLong,
}

/// The verdict on a submission.
#[derive(Debug)]
pub struct QuizResponse {
    pub passed: bool,
    pub encrypted_score: String,
    pub level: u8,
    pub correct_answers: usize,
    pub total_questions: usize,
    pub quiz_type: String,
    pub certificate_id: String,
    pub cheating_likelihood: Ratio,
    pub behavior_analysis: BehaviorAnalysis,
    pub is_flagged: bool,
}

/// What a verdict holds, as plain mathematical values.
pub struct ResponseView {
    pub passed: bool,
    pub encrypted_score: Seq<char>,
    pub level: u8,
    pub correct_answers: usize,
    pub total_questions: usize,
    pub quiz_type: Seq<char>,
    pub certificate_id: Seq<char>,
    pub cheating_likelihood: Ratio,
    pub behavior_analysis: BehaviorAnalysis,
    pub is_flagged: bool,
}

impl View for QuizResponse {
    type V = ResponseView;

    open spec fn view(&self) -> ResponseView {
        ResponseView {
            passed: self.passed,
            encrypted_score: self.encrypted_score@,
            level: self.level,
            correct_answers: self.correct_answers,
            total_questions: self.total_questions,
            quiz_type: self.quiz_type@,
            certificate_id: self.certificate_id@,
            cheating_likelihood: self.cheating_likelihood,
            behavior_analysis: self.behavior_analysis,
            is_flagged: self.is_flagged,
        }
    }
}

/// What a candidate gets when a session begins: the identifier of the session
/// and its questions as they are shown.
#[derive(Debug)]
pub struct SessionStart {
    pub session_id: String,
    pub questions: Vec<QuestionDisplay>,
}

/// What a list of displayed questions holds.
pub open spec fn display_views(questions: Seq<QuestionDisplay>) -> Seq<DisplayView> {
    questions.map_values(|q: QuestionDisplay| q@)
}

/// The parts of the questions that a candidate sees.
pub open spec fn displayed_all(questions: Seq<QuestionView>) -> Seq<DisplayView> {
    questions.map_values(|q: QuestionView| q.displayed())
}

/// The state of the service as a health check reports it.
#[derive(Debug)]
pub struct HealthReport {
    pub status: String,
    pub backend_version: String,
    pub available_quizzes: usize,
    pub active_sessions: usize,
}

/// What a list of configurations holds.
pub open spec fn config_views(quizzes: Seq<QuizConfig>) -> Seq<QuizConfigView> {
    quizzes.map_values(|c: QuizConfig| c@)
}

/// The configurations of the four topics, in the order in which they are
/// listed.
pub open spec fn standard_quizzes() -> Seq<QuizConfigView> {
    seq![programming_config(), math_config(), blockchain_config(), security_config()]
}

/// The names of the four topics, in the order in which they are listed.
pub open spec fn topic_names() -> Seq<Seq<char>> {
    seq!["programming"@, "math"@, "blockchain"@, "security"@]
}

/// The passing score of the quiz type `topic`: that of the topic of this name,
/// and that of arithmetic where no topic has the name.
pub open spec fn passing_score(topic: Seq<char>) -> Ratio {
    match Topic::named(topic) {
        Some(Topic::Programming) => Ratio { num: 6, den: 10 },
        Some(Topic::Math) => Ratio { num: 7, den: 10 },
        Some(Topic::Blockchain) => Ratio { num: 6, den: 10 },
        Some(Topic::Security) => Ratio { num: 8, den: 10 },
        None => Ratio { num: 7, den: 10 },
    }
}

/// The identifiers under which the entries stand.
pub open spec fn entry_ids(entries: Seq<SessionEntry>) -> Seq<Seq<char>> {
    entries.map_values(|e: SessionEntry| e.id@)
}

/// The table that the entries form: each identifier with its session.
pub open spec fn session_map(entries: Seq<SessionEntry>) -> Map<Seq<char>, SessionView> {
    Map::new(
        |id: Seq<char>| entry_ids(entries).contains(id),
        |id: Seq<char>| entries[entry_ids(entries).index_of(id)].session@,
    )
}

/// The identifier of a session: user, quiz type and a random number, joined by
/// underscores.
pub open spec fn session_id_of(user_id: Seq<char>, quiz_type: Seq<char>, suffix: u32) -> Seq<
    char,
> {
    user_id + "_"@ + quiz_type + "_"@ + decimal(suffix as nat)
}

/// The verdict on `answers`, reported with the given answer times and changes
/// of answers, against a session that already holds that report; `salt` and
/// `number` are the random parts of the two tokens.
///
/// The verdict names the quiz type that the session was begun for, and both
/// tokens carry that name. The candidate passes when the share of correct
/// answers reaches the passing score of that quiz type and the session is not
/// flagged; it is flagged when the cheating likelihood is above 0.6, and then
/// the level is 1.
pub open spec fn verdict_on(
    session: SessionView,
    answers: Seq<Seq<char>>,
    times: Seq<u32>,
    switch_counts: Seq<u32>,
    salt: u32,
    number: u32,
) -> ResponseView {
    let total = session.questions.len() as int;
    let correct = correct_count(answers, total);
    let topic = session.quiz_type;
    let tenths = cheating_tenths(session.answer_times, session.switch_count as int, total);
    let flagged = tenths > 6;
    ResponseView {
        passed: reaches(correct, total, passing_score(topic)) && !flagged,
        encrypted_score: score_token(topic, correct as nat, salt),
        level: if flagged {
            1u8
        } else {
            level_of(correct, total) as u8
        },
        correct_answers: correct as usize,
        total_questions: total as usize,
        quiz_type: topic,
        certificate_id: certificate_token(
            uppercase(topic),
            correct as nat,
            (tenths * 10) as u32,
            number,
        ),
        cheating_likelihood: Ratio { num: tenths as u128, den: 10 },
        behavior_analysis: analysis_of(times, switch_counts, total),
        is_flagged: flagged,
    }
}

/// An entry is found under its identifier, and only entries are found.
pub proof fn lemma_entry_lookup(entries: Seq<SessionEntry>, i: int)
    requires
        entry_ids(entries).no_duplicates(),
        0 <= i < entries.len(),
    ensures
        session_map(entries).dom().contains(entries[i].id@),
        session_map(entries)[entries[i].id@] == entries[i].session@,
{
    let ids = entry_ids(entries);
    assert(ids[i] == entries[i].id@);
    assert(ids.contains(ids[i]));
    let j = ids.index_of(ids[i]);
    assert(j == i);
}

/// A session that the table holds stands in one entry, under its identifier.
pub proof fn lemma_session_entry(entries: Seq<SessionEntry>, id: Seq<char>) -> (i: int)
    requires
        entry_ids(entries).no_duplicates(),
        session_map(entries).dom().contains(id),
    ensures
        0 <= i < entries.len(),
        entries[i].id@ == id,
        session_map(entries)[id] == entries[i].session@,
{
    let ids = entry_ids(entries);
    assert(ids.contains(id));
    let i = ids.index_of(id);
    assert(ids[i] == id);
    i
}

/// The table holds as many sessions as there are entries.
pub proof fn lemma_session_count(entries: Seq<SessionEntry>)
    requires
        entry_ids(entries).no_duplicates(),
    ensures
        session_map(entries).dom().finite(),
        session_map(entries).dom().len() == entries.len(),
{
    let ids = entry_ids(entries);
    ids.unique_seq_to_set();
    assert(session_map(entries).dom() =~= ids.to_set());
}

/// Evaluates `answers` against a session that already holds the report
/// `behavior_data`, with the given random parts of the two tokens.
pub fn evaluate_session(
    quizzes: &Vec<QuizConfig>,
    session: &UserSession,
    answers: &Vec<String>,
    behavior_data: &BehaviorData,
    salt: u32,
    number: u32,
) -> (response: QuizResponse)
    requires
        config_views(quizzes@) == standard_quizzes(),
        behavior_data.answer_times@.len() <= MAX_SAMPLES,
    ensures
        response@ == verdict_on(
            session@,
            texts(answers@),
            behavior_data.answer_times@,
            behavior_data.switch_counts@,
            salt,
            number,
        ),
{
    let total_questions = session.questions.len();
    let correct_count = count_correct(answers, &session.questions);
    let quiz_type = session.quiz_type.clone();
    let threshold = passing_score_in(quizzes, quiz_type.as_str());
    let reached = reaches_passing_score(correct_count, total_questions, threshold);
    let cheating_likelihood = session.calculate_cheating_likelihood();
    let is_flagged = cheating_likelihood.num > 6;
    let level = if is_flagged {
        1
    } else {
        level_for(correct_count, total_questions)
    };
    let behavior_analysis = analyze_behavior(behavior_data, total_questions);
    let encrypted_score = score_text(quiz_type.as_str(), correct_count, salt);
    let severity = severity_code(cheating_likelihood);
    let upper = to_uppercase(quiz_type.as_str());
    let certificate_id = certificate_text(upper.as_str(), correct_count, severity, number);
    proof {
        let tenths = cheating_likelihood.num as int;
        assert(tenths * 100 / 10 == tenths * 10);
    }
    QuizResponse {
        passed: reached && !is_flagged,
        encrypted_score,
        level,
        correct_answers: correct_count,
        total_questions,
        quiz_type,
        certificate_id,
        cheating_likelihood,
        behavior_analysis,
        is_flagged,
    }
}

/// The position of the first configuration named `name`.
pub fn find_config(quizzes: &Vec<QuizConfig>, name: &str) -> (found: Option<usize>)
    ensures
        match found {
            Some(i) => i < quizzes@.len() && quizzes@[i as int].quiz_type@ == name@ && forall|
                k: int,
            |
                0 <= k < i ==> quizzes@[k].quiz_type@ != name@,
            None => forall|k: int| 0 <= k < quizzes@.len() ==> quizzes@[k].quiz_type@ != name@,
        },
{
    let mut i: usize = 0;
    while i < quizzes.len()
        invariant
            i <= quizzes@.len(),
            forall|k: int| 0 <= k < i ==> quizzes@[k].quiz_type@ != name@,
        decreases quizzes@.len() - i,
    {
        if same_text(quizzes[i].quiz_type.as_str(), name) {
            return Some(i);
        }
        i = i + 1;
    }
    None
}

/// What the standard configurations are called and ask for.
pub proof fn lemma_standard_quizzes(quizzes: Seq<QuizConfig>)
    requires
        config_views(quizzes) == standard_quizzes(),
    ensures
        quizzes.len() == 4,
        quizzes[0].quiz_type@ == "programming"@,
        quizzes[1].quiz_type@ == "math"@,
        quizzes[2].quiz_type@ == "blockchain"@,
        quizzes[3].quiz_type@ == "security"@,
        quizzes[0].passing_score == (Ratio { num: 6, den: 10 }),
        quizzes[1].passing_score == (Ratio { num: 7, den: 10 }),
        quizzes[2].passing_score == (Ratio { num: 6, den: 10 }),
        quizzes[3].passing_score == (Ratio { num: 8, den: 10 }),
        forall|k: int| 0 <= k < 4 ==> (#[trigger] quizzes[k]).questions@.len() == 3,
{
    let views = config_views(quizzes);
    assert(views.len() == 4);
    assert(views[0] == quizzes[0]@);
    assert(views[1] == quizzes[1]@);
    assert(views[2] == quizzes[2]@);
    assert(views[3] == quizzes[3]@);
    assert forall|k: int| 0 <= k < 4 implies (#[trigger] quizzes[k]).questions@.len() == 3 by {
        assert(views[k] == quizzes[k]@);
        assert(views[k].questions.len() == 3);
    }
}

/// The passing score of the quiz type `topic`.
pub fn passing_score_in(quizzes: &Vec<QuizConfig>, topic: &str) -> (score: Ratio)
    requires
        config_views(quizzes@) == standard_quizzes(),
    ensures
        score == passing_score(topic@),
        score.num <= 10,
        score.den == 10,
{
    proof {
        lemma_standard_quizzes(quizzes@);
        reveal_strlit("programming");
        reveal_strlit("math");
        assert("programming"@.len() != "math"@.len());
    }
    match find_config(quizzes, topic) {
        Some(i) => quizzes[i].passing_score,
        None => {
            let fallback = find_config(quizzes, "math");
            quizzes[fallback.unwrap()].passing_score
        },
    }
}

impl MobileFHE {
    /// The table of running sessions: each identifier with its session.
    pub open spec fn sessions(&self) -> Map<Seq<char>, SessionView> {
        session_map(self.user_sessions@)
    }

    /// The engine holds the configurations of the four topics, and no session
    /// identifier twice.
    pub open spec fn wf(&self) -> bool {
        &&& config_views(self.quizzes@) == standard_quizzes()
        &&& entry_ids(self.user_sessions@).no_duplicates()
    }

    /// An engine with the four topics and no session.
    pub fn new() -> (engine: MobileFHE)
        ensures
            engine.wf(),
            engine.sessions() == Map::<Seq<char>, SessionView>::empty(),
            engine.user_sessions@.len() == 0,
    {
        let mut quizzes: Vec<QuizConfig> = Vec::new();
        quizzes.push(QuizConfig::programming_quiz());
        quizzes.push(QuizConfig::math_quiz());
        quizzes.push(QuizConfig::blockchain_quiz());
        quizzes.push(QuizConfig::security_quiz());
        let engine = MobileFHE { quizzes, user_sessions: Vec::new() };
        assert(config_views(engine.quizzes@) =~= standard_quizzes());
        assert(engine.sessions() =~= Map::<Seq<char>, SessionView>::empty());
        engine
    }

    /// The position of the session that runs under `session_id`.
    pub fn find_session(&self, session_id: &str) -> (found: Option<usize>)
        ensures
            match found {
                Some(i) => i < self.user_sessions@.len() && self.user_sessions@[i as int].id@
                    == session_id@,
                None => !entry_ids(self.user_sessions@).contains(session_id@),
            },
    {
        let mut i: usize = 0;
        while i < self.user_sessions.len()
            invariant
                i <= self.user_sessions@.len(),
                forall|k: int| 0 <= k < i ==> entry_ids(self.user_sessions@)[k] != session_id@,
            decreases self.user_sessions@.len() - i,
        {
            if same_text(self.user_sessions[i].id.as_str(), session_id) {
                return Some(i);
            }
            i = i + 1;
        }
        None
    }

    /// The names of the topics, in the order in which they are configured.
    pub fn get_available_quizzes(&self) -> (names: Vec<String>)
        requires
            self.wf(),
        ensures
            texts(names@) == topic_names(),
    {
        let mut names: Vec<String> = Vec::new();
        let mut i: usize = 0;
        while i < self.quizzes.len()
            invariant
                i <= self.quizzes@.len(),
                names@.len() == i,
                forall|k: int| 0 <= k < i ==> names@[k]@ == self.quizzes@[k].quiz_type@,
            decreases self.quizzes@.len() - i,
        {
            names.push(self.quizzes[i].quiz_type.clone());
            i = i + 1;
        }
        proof {
            lemma_standard_quizzes(self.quizzes@);
            assert(texts(names@) =~= topic_names());
        }
        names
    }

    /// The number of questions that a session of the named quiz type gets.
    pub fn question_count_for(&self, quiz_type: &str) -> (count: usize)
        requires
            self.wf(),
        ensures
            count == DEFAULT_QUESTION_COUNT,
    {
        proof {
            lemma_standard_quizzes(self.quizzes@);
        }
        match find_config(&self.quizzes, quiz_type) {
            Some(i) => self.quizzes[i].questions.len(),
            None => DEFAULT_QUESTION_COUNT,
        }
    }

    /// Stores `session` under `id`, in place of any session that ran under
    /// that identifier.
    pub fn insert_session(&mut self, id: String, session: UserSession)
        requires
            old(self).wf(),
        ensures
            final(self).wf(),
            final(self).sessions() == old(self).sessions().insert(id@, session@),
            final(self).quizzes == old(self).quizzes,
            final(self).user_sessions@.len() == if old(self).sessions().dom().contains(id@) {
                old(self).user_sessions@.len()
            } else {
                old(self).user_sessions@.len() + 1
            },
    {
        let ghost before = self.user_sessions@;
        match self.find_session(id.as_str()) {
            Some(i) => {
                self.user_sessions[i] = SessionEntry { id, session };
                proof {
                    let after = self.user_sessions@;
                    let wanted = session_map(before).insert(id@, session@);
                    assert(entry_ids(after) =~= entry_ids(before));
                    lemma_entry_lookup(before, i as int);
                    lemma_entry_lookup(after, i as int);
                    assert forall|key: Seq<char>|
                        session_map(after).dom().contains(key) implies #[trigger] session_map(
                        after,
                    )[key] == wanted[key] by {
                        let k = lemma_session_entry(after, key);
                        let k_before = lemma_session_entry(before, key);
                        assert(entry_ids(before)[k] == entry_ids(before)[k_before]);
                        if k != i {
                            assert(entry_ids(before)[k] != entry_ids(before)[i as int]);
                        }
                    }
                    assert(session_map(after) =~= wanted);
                }
            },
            None => {
                self.user_sessions.push(SessionEntry { id, session });
                proof {
                    let after = self.user_sessions@;
                    let wanted = session_map(before).insert(id@, session@);
                    let last = before.len() as int;
                    assert(entry_ids(after) =~= entry_ids(before).push(id@));
                    assert(entry_ids(after).no_duplicates());
                    assert(entry_ids(after)[last] == id@);
                    lemma_entry_lookup(after, last);
                    assert forall|key: Seq<char>| wanted.dom().contains(key) implies session_map(
                        after,
                    ).dom().contains(key) by {
                        if key != id@ {
                            let k = lemma_session_entry(before, key);
                            assert(entry_ids(after)[k] == key);
                        }
                    }
                    assert forall|key: Seq<char>|
                        session_map(after).dom().contains(key) implies wanted.dom().contains(key)
                        && #[trigger] session_map(after)[key] == wanted[key] by {
                        let k = lemma_session_entry(after, key);
                        if k < last {
                            assert(entry_ids(before)[k] == key);
                            lemma_entry_lookup(before, k);
                        }
                    }
                    assert(session_map(after) =~= wanted);
                }
            },
        }
    }

    /// Begins a session for `user_id` on the named quiz type and returns the
    /// identifier under which it runs.
    pub fn create_user_session(&mut self, user_id: String, quiz_type: String) -> (session_id:
        String)
        requires
            old(self).wf(),
        ensures
            final(self).wf(),
            final(self).quizzes == old(self).quizzes,
            exists|suffix: u32| session_id@ == #[trigger] session_id_of(user_id@, quiz_type@, suffix),
            final(self).sessions().dom().contains(session_id@),
            final(self).sessions()[session_id@].is_fresh_for(
                user_id@,
                quiz_type@,
                DEFAULT_QUESTION_COUNT as int,
            ),
            final(self).sessions() == old(self).sessions().insert(
                session_id@,
                final(self).sessions()[session_id@],
            ),
    {
        let suffix = random_u32();
        let mut session_id = user_id.clone();
        session_id.append("_");
        session_id.append(quiz_type.as_str());
        session_id.append("_");
        session_id.append(decimal_string(suffix as u64).as_str());
        assert(session_id@ == session_id_of(user_id@, quiz_type@, suffix));
        let question_count = self.question_count_for(quiz_type.as_str());
        let session = UserSession::new(user_id, quiz_type.as_str(), question_count);
        self.insert_session(session_id.clone(), session);
        session_id
    }

    /// Begins a session for `user_id` on the named quiz type and returns its
    /// identifier with its questions as the candidate sees them: without the
    /// position of the correct option.
    pub fn create_session(&mut self, user_id: String, quiz_type: String) -> (start: SessionStart)
        requires
            old(self).wf(),
        ensures
            final(self).wf(),
            final(self).quizzes == old(self).quizzes,
            exists|suffix: u32|
                start.session_id@ == #[trigger] session_id_of(user_id@, quiz_type@, suffix),
            final(self).sessions().dom().contains(start.session_id@),
            final(self).sessions()[start.session_id@].is_fresh_for(
                user_id@,
                quiz_type@,
                DEFAULT_QUESTION_COUNT as int,
            ),
            final(self).sessions() == old(self).sessions().insert(
                start.session_id@,
                final(self).sessions()[start.session_id@],
            ),
            display_views(start.questions@) == displayed_all(
                final(self).sessions()[start.session_id@].questions,
            ),
    {
        let session_id = self.create_user_session(user_id, quiz_type);
        let stored = self.get_session_questions(session_id.as_str()).unwrap();
        let mut questions: Vec<QuestionDisplay> = Vec::new();
        let mut k: usize = 0;
        while k < stored.len()
            invariant
                k <= stored@.len(),
                questions@.len() == k,
                display_views(questions@) =~= displayed_all(question_views(stored@)).take(k as int),
            decreases stored@.len() - k,
        {
            questions.push(stored[k].display());
            k = k + 1;
        }
        assert(displayed_all(question_views(stored@)).take(k as int) =~= displayed_all(
            question_views(stored@),
        ));
        SessionStart { session_id, questions }
    }

    /// A copy of the questions of the session that runs under `session_id`.
    pub fn get_session_questions(&self, session_id: &str) -> (questions: Option<
        Vec<DynamicQuestion>,
    >)
        requires
            self.wf(),
        ensures
            match questions {
                Some(list) => self.sessions().dom().contains(session_id@) && question_views(list@)
                    == self.sessions()[session_id@].questions,
                None => !self.sessions().dom().contains(session_id@),
            },
    {
        match self.find_session(session_id) {
            Some(i) => {
                proof {
                    lemma_entry_lookup(self.user_sessions@, i as int);
                }
                let stored = &self.user_sessions[i].session.questions;
                let mut list: Vec<DynamicQuestion> = Vec::new();
                let mut k: usize = 0;
                while k < stored.len()
                    invariant
                        k <= stored@.len(),
                        list@.len() == k,
                        question_views(list@) =~= question_views(stored@).take(k as int),
                    decreases stored@.len() - k,
                {
                    list.push(stored[k].clone());
                    k = k + 1;
                }
                assert(question_views(stored@).take(k as int) =~= question_views(stored@));
                Some(list)
            },
            None => None,
        }
    }

    /// Takes a report into the record of the session that runs under
    /// `session_id`: appends each answer time and counts each answer that was
    /// changed at least once. An unknown session, or a report too long to take,
    /// changes nothing.
    pub fn record_telemetry(
        &mut self,
        session_id: &str,
        times: &Vec<u32>,
        switch_counts: &Vec<u32>,
    ) -> (result: Result<(), EvaluationError>)
        requires
            old(self).wf(),
        ensures
            final(self).wf(),
            final(self).quizzes == old(self).quizzes,
            final(self).user_sessions@.len() == old(self).user_sessions@.len(),
            match result {
                Ok(_) => {
                    &&& old(self).sessions().dom().contains(session_id@)
                    &&& times@.len() <= MAX_SAMPLES
                    &&& old(self).sessions()[session_id@].has_room_for(switch_counts@)
                    &&& final(self).sessions() == old(self).sessions().insert(
                        session_id@,
                        old(self).sessions()[session_id@].with_telemetry(times@, switch_counts@),
                    )
                },
                Err(EvaluationError::SessionNotFound) => {
                    &&& !old(self).sessions().dom().contains(session_id@)
                    &&& final(self).sessions() == old(self).sessions()
                },
                Err(EvaluationError::TelemetryTooLong) => {
                    &&& old(self).sessions().dom().contains(session_id@)
                    &&& !(times@.len() <= MAX_SAMPLES && old(
                        self,
                    ).sessions()[session_id@].has_room_for(switch_counts@))
                    &&& final(self).sessions() == old(self).sessions()
                },
            },
    {
        let index = match self.find_session(session_id) {
            Some(i) => i,
            None => {
                return Err(EvaluationError::SessionNotFound);
            },
        };
        let ghost before = self.user_sessions@;
        proof {
            lemma_entry_lookup(before, index as int);
        }
        if times.len() > MAX_SAMPLES || !self.user_sessions[index].session.has_room_for(
            switch_counts,
        ) {
            return Err(EvaluationError::TelemetryTooLong);
        }
        self.user_sessions[index].session.record_telemetry(times, switch_counts);
        let ghost after = self.user_sessions@;
        proof {
            let wanted = session_map(before).insert(session_id@, after[index as int].session@);
            assert(entry_ids(after) =~= entry_ids(before));
            lemma_entry_lookup(after, index as int);
            assert forall|key: Seq<char>|
                session_map(after).dom().contains(key) implies #[trigger] session_map(after)[key]
                == wanted[key] by {
                let k = lemma_session_entry(after, key);
                let k_before = lemma_session_entry(before, key);
                assert(entry_ids(before)[k] == entry_ids(before)[k_before]);
                if k != index {
                    assert(entry_ids(before)[k] != entry_ids(before)[index as int]);
                }
            }
            assert(session_map(after) =~= wanted);
        }
        Ok(())
    }

    /// Evaluates a submission: takes the reported behaviour into the session's
    /// record and gives the verdict on the answers, judged by everything the
    /// session then holds. An unknown session, or a report too long to take,
    /// changes nothing.
    pub fn evaluate_quiz_with_behavior(
        &mut self,
        session_id: &str,
        encrypted_answers: &Vec<String>,
        behavior_data: &BehaviorData,
    ) -> (result: Result<QuizResponse, EvaluationError>)
        requires
            old(self).wf(),
        ensures
            final(self).wf(),
            final(self).quizzes == old(self).quizzes,
            final(self).user_sessions@.len() == old(self).user_sessions@.len(),
            match result {
                Ok(response) => {
                    &&& old(self).sessions().dom().contains(session_id@)
                    &&& behavior_data.answer_times@.len() <= MAX_SAMPLES
                    &&& old(self).sessions()[session_id@].has_room_for(behavior_data.switch_counts@)
                    &&& final(self).sessions() == old(self).sessions().insert(
                        session_id@,
                        old(self).sessions()[session_id@].with_telemetry(
                            behavior_data.answer_times@,
                            behavior_data.switch_counts@,
                        ),
                    )
                    &&& exists|salt: u32, number: u32|
                        response@ == #[trigger] verdict_on(
                            final(self).sessions()[session_id@],
                            texts(encrypted_answers@),
                            behavior_data.answer_times@,
                            behavior_data.switch_counts@,
                            salt,
                            number,
                        )
                },
                Err(EvaluationError::SessionNotFound) => {
                    &&& !old(self).sessions().dom().contains(session_id@)
                    &&& final(self).sessions() == old(self).sessions()
                },
                Err(EvaluationError::TelemetryTooLong) => {
                    &&& old(self).sessions().dom().contains(session_id@)
                    &&& !(behavior_data.answer_times@.len() <= MAX_SAMPLES && old(
                        self,
                    ).sessions()[session_id@].has_room_for(behavior_data.switch_counts@))
                    &&& final(self).sessions() == old(self).sessions()
                },
            },
    {
        match self.record_telemetry(
            session_id,
            &behavior_data.answer_times,
            &behavior_data.switch_counts,
        ) {
            Ok(_) => {},
            Err(error) => {
                return Err(error);
            },
        }
        proof {
            assert(self.sessions().dom().contains(session_id@));
            assert(entry_ids(self.user_sessions@).contains(session_id@));
        }
        let index = self.find_session(session_id).unwrap();
        proof {
            lemma_entry_lookup(self.user_sessions@, index as int);
        }
        let salt = random_u32();
        let number = random_u32();
        let response = evaluate_session(
            &self.quizzes,
            &self.user_sessions[index].session,
            encrypted_answers,
            behavior_data,
            salt,
            number,
        );
        assert(response@ == verdict_on(
            self.sessions()[session_id@],
            texts(encrypted_answers@),
            behavior_data.answer_times@,
            behavior_data.switch_counts@,
            salt,
            number,
        ));
        Ok(response)
    }

    /// The state of the service: always `OK`, with the number of topics and of
    /// running sessions.
    pub fn health(&self) -> (report: HealthReport)
        ensures
            report.status@ == "OK"@,
            report.backend_version@ == "3.0.0"@,
            report.available_quizzes == self.quizzes@.len(),
            report.active_sessions == self.user_sessions@.len(),
    {
        HealthReport {
            status: String::from_str("OK"),
            backend_version: String::from_str("3.0.0"),
            available_quizzes: self.quizzes.len(),
            active_sessions: self.user_sessions.len(),
        }
    }
}

} // verus!
