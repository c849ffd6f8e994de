//! Question generation, session bookkeeping and behaviour scoring for a quiz
//! assessment service.
//!
//! A session draws its questions at random ([`math_questions`],
//! [`programming_questions`], [`canned_questions`]), shuffles the options of
//! each ([`shuffle`]) and keeps the position of the correct one
//! ([`question`]). A submission is graded ([`grading`]), the behaviour reported
//! with it is analysed ([`analysis`]) and, together with everything recorded
//! before, scored for the likelihood of cheating ([`session`]). The
//! [`engine`] holds the sessions and puts the verdict together.
//!
//! Every fractional quantity is held as an exact [`ratio::Ratio`] of two
//! integers, and every comparison with a threshold is made on integers; a
//! caller that needs floating point divides the numerator by the denominator
//! at its own edge.
//!
//! Random numbers come from the `rand` crate through [`random`]; each function
//! that draws has a sibling that takes what was drawn as arguments and is
//! specified exactly.

pub mod analysis;
pub mod canned_questions;
pub mod clock;
pub mod engine;
pub mod grading;
pub mod math_questions;
pub mod programming_questions;
pub mod question;
pub mod quiz_types;
pub mod random;
pub mod ratio;
pub mod session;
pub mod shuffle;
pub mod statistics;
pub mod text;
pub mod tokens;
pub mod topic;

pub use crate::analysis::{BehaviorAnalysis, BehaviorData};
pub use crate::engine::{EvaluationError, HealthReport, MobileFHE, QuizResponse, SessionStart};
pub use crate::question::{DynamicQuestion, QuestionDisplay};
pub use crate::quiz_types::{Question, QuizConfig};
pub use crate::ratio::Ratio;
pub use crate::session::{BehaviorMetrics, UserSession};
