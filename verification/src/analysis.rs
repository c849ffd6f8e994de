//! Descriptive statistics of the behaviour reported with one submission.

use crate::ratio::Ratio;
use crate::statistics::{
    largest, largest_of, lemma_extremes, smallest, smallest_of, spread, spread_of, sum_of, total,
    MAX_SAMPLES,
};
use vstd::prelude::*;

verus! {

/// The behaviour a client reports with a submission.
#[derive(Debug)]
pub struct BehaviorData {
    /// The time spent on each question, in seconds.
    pub answer_times: Vec<u32>,
    /// How often each answer was changed.
    pub switch_counts: Vec<u32>,
    pub start_time: u64,
    pub end_time: u64,
}

/// What the reported behaviour amounts to.
#[derive(Clone, Copy, Debug, PartialEq, Eq, Structural)]
pub struct BehaviorAnalysis {
    pub average_time: Ratio,
    pub time_consistency: Ratio,
    pub switch_frequency: Ratio,
    pub pattern_deviation: Ratio,
}

/// The fraction that stands where there is nothing to measure.
pub open spec fn zero() -> Ratio {
    Ratio { num: 0, den: 1 }
}

/// The arithmetic mean of the answer times; zero where there are none.
pub open spec fn average_time(times: Seq<u32>) -> Ratio {
    if times.len() == 0 {
        zero()
    } else {
        Ratio { num: total(times) as u128, den: times.len() as u128 }
    }
}

/// `1 / (1 + variance)` for the population variance `spread / n^2` of the `n`
/// answer times, which is `n^2 / (n^2 + spread)`; one where there are none.
pub open spec fn time_consistency(times: Seq<u32>) -> Ratio {
    if times.len() == 0 {
        Ratio { num: 1, den: 1 }
    } else {
        Ratio {
            num: (times.len() * times.len()) as u128,
            den: (times.len() * times.len() + spread(times)) as u128,
        }
    }
}

/// The changes of answers per question; zero where there is no question.
pub open spec fn switch_frequency(switch_counts: Seq<u32>, total_questions: int) -> Ratio {
    if total_questions == 0 {
        zero()
    } else {
        Ratio { num: total(switch_counts) as u128, den: total_questions as u128 }
    }
}

/// The distance between the longest and the shortest answer time, divided by
/// the mean `sum / n`, which is `(longest - shortest) * n / sum`; zero where
/// there are fewer than two answer times or the mean is zero.
pub open spec fn pattern_deviation(times: Seq<u32>) -> Ratio {
    if times.len() < 2 || total(times) == 0 {
        zero()
    } else {
        Ratio {
            num: ((largest(times) - smallest(times)) * times.len()) as u128,
            den: total(times) as u128,
        }
    }
}

/// The analysis of the reported answer times and changes of answers, on a quiz
/// of `total_questions` questions.
pub open spec fn analysis_of(
    times: Seq<u32>,
    switch_counts: Seq<u32>,
    total_questions: int,
) -> BehaviorAnalysis {
    BehaviorAnalysis {
        average_time: average_time(times),
        time_consistency: time_consistency(times),
        switch_frequency: switch_frequency(switch_counts, total_questions),
        pattern_deviation: pattern_deviation(times),
    }
}

/// Analyses the behaviour reported with a submission to a quiz of
/// `total_questions` questions. Every figure is exact; where a figure would
/// divide by zero it is zero (consistency: one).
pub fn analyze_behavior(behavior_data: &BehaviorData, total_questions: usize) -> (analysis:
    BehaviorAnalysis)
    requires
        behavior_data.answer_times@.len() <= MAX_SAMPLES,
    ensures
        analysis == analysis_of(
            behavior_data.answer_times@,
            behavior_data.switch_counts@,
            total_questions as int,
        ),
        analysis.average_time.wf(),
        analysis.time_consistency.wf(),
        analysis.switch_frequency.wf(),
        analysis.pattern_deviation.wf(),
{
    let times = &behavior_data.answer_times;
    let n = times.len() as u128;
    let switches = sum_of(&behavior_data.switch_counts);
    let switch_frequency = if total_questions == 0 {
        Ratio { num: 0, den: 1 }
    } else {
        Ratio { num: switches, den: total_questions as u128 }
    };
    if n == 0 {
        return BehaviorAnalysis {
            average_time: Ratio { num: 0, den: 1 },
            time_consistency: Ratio { num: 1, den: 1 },
            switch_frequency,
            pattern_deviation: Ratio { num: 0, den: 1 },
        };
    }
    let sum = sum_of(times);
    let spread = spread_of(times);
    proof {
        assert(0 < n * n <= 0xFFFF_FFFF * 0xFFFF_FFFF) by (nonlinear_arith)
            requires
                0 < n <= 0xFFFF_FFFF,
        ;
    }
    let squared = n * n;
    let pattern_deviation = if n < 2 || sum == 0 {
        Ratio { num: 0, den: 1 }
    } else {
        let low = smallest_of(times);
        let high = largest_of(times);
        proof {
            lemma_extremes(times@);
            assert(0 <= (high - low) * n <= 0xFFFF_FFFF * 0xFFFF_FFFF) by (nonlinear_arith)
                requires
                    0 <= high - low <= 0xFFFF_FFFF,
                    0 < n <= 0xFFFF_FFFF,
            ;
        }
        Ratio { num: ((high - low) as u128) * n, den: sum }
    };
    BehaviorAnalysis {
        average_time: Ratio { num: sum, den: n },
        time_consistency: Ratio { num: squared, den: squared + spread },
        switch_frequency,
        pattern_deviation,
    }
}

} // verus!
