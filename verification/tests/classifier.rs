use quiz_engine::session::{changed_answers_of, cheating_likelihood};
use quiz_engine::statistics::{
    count_below_of, has_variance_below_one, largest_of, shifted_squares_of, smallest_of,
    spread_of, sum_of,
};
use quiz_engine::{Ratio, UserSession};

fn tenths(times: &[u32], switch_count: u32, question_count: usize) -> u128 {
    let r = cheating_likelihood(&times.to_vec(), switch_count, question_count);
    assert_eq!(r.den, 10);
    r.num
}

fn as_float(r: Ratio) -> f64 {
    r.num as f64 / r.den as f64
}

// variance < 1 computed the plain way, which is safe for short lists
fn plain_variance_below_one(times: &[u32]) -> bool {
    let n = times.len() as i128;
    let sum: i128 = times.iter().map(|t| *t as i128).sum();
    let squares: i128 = times.iter().map(|t| (*t as i128) * (*t as i128)).sum();
    n * squares - sum * sum < n * n
}

#[test]
fn fast_answers_raise_the_speed_anomaly() {
    // all below three seconds; ten questions, nothing switched
    let score = tenths(&[1, 1, 1, 1, 1], 0, 10);
    assert!(score >= 4);
    // the five equal times are uniform as well
    assert_eq!(score, 7);
}

#[test]
fn speed_anomaly_alone_scores_four_tenths() {
    // three of five below three seconds, widely spread times
    assert_eq!(tenths(&[1, 2, 1, 50, 90], 0, 10), 4);
    // exactly half is not more than half
    assert_eq!(tenths(&[1, 2, 50, 90], 0, 10), 0);
    // three seconds is not below three seconds
    assert_eq!(tenths(&[3, 3, 3, 90], 0, 10), 0);
}

#[test]
fn uniform_times_score_three_tenths() {
    let score = tenths(&[10, 10, 10, 10], 0, 10);
    assert!(score >= 3);
    assert_eq!(score, 3);
}

#[test]
fn full_switching_scores_two_tenths() {
    let score = tenths(&[10, 20, 30, 40], 4, 4);
    assert!(score >= 2);
    assert_eq!(score, 2);
}

#[test]
fn switching_counts_only_above_four_fifths() {
    // 4 of 5 is exactly 0.8: not above
    assert_eq!(tenths(&[10, 20, 30, 40], 4, 5), 0);
    // 5 of 6 is above
    assert_eq!(tenths(&[10, 20, 30, 40], 5, 6), 2);
    // switches on a quiz without questions
    assert_eq!(tenths(&[10, 20, 30, 40], 1, 0), 2);
    assert_eq!(tenths(&[10, 20, 30, 40], 0, 0), 0);
}

#[test]
fn fast_uniform_complete_session_reaches_one() {
    // speed 0.4 + uniform 0.3 + fast completion 0.3
    assert_eq!(tenths(&[2, 2, 2, 2], 0, 4), 10);
}

#[test]
fn all_signals_together_are_capped_at_one() {
    // 0.4 + 0.3 + 0.2 + 0.3 = 1.2, capped
    assert_eq!(tenths(&[1, 1, 1, 1], 4, 4), 10);
}

#[test]
fn fast_completion_needs_every_question_answered() {
    // mean 4, spread wide, two of four below three seconds: only fast completion
    assert_eq!(tenths(&[1, 1, 7, 7], 0, 4), 3);
    assert_eq!(tenths(&[1, 1, 7, 7], 0, 5), 0);
    // a mean of exactly five is not below five
    assert_eq!(tenths(&[1, 1, 9, 9], 0, 4), 0);
}

#[test]
fn no_answer_times_score_zero() {
    assert_eq!(tenths(&[], 0, 0), 0);
    assert_eq!(tenths(&[], 100, 1), 0);
    assert_eq!(tenths(&[], u32::MAX, 3), 0);
    let r = cheating_likelihood(&Vec::new(), 7, 3);
    assert_eq!(as_float(r), 0.0);
}

#[test]
fn score_is_never_above_one() {
    let lists: [&[u32]; 6] =
        [&[0], &[1, 1], &[2, 2, 2], &[0, 5, 0], &[100, 1, 1, 1], &[4, 4, 4, 4, 4, 4]];
    for times in lists {
        for switch_count in [0u32, 1, 3, 50] {
            for question_count in [0usize, 1, 2, 3, 4, 6] {
                assert!(tenths(times, switch_count, question_count) <= 10);
            }
        }
    }
}

#[test]
fn session_scores_its_own_record() {
    let mut session = UserSession::new("ann".to_string(), "math", 4);
    assert_eq!(session.calculate_cheating_likelihood(), Ratio { num: 0, den: 10 });
    for _ in 0..4 {
        session.add_answer_time(1);
        session.increment_switch_count();
    }
    assert_eq!(session.behavior_metrics.answer_times, vec![1, 1, 1, 1]);
    assert_eq!(session.behavior_metrics.switch_count, 4);
    assert_eq!(session.calculate_cheating_likelihood(), Ratio { num: 10, den: 10 });
}

#[test]
fn session_scores_accumulated_record() {
    let mut session = UserSession::new("ann".to_string(), "math", 3);
    session.record_telemetry(&vec![10, 20], &vec![0, 2]);
    session.record_telemetry(&vec![30], &vec![5, 0, 1]);
    assert_eq!(session.behavior_metrics.answer_times, vec![10, 20, 30]);
    assert_eq!(session.behavior_metrics.switch_count, 3);
    // 3 switches on 3 questions: only the switching signal
    assert_eq!(session.calculate_cheating_likelihood(), Ratio { num: 2, den: 10 });
}

#[test]
fn variance_below_one_on_known_lists() {
    assert!(has_variance_below_one(&vec![5]));
    assert!(has_variance_below_one(&vec![10, 10, 10, 10]));
    assert!(has_variance_below_one(&vec![1, 1, 1, 2]));
    // mean 0.3, variance 0.81
    assert!(has_variance_below_one(&vec![0, 0, 0, 0, 0, 0, 0, 0, 0, 3]));
    // mean 0.75, variance 1.6875
    assert!(!has_variance_below_one(&vec![0, 0, 0, 3]));
    // variance exactly one
    assert!(!has_variance_below_one(&vec![1, 3]));
    assert!(!has_variance_below_one(&vec![10, 20, 30]));
    assert!(!has_variance_below_one(&Vec::new()));
}

#[test]
fn variance_below_one_agrees_with_the_plain_formula() {
    let big = u32::MAX;
    let lists: Vec<Vec<u32>> = vec![
        vec![0],
        vec![big],
        vec![big, big, big],
        vec![big, big - 1, big],
        vec![big, big - 1, big - 2],
        vec![0, big],
        vec![0, 1],
        vec![0, 2],
        vec![7, 7, 8, 8],
        vec![7, 7, 8, 9],
        vec![7, 8, 9],
        vec![2, 2, 2, 2, 2, 2, 2, 2, 2, 2, 2, 5],
        vec![2, 2, 2, 2, 2, 2, 2, 2, 2, 2, 2, 6],
        vec![100, 100, 101, 101, 100, 99],
        vec![100, 100, 102, 101, 100, 98],
    ];
    for times in &lists {
        assert_eq!(has_variance_below_one(times), plain_variance_below_one(times), "{:?}", times);
    }
    for a in 0..6u32 {
        for b in 0..6u32 {
            for c in 0..6u32 {
                for d in 0..6u32 {
                    let times = vec![a, b, c, d];
                    assert_eq!(
                        has_variance_below_one(&times),
                        plain_variance_below_one(&times),
                        "{:?}",
                        times
                    );
                }
            }
        }
    }
}

#[test]
fn sums_and_extremes() {
    let times = vec![10, 20, 30];
    assert_eq!(sum_of(&times), 60);
    assert_eq!(spread_of(&times), 600);
    assert_eq!(shifted_squares_of(&times, 20), 200);
    assert_eq!(shifted_squares_of(&times, 0), 1400);
    assert_eq!(smallest_of(&times), 10);
    assert_eq!(largest_of(&times), 30);
    assert_eq!(count_below_of(&times, 20), 1);
    assert_eq!(count_below_of(&times, 31), 3);
    assert_eq!(sum_of(&Vec::new()), 0);
    assert_eq!(spread_of(&Vec::new()), 0);
    assert_eq!(sum_of(&vec![u32::MAX, u32::MAX]), 2 * (u32::MAX as u128));
    assert_eq!(spread_of(&vec![0, u32::MAX]), (u32::MAX as u128) * (u32::MAX as u128));
    assert_eq!(smallest_of(&vec![3, 1, 2]), 1);
    assert_eq!(largest_of(&vec![3, 9, 2]), 9);
    assert_eq!(smallest_of(&vec![0]), 0);
    assert_eq!(largest_of(&vec![0]), 0);
}

#[test]
fn changed_answers_are_those_switched_at_least_once() {
    assert_eq!(changed_answers_of(&vec![0, 3, 0, 1, 7]), 3);
    assert_eq!(changed_answers_of(&vec![0, 0]), 0);
    assert_eq!(changed_answers_of(&Vec::new()), 0);
}
