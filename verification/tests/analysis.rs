use quiz_engine::analysis::analyze_behavior;
use quiz_engine::{BehaviorData, Ratio};

fn report(times: &[u32], switches: &[u32]) -> BehaviorData {
    BehaviorData {
        answer_times: times.to_vec(),
        switch_counts: switches.to_vec(),
        start_time: 0,
        end_time: 0,
    }
}

fn as_float(r: Ratio) -> f64 {
    r.num as f64 / r.den as f64
}

#[test]
fn analysis_of_ten_twenty_thirty() {
    let analysis = analyze_behavior(&report(&[10, 20, 30], &[1, 0, 2]), 3);
    assert_eq!(analysis.average_time, Ratio { num: 60, den: 3 });
    assert_eq!(as_float(analysis.average_time), 20.0);
    // variance 600 / 9 = 66.67, consistency 9 / 609
    assert_eq!(analysis.time_consistency, Ratio { num: 9, den: 609 });
    let variance = 600.0 / 9.0;
    assert!((variance - 66.67f64).abs() < 0.01);
    assert!((as_float(analysis.time_consistency) - 1.0 / (1.0 + variance)).abs() < 1e-12);
    assert!((as_float(analysis.time_consistency) - 0.0148).abs() < 0.0001);
    assert_eq!(analysis.pattern_deviation, Ratio { num: 60, den: 60 });
    assert_eq!(as_float(analysis.pattern_deviation), 1.0);
    assert_eq!(analysis.switch_frequency, Ratio { num: 3, den: 3 });
}

#[test]
fn empty_report_gives_neutral_figures() {
    let analysis = analyze_behavior(&report(&[], &[]), 3);
    assert_eq!(analysis.average_time, Ratio { num: 0, den: 1 });
    assert_eq!(analysis.time_consistency, Ratio { num: 1, den: 1 });
    assert_eq!(analysis.pattern_deviation, Ratio { num: 0, den: 1 });
    assert_eq!(analysis.switch_frequency, Ratio { num: 0, den: 3 });
}

#[test]
fn no_questions_give_no_switch_frequency() {
    let analysis = analyze_behavior(&report(&[4], &[2, 2]), 0);
    assert_eq!(analysis.switch_frequency, Ratio { num: 0, den: 1 });
    let analysis = analyze_behavior(&report(&[4], &[2, 2]), 8);
    assert_eq!(analysis.switch_frequency, Ratio { num: 4, den: 8 });
    assert_eq!(as_float(analysis.switch_frequency), 0.5);
}

#[test]
fn single_sample_has_no_deviation() {
    let analysis = analyze_behavior(&report(&[7], &[]), 1);
    assert_eq!(analysis.average_time, Ratio { num: 7, den: 1 });
    assert_eq!(analysis.time_consistency, Ratio { num: 1, den: 1 });
    assert_eq!(analysis.pattern_deviation, Ratio { num: 0, den: 1 });
}

#[test]
fn all_zero_times_do_not_divide_by_zero() {
    let analysis = analyze_behavior(&report(&[0, 0, 0], &[]), 3);
    assert_eq!(analysis.average_time, Ratio { num: 0, den: 3 });
    assert_eq!(analysis.time_consistency, Ratio { num: 9, den: 9 });
    assert_eq!(analysis.pattern_deviation, Ratio { num: 0, den: 1 });
}

#[test]
fn equal_times_are_fully_consistent() {
    let analysis = analyze_behavior(&report(&[5, 5, 5, 5], &[]), 4);
    assert_eq!(analysis.time_consistency, Ratio { num: 16, den: 16 });
    assert_eq!(as_float(analysis.time_consistency), 1.0);
    assert_eq!(analysis.pattern_deviation, Ratio { num: 0, den: 20 });
}

#[test]
fn largest_samples_are_analysed_without_overflow() {
    let big = u32::MAX;
    let analysis = analyze_behavior(&report(&[0, big], &[big, big]), 2);
    assert_eq!(analysis.average_time, Ratio { num: big as u128, den: 2 });
    let spread = (big as u128) * (big as u128);
    assert_eq!(analysis.time_consistency, Ratio { num: 4, den: 4 + spread });
    assert_eq!(analysis.pattern_deviation, Ratio { num: 2 * (big as u128), den: big as u128 });
    assert_eq!(analysis.switch_frequency, Ratio { num: 2 * (big as u128), den: 2 });
}
