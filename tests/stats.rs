use set_evals::stats::{gpa_mean, hours_mean, hours_weights, HoursCounts, StatsError, WeightedMean};

#[test]
fn hours_weights_for_four_buckets() {
    assert_eq!(hours_weights(4), Ok(vec![0, 5, 10, 15]));
}

#[test]
fn hours_weights_for_eleven_buckets() {
    assert_eq!(hours_weights(11), Ok(vec![1, 3, 5, 7, 9, 11, 13, 15, 17, 19, 21]));
}

#[test]
fn hours_weights_refuse_other_lengths() {
    for len in [0usize, 1, 3, 5, 7, 10, 12] {
        assert_eq!(hours_weights(len), Err(StatsError::UnrecognizedShape { len }));
    }
}

#[test]
fn hours_mean_short_scale() {
    // (1*0 + 2*5 + 3*10 + 4*15) / 10 = 100 / 10
    let m = hours_mean(&vec![1, 2, 3, 4]).unwrap();
    assert_eq!(m, WeightedMean::Ratio { points: 100, responses: 10 });
    assert_eq!(m.hundredths(), 1000);
}

#[test]
fn hours_mean_long_scale() {
    // (2*1 + 1*21) / 3 = 23 / 3 = 7.67
    let m = hours_mean(&vec![2, 0, 0, 0, 0, 0, 0, 0, 0, 0, 1]).unwrap();
    assert_eq!(m, WeightedMean::Ratio { points: 23, responses: 3 });
    assert_eq!(m.hundredths(), 767);
}

#[test]
fn hours_mean_unrecognized_shape() {
    assert_eq!(hours_mean(&vec![1, 2, 3]), Err(StatsError::UnrecognizedShape { len: 3 }));
    assert_eq!(hours_mean(&vec![]), Err(StatsError::UnrecognizedShape { len: 0 }));
}

#[test]
fn hours_mean_without_responses_is_sentinel() {
    let m = hours_mean(&vec![0, 0, 0, 0]).unwrap();
    assert!(m.is_no_data());
    assert_eq!(m.hundredths(), -100);
}

#[test]
fn gpa_of_all_zero_distribution_is_sentinel() {
    for len in [0usize, 1, 5, 7] {
        let m = gpa_mean(&vec![0; len]);
        assert_eq!(m, WeightedMean::NoData);
        assert_eq!(m.hundredths(), -100);
    }
}

#[test]
fn gpa_of_a_and_b_grades() {
    // (10*4 + 5*3) / (10 + 5) = 55 / 15 = 3.67
    let m = gpa_mean(&vec![10, 5, 0, 0, 0, 0, 0]);
    assert_eq!(m, WeightedMean::Ratio { points: 55, responses: 15 });
    assert_eq!(m.hundredths(), 367);
    if let WeightedMean::Ratio { points, responses } = m {
        let shown = format!("{:.2}", points as f64 / responses as f64);
        assert_eq!(shown, "3.67");
    }
}

#[test]
fn gpa_ignores_pass_no_pass_buckets() {
    // F counts as a response with weight 0; P and NP count for nothing.
    let m = gpa_mean(&vec![1, 1, 1, 1, 1, 50, 50]);
    assert_eq!(m, WeightedMean::Ratio { points: 10, responses: 5 });
    assert_eq!(m.hundredths(), 200);
}

#[test]
fn gpa_with_only_pass_no_pass_is_sentinel() {
    assert_eq!(gpa_mean(&vec![0, 0, 0, 0, 0, 3, 4]), WeightedMean::NoData);
}

#[test]
fn gpa_of_short_distribution() {
    assert_eq!(gpa_mean(&vec![0, 0, 2]), WeightedMean::Ratio { points: 4, responses: 2 });
}

#[test]
fn hours_counts_are_tagged_by_length() {
    let short = HoursCounts::from_counts(vec![0, 0, 1, 1]).unwrap();
    assert!(matches!(short, HoursCounts::Short(_)));
    assert_eq!(short.mean(), WeightedMean::Ratio { points: 25, responses: 2 });
    let long = HoursCounts::from_counts(vec![0; 11]).unwrap();
    assert!(matches!(long, HoursCounts::Long(_)));
    assert_eq!(long.mean(), WeightedMean::NoData);
    assert_eq!(
        HoursCounts::from_counts(vec![1; 6]),
        Err(StatsError::UnrecognizedShape { len: 6 })
    );
}

#[test]
fn rounding_is_half_up() {
    // 1 / 8 = 0.125 shows as 0.13
    assert_eq!(WeightedMean::Ratio { points: 1, responses: 8 }.hundredths(), 13);
}
