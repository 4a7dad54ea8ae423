use fhirpath_runner::stats::{sort_samples, isqrt, StatisticalSummary};

#[test]
fn sort_orders_and_keeps_elements() {
    let sorted = sort_samples(&vec![5, 1, 4, 1, 3]);
    assert_eq!(sorted, vec![1, 1, 3, 4, 5]);
}

#[test]
fn isqrt_exact_squares_and_floors() {
    assert_eq!(isqrt(0), 0);
    assert_eq!(isqrt(1), 1);
    assert_eq!(isqrt(2000000), 1414);
    assert_eq!(isqrt(144), 12);
    assert_eq!(isqrt(143), 11);
}

#[test]
fn calculate_odd_count_exact_values() {
    let s = StatisticalSummary::calculate(&vec![1, 2, 3, 4, 5]);
    assert_eq!(s.mean, 3000);
    assert_eq!(s.median, 3000);
    // population variance 2.0, scaled: isqrt(2_000_000) = 1414
    assert_eq!(s.std_dev, 1414);
    assert_eq!(s.min, 1000);
    assert_eq!(s.max, 5000);
    assert_eq!(s.percentile_95, 4800);
    assert_eq!(s.percentile_99, 4960);
}

#[test]
fn median_even_count_averages_middle_pair() {
    let s = StatisticalSummary::calculate(&vec![4, 1, 3, 2]);
    assert_eq!(s.median, 2500);
}

#[test]
fn median_matches_reference_sort_and_index() {
    // reference definition: sort, then middle element or mean of the two
    // middle elements
    let samples: Vec<u64> = vec![17, 2, 9, 33, 4, 25, 11];
    let mut sorted = samples.clone();
    sorted.sort();
    let n = sorted.len();
    let reference = if n % 2 == 1 {
        sorted[n / 2] * 1000
    } else {
        (sorted[n / 2 - 1] + sorted[n / 2]) * 500
    };
    let s = StatisticalSummary::calculate(&samples);
    assert_eq!(s.median, reference);
}

#[test]
fn percentile_100_is_max_and_0_is_min() {
    let sorted: Vec<u64> = vec![3, 8, 20, 21, 44];
    assert_eq!(StatisticalSummary::percentile(&sorted, 100), 44000);
    assert_eq!(StatisticalSummary::percentile(&sorted, 0), 3000);
}

#[test]
fn percentile_interpolates_between_ranks() {
    let sorted: Vec<u64> = vec![10, 20];
    // index 0.5: halfway between the two samples
    assert_eq!(StatisticalSummary::percentile(&sorted, 50), 15000);
}

#[test]
fn std_dev_of_identical_values_is_zero() {
    let s = StatisticalSummary::calculate(&vec![7, 7, 7, 7]);
    assert_eq!(s.std_dev, 0);
    assert_eq!(s.mean, 7000);
    assert_eq!(s.median, 7000);
}

#[test]
fn empty_input_yields_all_zero_statistics() {
    let s = StatisticalSummary::calculate(&Vec::new());
    assert_eq!(s.mean, 0);
    assert_eq!(s.median, 0);
    assert_eq!(s.std_dev, 0);
    assert_eq!(s.percentile_95, 0);
    assert_eq!(s.percentile_99, 0);
    assert_eq!(s.min, 0);
    assert_eq!(s.max, 0);
}

#[test]
fn percentile_of_empty_is_zero() {
    assert_eq!(StatisticalSummary::percentile(&Vec::new(), 95), 0);
}
