use eels_escalators::stats::{median, summarize, total_rounds, Summary};

#[test]
fn median_is_the_upper_middle() {
    assert_eq!(median(&mut [7]), Some(7));
    assert_eq!(median(&mut [1, 2]), Some(2));
    assert_eq!(median(&mut [1, 2, 3]), Some(2));
    assert_eq!(median(&mut [1, 2, 3, 10]), Some(3));
    assert_eq!(median(&mut [1, 2, 3, 10, 11]), Some(3));
}

#[test]
fn no_counts_have_no_median() {
    assert_eq!(median(&mut []), None);
}

#[test]
fn median_leaves_the_counts_alone() {
    let mut counts = [4, 5, 6];
    assert_eq!(median(&mut counts), Some(5));
    assert_eq!(counts, [4, 5, 6]);
}

#[test]
fn total_is_the_sum() {
    assert_eq!(total_rounds(&[]), 0);
    assert_eq!(total_rounds(&[5, 3, 9, 1]), 18);
    assert_eq!(total_rounds(&[u64::MAX, u64::MAX, 2]), 2 * (u64::MAX as u128) + 2);
}

#[test]
fn summary_of_some_counts() {
    let mut counts = vec![5, 3, 9, 1];
    let summary = summarize(&mut counts);
    assert_eq!(counts, vec![1, 3, 5, 9]);
    assert_eq!(summary, Some(Summary { instances: 4, total: 18, min: 1, median: 5, max: 9 }));
}

#[test]
fn summary_of_one_count() {
    let mut counts = vec![12];
    assert_eq!(
        summarize(&mut counts),
        Some(Summary { instances: 1, total: 12, min: 12, median: 12, max: 12 })
    );
}

#[test]
fn no_counts_have_no_summary() {
    let mut counts: Vec<u64> = Vec::new();
    assert_eq!(summarize(&mut counts), None);
}

#[test]
fn summary_keeps_equal_counts() {
    let mut counts = vec![4, 4, 2, 4, 2];
    let summary = summarize(&mut counts).unwrap();
    assert_eq!(counts, vec![2, 2, 4, 4, 4]);
    assert_eq!(summary, Summary { instances: 5, total: 16, min: 2, median: 4, max: 4 });
    let mean = summary.total as f64 / summary.instances as f64;
    assert!(summary.min as f64 <= mean && mean <= summary.max as f64);
}
