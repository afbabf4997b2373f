use gitgud_greedy::aggregate::{
    aggregate_pairs, average_cents, percent_hundredths, total, Bucket, KeyedAmount,
};

fn ka(key: i32, amount: i64) -> KeyedAmount {
    KeyedAmount { key, amount }
}

#[test]
fn scenario_three_rows_two_tags() {
    // rows [{tag:1, amount:10}, {tag:1, amount:20}, {tag:2, amount:5}] in cents
    let rows = vec![ka(1, 1000), ka(1, 2000), ka(2, 500)];
    let buckets = aggregate_pairs(&rows);
    assert_eq!(
        buckets,
        vec![
            Bucket { key: 1, count: 2, sum: 3000 },
            Bucket { key: 2, count: 1, sum: 500 },
        ]
    );
    assert_eq!(total(&rows), 3500);
    assert_eq!(buckets[0].avg(), Some(1500));
    assert_eq!(buckets[1].avg(), Some(500));
}

#[test]
fn bucket_sums_partition_total() {
    let rows = vec![ka(3, 700), ka(1, -200), ka(3, 50), ka(2, 1), ka(1, 9)];
    let buckets = aggregate_pairs(&rows);
    let bucket_total: i64 = buckets.iter().map(|b| b.sum).sum();
    assert_eq!(bucket_total, total(&rows));
    let bucket_count: usize = buckets.iter().map(|b| b.count).sum();
    assert_eq!(bucket_count, rows.len());
}

#[test]
fn buckets_are_sorted_whatever_the_input_order() {
    let rows = vec![ka(9, 1), ka(-4, 2), ka(0, 3), ka(9, 4)];
    let buckets = aggregate_pairs(&rows);
    assert_eq!(
        buckets,
        vec![
            Bucket { key: -4, count: 1, sum: 2 },
            Bucket { key: 0, count: 1, sum: 3 },
            Bucket { key: 9, count: 2, sum: 5 },
        ]
    );
}

#[test]
fn rerunning_aggregation_is_deterministic() {
    let rows = vec![ka(2, 10), ka(1, 20), ka(2, 30)];
    assert_eq!(aggregate_pairs(&rows), aggregate_pairs(&rows));
}

#[test]
fn empty_input_yields_no_buckets_and_no_average() {
    let rows: Vec<KeyedAmount> = Vec::new();
    assert_eq!(aggregate_pairs(&rows), Vec::new());
    assert_eq!(total(&rows), 0);
    assert_eq!(average_cents(12345, 0), None);
}

#[test]
fn average_rounds_toward_zero() {
    assert_eq!(average_cents(7, 2), Some(3));
    assert_eq!(average_cents(-7, 2), Some(-3));
    assert_eq!(average_cents(-5, 2), Some(-2));
}

#[test]
fn percent_of_total() {
    // 30 of 35 units is about 85.71 percent
    assert_eq!(percent_hundredths(3000, 3500), Some(8571));
    assert_eq!(percent_hundredths(500, 3500), Some(1428));
    assert_eq!(percent_hundredths(1, 0), None);
    assert_eq!(percent_hundredths(3500, 3500), Some(10000));
}
