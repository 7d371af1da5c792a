use govee_bridge::hass_mqtt::value_range::{infer_contiguous_range, infer_run};

#[test]
fn consecutive_integers_are_a_run() {
    assert_eq!(infer_contiguous_range(vec![1, 2, 3, 4]), Some(1..5));
    assert_eq!(infer_run(vec![1, 2, 3, 4]), Some((1, 4)));
}

#[test]
fn a_gap_is_no_run() {
    assert_eq!(infer_contiguous_range(vec![1, 2, 4]), None);
    assert_eq!(infer_run(vec![1, 2, 4]), None);
}

#[test]
fn the_order_of_the_list_does_not_matter() {
    assert_eq!(infer_contiguous_range(vec![3, 1, 4, 2]), Some(1..5));
    assert_eq!(infer_contiguous_range(vec![4, 3, 2, 1]), Some(1..5));
    assert_eq!(infer_contiguous_range(vec![4, 1, 2]), None);
}

#[test]
fn an_empty_list_is_no_run() {
    assert_eq!(infer_contiguous_range(vec![]), None);
    assert_eq!(infer_run(vec![]), None);
}

#[test]
fn a_repeated_integer_is_no_run() {
    assert_eq!(infer_contiguous_range(vec![1, 2, 2, 3]), None);
    assert_eq!(infer_contiguous_range(vec![7, 7]), None);
}

#[test]
fn a_single_integer_is_a_run() {
    assert_eq!(infer_contiguous_range(vec![0]), Some(0..1));
    assert_eq!(infer_contiguous_range(vec![-3]), Some(-3..-2));
}

#[test]
fn runs_across_zero_and_at_the_ends_of_the_integers() {
    assert_eq!(infer_contiguous_range(vec![1, -1, 0]), Some(-1..2));
    assert_eq!(infer_contiguous_range(vec![i64::MIN + 1, i64::MIN]), Some(i64::MIN..i64::MIN + 2));
    assert_eq!(infer_contiguous_range(vec![i64::MAX - 1]), Some(i64::MAX - 1..i64::MAX));
    assert_eq!(infer_contiguous_range(vec![i64::MIN, i64::MAX]), None);
    assert_eq!(infer_contiguous_range(vec![i64::MAX, i64::MAX]), None);
    assert_eq!(infer_run(vec![i64::MAX, i64::MAX - 1]), Some((i64::MAX - 1, i64::MAX)));
    assert_eq!(infer_run(vec![i64::MAX]), Some((i64::MAX, i64::MAX)));
}
