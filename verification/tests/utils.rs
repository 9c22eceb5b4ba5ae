use allan_tools::utils::{
    cumsum, derivative, diff, fractional_freq_to_phase_time, fractionnal_integral,
};

#[test]
fn utils_test_cumsum() {
    let input: Vec<i64> = vec![1, 1, 1, 1];
    let output = cumsum(input, None).unwrap();
    assert_eq!(output, vec![1, 2, 3, 4]);
}

#[test]
fn utils_test_fractionnal_integral() {
    let input: Vec<i64> = vec![1, 1, 1, 1];
    let output = fractionnal_integral(input, 1).unwrap();
    assert_eq!(output, vec![1, 2, 3, 4]);
}

#[test]
fn utils_test_diff() {
    let input: Vec<i64> = vec![1, 2, 3, 4];
    let output = diff(input, None).unwrap();
    assert_eq!(output, vec![1, 1, 1]);
}

#[test]
fn utils_test_derivative() {
    let input: Vec<i64> = vec![1, 2, 3, 4];
    let output = derivative(input, 1).unwrap();
    assert_eq!(output, vec![1, 1, 1]);
}

#[test]
fn utilities_test_cumsum() {
    let input: Vec<i64> = vec![1, 1, 1, 1];
    let output = cumsum(input, None);
    println!("{:#?}", output);
    assert_eq!(output, Some(vec![1, 2, 3, 4]));
}

#[test]
fn utilities_test_diff() {
    let input: Vec<i64> = vec![1, 2, 3, 4];
    let output = diff(input, None);
    println!("{:#?}", output);
    assert_eq!(output, Some(vec![1, 1, 1]));
}

#[test]
fn utilities_test_derivative() {
    let input: Vec<i64> = vec![1, 1, 1, 1];
    let output = derivative(input, 1);
    println!("{:#?}", output);
    assert_eq!(output, Some(vec![0, 0, 0]));
}

#[test]
fn cumsum_scales_every_sum() {
    assert_eq!(cumsum(vec![1, 2, 3], Some(10)), Some(vec![10, 30, 60]));
    assert_eq!(cumsum(vec![5, -7, 2], Some(-2)), Some(vec![-10, 4, 0]));
    assert_eq!(fractionnal_integral(vec![3, 1, 4, 1, 5], 2), Some(vec![6, 8, 16, 18, 28]));
    assert_eq!(fractional_freq_to_phase_time(vec![3, 1, 4], 2), Some(vec![6, 8, 16]));
}

#[test]
fn diff_scales_every_step() {
    assert_eq!(diff(vec![1, 4, 9, 16], Some(3)), Some(vec![9, 15, 21]));
    assert_eq!(derivative(vec![10, 7, 7], 5), Some(vec![-15, 0]));
}

#[test]
fn empty_and_single_series() {
    assert_eq!(cumsum(vec![], None), Some(vec![]));
    assert_eq!(diff(vec![], None), Some(vec![]));
    assert_eq!(cumsum(vec![9], None), Some(vec![9]));
    assert_eq!(diff(vec![9], None), Some(vec![]));
}

#[test]
fn cumsum_reports_a_sum_out_of_range() {
    assert_eq!(cumsum(vec![i64::MAX, 1], None), None);
    assert_eq!(cumsum(vec![i64::MIN, -1], None), None);
    assert_eq!(cumsum(vec![i64::MAX, 1, -1], None), None);
    assert_eq!(cumsum(vec![1 << 62], Some(2)), None);
    assert_eq!(cumsum(vec![i64::MAX, i64::MIN, i64::MAX], None), Some(vec![i64::MAX, -1, i64::MAX - 1]));
    // the running sum leaves the range, the scaled sums do not
    assert_eq!(cumsum(vec![i64::MAX, i64::MAX], Some(0)), Some(vec![0, 0]));
}

#[test]
fn diff_reports_a_step_out_of_range() {
    assert_eq!(diff(vec![i64::MIN, i64::MAX], None), None);
    assert_eq!(diff(vec![0, 1 << 62], Some(2)), None);
    assert_eq!(diff(vec![i64::MIN, i64::MAX], Some(0)), Some(vec![0]));
    assert_eq!(diff(vec![i64::MIN, -1], None), Some(vec![i64::MAX]));
}

#[test]
fn diff_undoes_cumsum() {
    let data: Vec<i64> = vec![3, -1, 4, -1, 5, -9, 2, 6];
    let sums = cumsum(data.clone(), None).unwrap();
    let steps = diff(sums, None).unwrap();
    assert_eq!(steps, data[1..].to_vec());
}
