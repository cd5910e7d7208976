use doprs::raw::daywrap::day_offsets;

fn falls(time: &[f64]) -> Vec<bool> {
    (0..time.len()).map(|i| i > 0 && time[i] - time[i - 1] < -12.0).collect()
}

fn lifted(time: &[f64]) -> Vec<f64> {
    let days = day_offsets(&falls(time));
    time.iter().zip(days).map(|(t, d)| t + 24.0 * d as f64).collect()
}

#[test]
fn offsets_count_the_falls() {
    assert_eq!(day_offsets(&vec![]), Vec::<u64>::new());
    assert_eq!(day_offsets(&vec![false]), vec![0]);
    assert_eq!(day_offsets(&vec![true]), vec![0]);
    assert_eq!(day_offsets(&vec![false, false, true, false, true, true]), vec![0, 0, 1, 1, 2, 3]);
    assert_eq!(day_offsets(&vec![true, true]), vec![0, 1]);
}

#[test]
fn midnight_is_passed_once() {
    assert_eq!(lifted(&[23.5, 23.75, 0.25, 0.5]), vec![23.5, 23.75, 24.25, 24.5]);
}

#[test]
fn two_midnights() {
    assert_eq!(lifted(&[23.0, 1.0, 23.0, 1.0]), vec![23.0, 25.0, 47.0, 49.0]);
}

#[test]
fn small_steps_back_stay() {
    assert_eq!(lifted(&[5.0, 3.0, 4.0]), vec![5.0, 3.0, 4.0]);
    assert_eq!(lifted(&[13.0, 1.0]), vec![13.0, 1.0]);
}

#[test]
fn lifting_again_changes_nothing() {
    for series in [vec![23.5, 0.25, 12.0, 23.0, 0.5], vec![1.0, 2.0, 3.0], vec![], vec![23.9, 0.1]] {
        let once = lifted(&series);
        assert_eq!(lifted(&once), once);
    }
}

#[test]
fn lifted_times_of_one_day_never_fall() {
    let once = lifted(&[22.0, 23.0, 0.5, 1.0, 23.5, 0.0]);
    assert_eq!(once, vec![22.0, 23.0, 24.5, 25.0, 47.5, 48.0]);
    assert!(once.windows(2).all(|w| w[0] <= w[1]));
}
