use occupancy_monitor::predictor::knn_regressor::{KNNRegressor, Sample};

fn sample(weight: u32, time: u32, occupancy: u16) -> Sample {
    Sample { weight, time, occupancy }
}

#[test]
fn gap_is_the_distance_in_time() {
    assert_eq!(KNNRegressor::gap(10, 4), 6);
    assert_eq!(KNNRegressor::gap(4, 10), 6);
    assert_eq!(KNNRegressor::gap(7, 7), 0);
    assert_eq!(KNNRegressor::gap(0, u32::MAX), u32::MAX);
}

#[test]
fn predict_one_averages_by_weight() {
    // (2 * 30 + 1 * 60) / (2 + 1) = 40
    let samples = vec![sample(2, 100, 30), sample(1, 200, 60)];
    assert_eq!(KNNRegressor::predict_one(&samples, 150, 3), 40);
    // (3 * 10 + 1 * 20) / 4 = 12.5, rounded down
    let samples = vec![sample(3, 100, 10), sample(1, 200, 20)];
    assert_eq!(KNNRegressor::predict_one(&samples, 150, 2), 12);
    // One sample alone is its own average.
    assert_eq!(KNNRegressor::predict_one(&vec![sample(7, 5, 83)], 1000, 3), 83);
}

#[test]
fn predict_one_takes_the_nearest() {
    let samples = vec![
        sample(1, 1000, 90),
        sample(1, 100, 10),
        sample(1, 120, 20),
        sample(1, 5000, 70),
        sample(1, 90, 30),
    ];
    assert_eq!(KNNRegressor::predict_one(&samples, 100, 1), 10);
    assert_eq!(KNNRegressor::predict_one(&samples, 100, 2), 20);
    assert_eq!(KNNRegressor::predict_one(&samples, 100, 3), 20);
    assert_eq!(KNNRegressor::predict_one(&samples, 100, 4), 37);
    assert_eq!(KNNRegressor::predict_one(&samples, 100, 5), 44);
    assert_eq!(KNNRegressor::predict_one(&samples, 100, 50), 44);
    assert_eq!(KNNRegressor::predict_one(&samples, 6000, 1), 70);
    assert_eq!(KNNRegressor::select_nearest(&samples, 100, 3).len(), 3);
    let mut picks = KNNRegressor::select_nearest(&samples, 100, 3);
    picks.sort();
    assert_eq!(picks, vec![1, 2, 4]);
}

#[test]
fn predict_one_with_fewer_samples_than_neighbours() {
    let samples = vec![sample(1, 10, 20), sample(1, 20, 40)];
    assert_eq!(KNNRegressor::predict_one(&samples, 0, 3), 30);
    assert_eq!(KNNRegressor::predict_one(&samples, 0, 1000), 30);
    assert_eq!(KNNRegressor::predict_one(&samples, 0, usize::MAX), 30);
    assert_eq!(KNNRegressor::select_nearest(&samples, 0, 5).len(), 2);
}

#[test]
fn predict_one_never_divides_by_zero() {
    let none: Vec<Sample> = Vec::new();
    assert_eq!(KNNRegressor::predict_one(&none, 100, 3), 0);
    assert_eq!(KNNRegressor::predict_one(&none, 100, 0), 0);
    let samples = vec![sample(1, 10, 20), sample(1, 20, 40)];
    assert_eq!(KNNRegressor::predict_one(&samples, 15, 0), 0);
    let weightless = vec![sample(0, 10, 20), sample(0, 20, 40)];
    assert_eq!(KNNRegressor::predict_one(&weightless, 15, 3), 0);
}

#[test]
fn predict_one_ignores_samples_without_weight() {
    let samples = vec![sample(0, 100, 90), sample(4, 110, 20), sample(0, 90, 80)];
    assert_eq!(KNNRegressor::predict_one(&samples, 100, 3), 20);
    // A sample without weight still takes a place among the neighbours.
    assert_eq!(KNNRegressor::predict_one(&samples, 100, 1), 0);
}

#[test]
fn predict_one_gives_a_tie_to_the_earlier_sample() {
    let first = vec![sample(1, 95, 10), sample(1, 105, 90)];
    assert_eq!(KNNRegressor::predict_one(&first, 100, 1), 10);
    let second = vec![sample(1, 105, 90), sample(1, 95, 10)];
    assert_eq!(KNNRegressor::predict_one(&second, 100, 1), 90);
    // The farthest sample held leaves first, and among equals the later one.
    let three = vec![sample(1, 95, 10), sample(1, 105, 90), sample(1, 100, 50)];
    assert_eq!(KNNRegressor::predict_one(&three, 100, 2), 30);
    let mut picks = KNNRegressor::select_nearest(&three, 100, 2);
    picks.sort();
    assert_eq!(picks, vec![0, 2]);
}

#[test]
fn predict_one_does_not_depend_on_the_order_without_ties() {
    let samples = vec![
        sample(3, 100, 10),
        sample(2, 130, 25),
        sample(5, 60, 40),
        sample(1, 300, 90),
        sample(4, 10, 70),
    ];
    let orders: Vec<Vec<usize>> = vec![
        vec![0, 1, 2, 3, 4],
        vec![4, 3, 2, 1, 0],
        vec![2, 0, 4, 1, 3],
        vec![1, 3, 0, 4, 2],
    ];
    for k in 0..7 {
        let expected = KNNRegressor::predict_one(&samples, 105, k);
        for order in &orders {
            let mut shuffled = Vec::new();
            for index in order {
                shuffled.push(samples[*index]);
            }
            assert_eq!(KNNRegressor::predict_one(&shuffled, 105, k), expected);
        }
    }
    // (3 * 10 + 2 * 25 + 5 * 40) / 10 = 28
    assert_eq!(KNNRegressor::predict_one(&samples, 105, 3), 28);
}

#[test]
fn predict_one_stays_within_the_occupancies_it_averages() {
    let samples = vec![
        sample(27_720, 32_400, 38),
        sample(13_860, 32_400, 40),
        sample(9_240, 32_400, 42),
        sample(27_720, 61_200, 95),
    ];
    let forecast = KNNRegressor::predict_one(&samples, 32_400, 3);
    assert!(38 <= forecast && forecast <= 42);
    assert_eq!(forecast, 39);
}

#[test]
fn predict_one_holds_large_weights() {
    let samples = vec![sample(u32::MAX, 0, u16::MAX), sample(u32::MAX, 1, u16::MAX)];
    assert_eq!(KNNRegressor::predict_one(&samples, 0, 2), u16::MAX);
    let samples = vec![sample(u32::MAX, 0, u16::MAX), sample(u32::MAX, u32::MAX, 0)];
    assert_eq!(KNNRegressor::predict_one(&samples, 7, 2), u16::MAX / 2);
}

#[test]
fn predict_range_steps_from_start_to_end() {
    let samples = vec![sample(1, 0, 10), sample(1, 1000, 50)];
    let series = KNNRegressor::predict_range(&samples, 0, 1000, 300, 1);
    assert_eq!(series, vec![(0, 10), (300, 10), (600, 50), (900, 50)]);
    let series = KNNRegressor::predict_range(&samples, 0, 900, 300, 1);
    assert_eq!(series.len(), 4);
    assert_eq!(series[3].0, 900);
    let series = KNNRegressor::predict_range(&samples, 0, 899, 300, 1);
    assert_eq!(series.len(), 3);
    let series = KNNRegressor::predict_range(&samples, 10, 11, 300, 2);
    assert_eq!(series, vec![(10, 30)]);
    let series = KNNRegressor::predict_range(&samples, 10, 11, 1, 2);
    assert_eq!(series, vec![(10, 30), (11, 30)]);
}

#[test]
fn predict_range_covers_an_operating_day() {
    let samples = vec![sample(1, 30_000, 40)];
    let series = KNNRegressor::predict_range(&samples, 23_400, 81_000, 300, 3);
    assert_eq!(series.len(), (81_000 - 23_400) / 300 + 1);
    assert_eq!(series.len(), 193);
    for (index, point) in series.iter().enumerate() {
        assert_eq!(point.0, 23_400 + 300 * index as u32);
        assert_eq!(point.1, KNNRegressor::predict_one(&samples, point.0, 3));
        assert_eq!(point.1, 40);
    }
    assert_eq!(series.last().unwrap().0, 81_000);
}

#[test]
fn predict_range_reaches_the_end_of_the_numbers() {
    let samples = vec![sample(1, 5, 33)];
    let series = KNNRegressor::predict_range(&samples, u32::MAX - 10, u32::MAX, 4, 1);
    assert_eq!(series.len(), 3);
    assert_eq!(series[2], (u32::MAX - 2, 33));
}
