use relay_curve_estimator::estimator::{EstimationError, RelayEstimator};
use relay_curve_estimator::plot_view::{PlotConfig, PlotScaleMode};

#[test]
fn screening_the_inputs() {
    assert_eq!(RelayEstimator::screen_inputs(false, &vec![true]), Err(EstimationError::NonPositivePickup));
    assert_eq!(RelayEstimator::screen_inputs(true, &vec![false, false]), Err(EstimationError::NoValidPoints));
    assert_eq!(RelayEstimator::screen_inputs(true, &vec![]), Err(EstimationError::NoValidPoints));
    assert_eq!(RelayEstimator::screen_inputs(true, &vec![false, true, true, false, true]), Ok(vec![1, 2, 4]));
}

#[test]
fn error_messages() {
    assert_eq!(
        EstimationError::NonPositivePickup.message(),
        "Pickup current (Is) must be strictly positive (> 0 A)."
    );
    assert_eq!(
        EstimationError::NoValidPoints.message(),
        "No valid test points provided. Current must be strictly greater than pickup current (Is) and operating time must be > 0."
    );
}

#[test]
fn ranking_is_stable_and_ascending() {
    assert_eq!(RelayEstimator::rank_by_key(&vec![5, 1, 3, 1, 0]), vec![4, 1, 3, 2, 0]);
    assert_eq!(RelayEstimator::rank_by_key(&vec![]), Vec::<usize>::new());
    assert_eq!(RelayEstimator::rank_by_key(&vec![7, 7, 7]), vec![0, 1, 2]);
}

#[test]
fn plot_defaults() {
    let c = PlotConfig::default();
    assert_eq!(c.scale_mode, PlotScaleMode::LogLog);
    assert!(c.show_residuals && c.show_pickup_line && c.show_runner_up && c.show_point_labels);
}
