use clusterkit::clustering::{
    adjusted_min_cluster_size, adjusted_min_samples, hdbscan_params, is_euclidean_metric,
    summarize_labels,
};
use clusterkit::error::ErrorKind;
use clusterkit::svd::{missing_factor, svd_mode, SvdError, SvdFactor};
use clusterkit::error::IndexError;
use hdbscan::HdbscanHyperParams;

#[test]
fn numbers_in_messages_are_decimal() {
    let m = IndexError::DimensionMismatch { expected: 1234, got: 0 }.describe().unwrap().1;
    assert_eq!(m, "Vector dimension mismatch: expected 1234, got 0");
    let m = IndexError::DimensionMismatch { expected: 7, got: 90210 }.describe().unwrap().1;
    assert_eq!(m, "Vector dimension mismatch: expected 7, got 90210");
}

#[test]
fn min_samples_is_kept_below_the_number_of_points() {
    assert_eq!(adjusted_min_samples(5, 100), 5);
    assert_eq!(adjusted_min_samples(5, 3), 2);
    assert_eq!(adjusted_min_samples(0, 10), 1);
    assert_eq!(adjusted_min_samples(5, 1), 1);
    assert_eq!(adjusted_min_samples(5, 0), 1);
}

#[test]
fn min_cluster_size_is_kept_within_the_points_and_at_least_two() {
    assert_eq!(adjusted_min_cluster_size(5, 100), 5);
    assert_eq!(adjusted_min_cluster_size(5, 3), 3);
    assert_eq!(adjusted_min_cluster_size(1, 100), 2);
    assert_eq!(adjusted_min_cluster_size(5, 1), 2);
}

#[test]
fn hyper_params_come_from_the_builder_with_adjusted_values() {
    let expected = HdbscanHyperParams::builder().min_cluster_size(3).min_samples(2).build();
    assert_eq!(hdbscan_params(3, 5, 5), expected);
    let expected = HdbscanHyperParams::builder().min_cluster_size(10).min_samples(4).build();
    assert_eq!(hdbscan_params(50, 4, 10), expected);
    assert_ne!(hdbscan_params(50, 4, 10), HdbscanHyperParams::builder().build());
}

#[test]
fn euclidean_metric_names() {
    assert!(is_euclidean_metric(&"euclidean".to_string()));
    assert!(is_euclidean_metric(&"l2".to_string()));
    assert!(!is_euclidean_metric(&"manhattan".to_string()));
}

#[test]
fn noise_points_are_not_in_a_cluster() {
    let s = summarize_labels(&vec![0, 1, -1, 1]);
    assert_eq!(s.labels, vec![0i64, 1, -1, 1]);
    assert_eq!(s.in_cluster, vec![true, true, false, true]);
    let s = summarize_labels(&vec![]);
    assert!(s.labels.is_empty() && s.in_cluster.is_empty());
}

#[test]
fn svd_rank_must_fit_the_matrix() {
    assert_eq!(svd_mode(3, 5, 4, 2).err(), Some(SvdError::RankTooLarge { k: 4, limit: 3 }));
    assert_eq!(svd_mode(6, 2, 3, 2).err(), Some(SvdError::RankTooLarge { k: 3, limit: 2 }));
    let mode = svd_mode(3, 5, 3, 7).ok().unwrap();
    assert_eq!(format!("{:?}", mode), "RANK(RangeRank { rank: 3, nbiter: 7 })");
}

#[test]
fn svd_messages_and_missing_factors() {
    assert_eq!(
        SvdError::RankTooLarge { k: 4, limit: 3 }.describe(),
        (ErrorKind::ArgumentError, "k (4) cannot be larger than min(rows, cols) = 3".to_string())
    );
    assert_eq!(missing_factor(true, true, true), None);
    assert_eq!(missing_factor(false, false, true), Some(SvdFactor::U));
    assert_eq!(missing_factor(true, false, false), Some(SvdFactor::S));
    assert_eq!(missing_factor(true, true, false), Some(SvdFactor::Vt));
    assert_eq!(
        SvdError::MissingFactor(SvdFactor::Vt).describe(),
        (ErrorKind::RuntimeError, "No V^T matrix in SVD result".to_string())
    );
    assert_eq!(
        SvdError::MissingFactor(SvdFactor::S).describe().1,
        "No S values in SVD result"
    );
}
