//! Density-based clustering: the parameters handed to the clusterer, and what
//! is reported of the labels it gives back.
use vstd::prelude::*;

use hdbscan::HdbscanHyperParams;

use crate::text::owned;

verus! {

#[verifier::external_type_specification]
#[verifier::external_body]
pub struct ExHdbscanHyperParams(HdbscanHyperParams);

/// The hyper-parameters that the `hdbscan` crate's builder makes from a
/// minimum cluster size and a minimum number of samples, all else default.
pub uninterp spec fn hdbscan_hyper_params(min_cluster_size: usize, min_samples: usize) -> HdbscanHyperParams;

/// `HdbscanHyperParams::builder()` of the `hdbscan` crate, given a minimum
/// cluster size and a minimum number of samples, then `build()`. Claims only
/// that the result is the builder's value for these two arguments.
#[verifier::external_body]
fn build_hyper_params(min_cluster_size: usize, min_samples: usize) -> (p: HdbscanHyperParams)
    ensures
        p == hdbscan_hyper_params(min_cluster_size, min_samples),
{
    HdbscanHyperParams::builder().min_cluster_size(min_cluster_size).min_samples(min_samples).build()
}

/// The minimum number of samples used for `n_samples` points: the asked
/// number, at most `n_samples - 1`, and at least 1.
pub open spec fn adjusted_min_samples_spec(min_samples: usize, n_samples: usize) -> usize {
    let cap: usize = if n_samples >= 1 {
        (n_samples - 1) as usize
    } else {
        0
    };
    let m = if min_samples <= cap {
        min_samples
    } else {
        cap
    };
    if m >= 1 {
        m
    } else {
        1
    }
}

/// The minimum cluster size used for `n_samples` points: the asked size, at
/// most `n_samples`, and at least 2.
pub open spec fn adjusted_min_cluster_size_spec(min_cluster_size: usize, n_samples: usize) -> usize {
    let m = if min_cluster_size <= n_samples {
        min_cluster_size
    } else {
        n_samples
    };
    if m >= 2 {
        m
    } else {
        2
    }
}

/// The minimum number of samples used for `n_samples` points.
pub fn adjusted_min_samples(min_samples: usize, n_samples: usize) -> (m: usize)
    ensures
        m == adjusted_min_samples_spec(min_samples, n_samples),
{
    let cap = if n_samples >= 1 {
        n_samples - 1
    } else {
        0
    };
    let m = if min_samples <= cap {
        min_samples
    } else {
        cap
    };
    if m >= 1 {
        m
    } else {
        1
    }
}

/// The minimum cluster size used for `n_samples` points.
pub fn adjusted_min_cluster_size(min_cluster_size: usize, n_samples: usize) -> (m: usize)
    ensures
        m == adjusted_min_cluster_size_spec(min_cluster_size, n_samples),
{
    let m = if min_cluster_size <= n_samples {
        min_cluster_size
    } else {
        n_samples
    };
    if m >= 2 {
        m
    } else {
        2
    }
}

/// The clusterer's hyper-parameters for `n_samples` points, from the asked
/// minimum number of samples and minimum cluster size, each adjusted to the
/// number of points.
pub fn hdbscan_params(n_samples: usize, min_samples: usize, min_cluster_size: usize) -> (p:
    HdbscanHyperParams)
    ensures
        p == hdbscan_hyper_params(
            adjusted_min_cluster_size_spec(min_cluster_size, n_samples),
            adjusted_min_samples_spec(min_samples, n_samples),
        ),
{
    let min_samples = adjusted_min_samples(min_samples, n_samples);
    let min_cluster_size = adjusted_min_cluster_size(min_cluster_size, n_samples);
    build_hyper_params(min_cluster_size, min_samples)
}

/// Whether the clusterer measures with the asked metric; it measures
/// Euclidean distance whatever is asked.
pub fn is_euclidean_metric(metric: &String) -> (b: bool)
    ensures
        b == (metric@ == "euclidean"@ || metric@ == "l2"@),
{
    *metric == owned("euclidean") || *metric == owned("l2")
}

/// The label the clusterer gives a point that belongs to no cluster.
pub open spec fn is_noise(label: i32) -> bool {
    label == -1
}

/// What is reported of the clusterer's labels: each label widened, and
/// whether the point belongs to a cluster.
pub struct ClusterSummary {
    pub labels: Vec<i64>,
    pub in_cluster: Vec<bool>,
}

/// Reports the labels of the points: each label as it is, and a point counts
/// as in a cluster unless its label is the noise label.
pub fn summarize_labels(labels: &Vec<i32>) -> (s: ClusterSummary)
    ensures
        s.labels@.len() == labels@.len(),
        s.in_cluster@.len() == labels@.len(),
        forall|i: int|
            0 <= i < labels@.len() ==> #[trigger] s.labels@[i] == labels@[i] as i64
                && s.in_cluster@[i] == !is_noise(labels@[i]),
{
    let n = labels.len();
    let mut widened: Vec<i64> = Vec::new();
    let mut in_cluster: Vec<bool> = Vec::new();
    let mut i: usize = 0;
    while i < n
        invariant
            n == labels@.len(),
            i <= n,
            widened@.len() == i,
            in_cluster@.len() == i,
            forall|j: int|
                0 <= j < i ==> #[trigger] widened@[j] == labels@[j] as i64 && in_cluster@[j]
                    == !is_noise(labels@[j]),
        decreases n - i,
    {
        let label = labels[i];
        widened.push(label as i64);
        in_cluster.push(label != -1);
        i = i + 1;
    }
    ClusterSummary { labels: widened, in_cluster }
}

/// The adjusted parameters are always ones the clusterer accepts as given:
/// a cluster size of at least 2, at least one sample, and, with two points or
/// more, a cluster size no larger than the number of points and fewer samples
/// than points.
pub proof fn law_adjusted_parameters_in_range(
    n_samples: usize,
    min_samples: usize,
    min_cluster_size: usize,
)
    ensures
        adjusted_min_cluster_size_spec(min_cluster_size, n_samples) >= 2,
        adjusted_min_samples_spec(min_samples, n_samples) >= 1,
        n_samples >= 2 ==> adjusted_min_cluster_size_spec(min_cluster_size, n_samples)
            <= n_samples,
        n_samples >= 2 ==> adjusted_min_samples_spec(min_samples, n_samples) < n_samples,
        adjusted_min_samples_spec(min_samples, n_samples) <= min_samples || min_samples == 0,
        adjusted_min_cluster_size_spec(min_cluster_size, n_samples) <= min_cluster_size
            || min_cluster_size < 2,
{
}

/// The cluster size used is the asked one whenever it is between 2 and the
/// number of points; an asked size above the number of points becomes the
/// number of points, and anything below 2 becomes 2.
pub proof fn law_cluster_size_kept_when_it_fits(min_cluster_size: usize, n_samples: usize)
    ensures
        2 <= min_cluster_size <= n_samples ==> adjusted_min_cluster_size_spec(
            min_cluster_size,
            n_samples,
        ) == min_cluster_size,
        2 <= n_samples < min_cluster_size ==> adjusted_min_cluster_size_spec(
            min_cluster_size,
            n_samples,
        ) == n_samples,
        (min_cluster_size < 2 || n_samples < 2) ==> adjusted_min_cluster_size_spec(
            min_cluster_size,
            n_samples,
        ) == 2,
{
}

/// The number of samples used is the asked one whenever it is at least 1 and
/// below the number of points; an asked number at or above the number of
/// points becomes one less than it, and anything below 1 becomes 1.
pub proof fn law_min_samples_kept_when_it_fits(min_samples: usize, n_samples: usize)
    ensures
        1 <= min_samples < n_samples ==> adjusted_min_samples_spec(min_samples, n_samples)
            == min_samples,
        2 <= n_samples <= min_samples ==> adjusted_min_samples_spec(min_samples, n_samples) == n_samples
            - 1,
        (min_samples == 0 || n_samples <= 1) ==> adjusted_min_samples_spec(min_samples, n_samples)
            == 1,
{
}

} // verus!
