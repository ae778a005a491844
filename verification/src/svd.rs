//! Truncated singular value decomposition: the checks on the asked rank, the
//! approximation mode handed to the decomposition, and which missing factor
//! is reported.
use vstd::prelude::*;

use annembed::tools::svdapprox::{RangeApproxMode, RangeRank};

use crate::error::ErrorKind;
use crate::text::{decimal, decimal_string, joined, owned};

verus! {

#[verifier::external_type_specification]
#[verifier::external_body]
pub struct ExRangeApproxMode(RangeApproxMode);

/// The approximation mode of the `annembed` crate that asks for a fixed rank
/// reached with a number of QR iterations.
pub uninterp spec fn rank_approx_mode(rank: usize, n_iter: usize) -> RangeApproxMode;

/// `RangeApproxMode::RANK(RangeRank::new(rank, n_iter))` of the `annembed`
/// crate. Claims only that the result is that value for these two arguments.
#[verifier::external_body]
fn rank_mode(rank: usize, n_iter: usize) -> (m: RangeApproxMode)
    ensures
        m == rank_approx_mode(rank, n_iter),
{
    RangeApproxMode::RANK(RangeRank::new(rank, n_iter))
}

/// A factor of the decomposition.
#[derive(Clone, Copy, Debug, PartialEq, Eq, Structural)]
pub enum SvdFactor {
    U,
    S,
    Vt,
}

/// Why a decomposition is refused or incomplete.
#[derive(Clone, Copy, Debug, PartialEq, Eq, Structural)]
pub enum SvdError {
    /// The asked rank `k` exceeds the smaller side `limit` of the matrix.
    RankTooLarge { k: usize, limit: usize },
    /// The decomposition came back without a factor.
    MissingFactor(SvdFactor),
}

/// The smaller of two sizes.
pub open spec fn smaller(a: usize, b: usize) -> usize {
    if a <= b {
        a
    } else {
        b
    }
}

/// The approximation mode for a rank-`k` decomposition of an `n_rows` by
/// `n_cols` matrix with `n_iter` QR iterations; refused where `k` exceeds the
/// smaller side.
pub fn svd_mode(n_rows: usize, n_cols: usize, k: usize, n_iter: usize) -> (r: Result<
    RangeApproxMode,
    SvdError,
>)
    ensures
        k > smaller(n_rows, n_cols) ==> r == Err::<RangeApproxMode, SvdError>(
            SvdError::RankTooLarge { k, limit: smaller(n_rows, n_cols) },
        ),
        k <= smaller(n_rows, n_cols) ==> r == Ok::<RangeApproxMode, SvdError>(
            rank_approx_mode(k, n_iter),
        ),
{
    let limit = if n_rows <= n_cols {
        n_rows
    } else {
        n_cols
    };
    if k > limit {
        return Err(SvdError::RankTooLarge { k, limit });
    }
    Ok(rank_mode(k, n_iter))
}

/// The first factor, in the order U, S, V transposed, that the decomposition
/// lacks.
pub fn missing_factor(has_u: bool, has_s: bool, has_vt: bool) -> (r: Option<SvdFactor>)
    ensures
        r == if !has_u {
            Some(SvdFactor::U)
        } else if !has_s {
            Some(SvdFactor::S)
        } else if !has_vt {
            Some(SvdFactor::Vt)
        } else {
            None
        },
{
    if !has_u {
        Some(SvdFactor::U)
    } else if !has_s {
        Some(SvdFactor::S)
    } else if !has_vt {
        Some(SvdFactor::Vt)
    } else {
        None
    }
}

/// The class and message of a decomposition failure.
pub open spec fn svd_error_text(e: SvdError) -> (ErrorKind, Seq<char>) {
    match e {
        SvdError::RankTooLarge { k, limit } => (
            ErrorKind::ArgumentError,
            "k ("@ + decimal(k as nat) + ") cannot be larger than min(rows, cols) = "@ + decimal(
                limit as nat,
            ),
        ),
        SvdError::MissingFactor(SvdFactor::U) => (
            ErrorKind::RuntimeError,
            "No U matrix in SVD result"@,
        ),
        SvdError::MissingFactor(SvdFactor::S) => (
            ErrorKind::RuntimeError,
            "No S values in SVD result"@,
        ),
        SvdError::MissingFactor(SvdFactor::Vt) => (
            ErrorKind::RuntimeError,
            "No V^T matrix in SVD result"@,
        ),
    }
}

impl SvdError {
    /// The exception class and message under which the failure reaches the user.
    pub fn describe(&self) -> (r: (ErrorKind, String))
        ensures
            r.0 == svd_error_text(*self).0,
            r.1@ == svd_error_text(*self).1,
    {
        match self {
            SvdError::RankTooLarge { k, limit } => {
                let m = owned("k (");
                let s = decimal_string(*k);
                let m = joined(m, s.as_str());
                let m = joined(m, ") cannot be larger than min(rows, cols) = ");
                let s = decimal_string(*limit);
                let m = joined(m, s.as_str());
                (ErrorKind::ArgumentError, m)
            },
            SvdError::MissingFactor(SvdFactor::U) => (
                ErrorKind::RuntimeError,
                owned("No U matrix in SVD result"),
            ),
            SvdError::MissingFactor(SvdFactor::S) => (
                ErrorKind::RuntimeError,
                owned("No S values in SVD result"),
            ),
            SvdError::MissingFactor(SvdFactor::Vt) => (
                ErrorKind::RuntimeError,
                owned("No V^T matrix in SVD result"),
            ),
        }
    }
}

} // verus!
