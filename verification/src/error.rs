//! Errors of the nearest-neighbour index, with the class and message under
//! which they reach the user.
use vstd::prelude::*;

use crate::text::{decimal, decimal_string, joined, owned};

verus! {

/// The class of exception under which an error reaches the user.
#[derive(Clone, Copy, Debug, PartialEq, Eq, Structural)]
pub enum ErrorKind {
    ArgumentError,
    TypeError,
    RuntimeError,
}

/// An input that the caller could not read as the value a call needs. The
/// caller keeps the reason; the library only decides that this failure is
/// the one to report.
#[derive(Clone, Copy, Debug, PartialEq, Eq, Structural)]
pub enum Unreadable {
    /// The vector of row `row` (0 for a single vector), or one of its values.
    Vector { row: usize },
    /// The label of row `row` of a batch.
    Label { row: usize },
    /// The metadata of an item.
    Metadata,
}

/// Why the index refused a call.
#[derive(Debug, PartialEq, Eq)]
pub enum IndexError {
    DimRequired,
    DimNotInteger,
    DimZero,
    SpaceNotText,
    CosineUnsupported,
    InnerProductUnsupported,
    UnknownSpace(String),
    DimensionMismatch { expected: usize, got: usize },
    LabelExists(String),
    UnknownSavedSpace,
    Unreadable(Unreadable),
}

/// An `IndexError` with its strings taken by their views.
pub enum Refusal {
    DimRequired,
    DimNotInteger,
    DimZero,
    SpaceNotText,
    CosineUnsupported,
    InnerProductUnsupported,
    UnknownSpace(Seq<char>),
    DimensionMismatch { expected: usize, got: usize },
    LabelExists(Seq<char>),
    UnknownSavedSpace,
    Unreadable(Unreadable),
}

impl View for IndexError {
    type V = Refusal;

    open spec fn view(&self) -> Refusal {
        match self {
            IndexError::DimRequired => Refusal::DimRequired,
            IndexError::DimNotInteger => Refusal::DimNotInteger,
            IndexError::DimZero => Refusal::DimZero,
            IndexError::SpaceNotText => Refusal::SpaceNotText,
            IndexError::CosineUnsupported => Refusal::CosineUnsupported,
            IndexError::InnerProductUnsupported => Refusal::InnerProductUnsupported,
            IndexError::UnknownSpace(s) => Refusal::UnknownSpace(s@),
            IndexError::DimensionMismatch { expected, got } => Refusal::DimensionMismatch {
                expected: *expected,
                got: *got,
            },
            IndexError::LabelExists(l) => Refusal::LabelExists(l@),
            IndexError::UnknownSavedSpace => Refusal::UnknownSavedSpace,
            IndexError::Unreadable(u) => Refusal::Unreadable(*u),
        }
    }
}

/// The class and message of a refusal; none where the caller holds the reason.
pub open spec fn refusal_text(r: Refusal) -> Option<(ErrorKind, Seq<char>)> {
    match r {
        Refusal::DimRequired => Some((ErrorKind::ArgumentError, "dim is required"@)),
        Refusal::DimNotInteger => Some((ErrorKind::ArgumentError, "dim must be an integer"@)),
        Refusal::DimZero => Some(
            (ErrorKind::ArgumentError, "dim must be a positive integer (got 0)"@),
        ),
        Refusal::SpaceNotText => Some((ErrorKind::TypeError, "space must be a string or symbol"@)),
        Refusal::CosineUnsupported => Some(
            (
                ErrorKind::RuntimeError,
                "Cosine distance is not yet implemented, please use :euclidean"@,
            ),
        ),
        Refusal::InnerProductUnsupported => Some(
            (
                ErrorKind::RuntimeError,
                "Inner product distance is not yet implemented, please use :euclidean"@,
            ),
        ),
        Refusal::UnknownSpace(s) => Some(
            (
                ErrorKind::ArgumentError,
                "space must be :euclidean, :cosine, or :inner_product (got: "@ + s + ")"@,
            ),
        ),
        Refusal::DimensionMismatch { expected, got } => Some(
            (
                ErrorKind::ArgumentError,
                "Vector dimension mismatch: expected "@ + decimal(expected as nat) + ", got "@
                    + decimal(got as nat),
            ),
        ),
        Refusal::LabelExists(l) => Some(
            (ErrorKind::ArgumentError, "Label '"@ + l + "' already exists in index"@),
        ),
        Refusal::UnknownSavedSpace => Some(
            (ErrorKind::RuntimeError, "Unknown distance type in saved file"@),
        ),
        Refusal::Unreadable(_) => None,
    }
}

impl IndexError {
    /// The exception class and message under which the error reaches the
    /// user; `None` for an unreadable input, whose reason the caller holds.
    pub fn describe(&self) -> (r: Option<(ErrorKind, String)>)
        ensures
            match refusal_text(self@) {
                None => r.is_none(),
                Some((k, m)) => r.is_some() && r.unwrap().0 == k && r.unwrap().1@ == m,
            },
    {
        match self {
            IndexError::DimRequired => Some((ErrorKind::ArgumentError, owned("dim is required"))),
            IndexError::DimNotInteger => Some(
                (ErrorKind::ArgumentError, owned("dim must be an integer")),
            ),
            IndexError::DimZero => Some(
                (ErrorKind::ArgumentError, owned("dim must be a positive integer (got 0)")),
            ),
            IndexError::SpaceNotText => Some(
                (ErrorKind::TypeError, owned("space must be a string or symbol")),
            ),
            IndexError::CosineUnsupported => Some(
                (
                    ErrorKind::RuntimeError,
                    owned("Cosine distance is not yet implemented, please use :euclidean"),
                ),
            ),
            IndexError::InnerProductUnsupported => Some(
                (
                    ErrorKind::RuntimeError,
                    owned("Inner product distance is not yet implemented, please use :euclidean"),
                ),
            ),
            IndexError::UnknownSpace(s) => {
                let m = owned("space must be :euclidean, :cosine, or :inner_product (got: ");
                let m = joined(m, s.as_str());
                let m = joined(m, ")");
                Some((ErrorKind::ArgumentError, m))
            },
            IndexError::DimensionMismatch { expected, got } => {
                let m = owned("Vector dimension mismatch: expected ");
                let e = decimal_string(*expected);
                let m = joined(m, e.as_str());
                let m = joined(m, ", got ");
                let g = decimal_string(*got);
                let m = joined(m, g.as_str());
                Some((ErrorKind::ArgumentError, m))
            },
            IndexError::LabelExists(l) => {
                let m = owned("Label '");
                let m = joined(m, l.as_str());
                let m = joined(m, "' already exists in index");
                Some((ErrorKind::ArgumentError, m))
            },
            IndexError::UnknownSavedSpace => Some(
                (ErrorKind::RuntimeError, owned("Unknown distance type in saved file")),
            ),
            IndexError::Unreadable(_) => None,
        }
    }
}

} // verus!
