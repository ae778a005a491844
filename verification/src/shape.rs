//! Validation of the shape of a matrix given as a list of rows.
//!
//! The caller reads each row and converts its values; these functions decide,
//! from what the caller found, whether the rows form a matrix and which
//! failure is reported first. Three readers differ in their checks and in
//! their order:
//! - `dense_shape` wants a non-empty first row and every row as long as it;
//! - `nested_shape` wants every row as long as the first, which may be empty;
//! - `numeric_shape` converts a row's values before comparing its length.
use vstd::prelude::*;

use crate::error::ErrorKind;
use crate::text::{decimal, decimal_string, joined, owned};

verus! {

/// A row as the caller read it: its length, and whether all of its values
/// converted.
#[derive(Clone, Copy, Debug, PartialEq, Eq, Structural)]
pub struct RowRead {
    pub len: usize,
    pub values_ok: bool,
}

/// Why a list of rows is not accepted as a matrix.
#[derive(Clone, Copy, Debug, PartialEq, Eq, Structural)]
pub enum ShapeError {
    /// There are no rows.
    EmptyData,
    /// There are no rows (reported by the numeric reader).
    EmptyInput,
    /// The first row has no values.
    EmptyRows,
    /// Row `row` has `got` values where `expected` were expected.
    RowLength { row: usize, got: usize, expected: usize },
    /// Row `row` is not an array (reported by the numeric reader).
    NotAnArray { row: usize },
    /// A row differs in length from the first (reported by the numeric reader).
    RaggedRows,
    /// Row `row` could not be read as an array; the caller holds the reason.
    UnreadableRow { row: usize },
    /// A value of row `row` did not convert; the caller holds the reason.
    UnreadableValue { row: usize },
}

/// The first failure among the rows from position `i` on, by `check`.
pub open spec fn first_failure(
    rows: Seq<Option<RowRead>>,
    check: spec_fn(Option<RowRead>, usize) -> Option<ShapeError>,
    i: int,
) -> Option<ShapeError>
    decreases rows.len() - i,
{
    if i < 0 || i >= rows.len() {
        None
    } else {
        match check(rows[i], i as usize) {
            Some(e) => Some(e),
            None => first_failure(rows, check, i + 1),
        }
    }
}

/// No failure from position `i` on exactly when every row from there passes.
pub proof fn lemma_first_failure_none(
    rows: Seq<Option<RowRead>>,
    check: spec_fn(Option<RowRead>, usize) -> Option<ShapeError>,
    i: int,
)
    requires
        0 <= i <= rows.len(),
    ensures
        first_failure(rows, check, i) is None <==> forall|j: int|
            i <= j < rows.len() ==> #[trigger] check(rows[j], j as usize) is None,
    decreases rows.len() - i,
{
    if i < rows.len() {
        lemma_first_failure_none(rows, check, i + 1);
    }
}

/// A row checked by the dense reader against `n_features` values.
pub open spec fn dense_row_check(n_features: usize) -> spec_fn(Option<RowRead>, usize) -> Option<
    ShapeError,
> {
    |r: Option<RowRead>, i: usize|
        match r {
            None => Some(ShapeError::UnreadableRow { row: i }),
            Some(row) => if row.len != n_features {
                Some(ShapeError::RowLength { row: i, got: row.len, expected: n_features })
            } else if !row.values_ok {
                Some(ShapeError::UnreadableValue { row: i })
            } else {
                None
            },
        }
}

/// What the dense reader decides: the number of rows and of values per row,
/// or the first failure.
pub open spec fn dense_outcome(rows: Seq<Option<RowRead>>) -> Result<(usize, usize), ShapeError> {
    if rows.len() == 0 {
        Err(ShapeError::EmptyData)
    } else {
        match rows[0] {
            None => Err(ShapeError::UnreadableRow { row: 0 }),
            Some(first) => if first.len == 0 {
                Err(ShapeError::EmptyRows)
            } else {
                match first_failure(rows, dense_row_check(first.len), 0) {
                    Some(e) => Err(e),
                    None => Ok((rows.len() as usize, first.len)),
                }
            },
        }
    }
}

/// A row checked by the nested reader against the length of the first row.
pub open spec fn nested_row_check(first_len: usize) -> spec_fn(Option<RowRead>, usize) -> Option<
    ShapeError,
> {
    |r: Option<RowRead>, i: usize|
        match r {
            None => Some(ShapeError::UnreadableRow { row: i }),
            Some(row) => if i > 0 && row.len != first_len {
                Some(ShapeError::RowLength { row: i, got: row.len, expected: first_len })
            } else if !row.values_ok {
                Some(ShapeError::UnreadableValue { row: i })
            } else {
                None
            },
        }
}

/// What the nested reader decides: the number of rows and the length of the
/// first, or the first failure.
pub open spec fn nested_outcome(rows: Seq<Option<RowRead>>) -> Result<(usize, usize), ShapeError> {
    if rows.len() == 0 {
        Err(ShapeError::EmptyData)
    } else {
        let first_len = match rows[0] {
            Some(r) => r.len,
            None => 0,
        };
        match first_failure(rows, nested_row_check(first_len), 0) {
            Some(e) => Err(e),
            None => Ok((rows.len() as usize, first_len)),
        }
    }
}

/// A row checked by the numeric reader: it must be an array, its values must
/// convert, and then it must be as long as the first row.
pub open spec fn numeric_row_check(first_len: usize) -> spec_fn(Option<RowRead>, usize) -> Option<
    ShapeError,
> {
    |r: Option<RowRead>, i: usize|
        match r {
            None => Some(ShapeError::NotAnArray { row: i }),
            Some(row) => if !row.values_ok {
                Some(ShapeError::UnreadableValue { row: i })
            } else if i > 0 && row.len != first_len {
                Some(ShapeError::RaggedRows)
            } else {
                None
            },
        }
}

/// What the numeric reader decides: the number of rows and the length of the
/// first, or the first failure.
pub open spec fn numeric_outcome(rows: Seq<Option<RowRead>>) -> Result<(usize, usize), ShapeError> {
    if rows.len() == 0 {
        Err(ShapeError::EmptyInput)
    } else {
        let first_len = match rows[0] {
            Some(r) => r.len,
            None => 0,
        };
        match first_failure(rows, numeric_row_check(first_len), 0) {
            Some(e) => Err(e),
            None => Ok((rows.len() as usize, first_len)),
        }
    }
}

/// Decides the shape of rows for the dense reader: some rows, a non-empty
/// first row, and every row readable and as long as the first.
pub fn dense_shape(rows: &Vec<Option<RowRead>>) -> (r: Result<(usize, usize), ShapeError>)
    ensures
        r == dense_outcome(rows@),
{
    let n = rows.len();
    if n == 0 {
        return Err(ShapeError::EmptyData);
    }
    let n_features = match rows[0] {
        None => return Err(ShapeError::UnreadableRow { row: 0 }),
        Some(first) => first.len,
    };
    if n_features == 0 {
        return Err(ShapeError::EmptyRows);
    }
    let ghost check = dense_row_check(n_features);
    let mut i: usize = 0;
    while i < n
        invariant
            n == rows@.len(),
            i <= n,
            check == dense_row_check(n_features),
            n_features > 0,
            rows@[0] matches Some(f) && f.len == n_features,
            first_failure(rows@, check, 0) == first_failure(rows@, check, i as int),
        decreases n - i,
    {
        proof {
            assert(first_failure(rows@, check, i as int) == match check(rows@[i as int], i) {
                Some(e) => Some(e),
                None => first_failure(rows@, check, i + 1),
            });
        }
        match rows[i] {
            None => return Err(ShapeError::UnreadableRow { row: i }),
            Some(row) => {
                if row.len != n_features {
                    return Err(ShapeError::RowLength { row: i, got: row.len, expected: n_features });
                }
                if !row.values_ok {
                    return Err(ShapeError::UnreadableValue { row: i });
                }
            },
        }
        i = i + 1;
    }
    Ok((n, n_features))
}

/// Decides the shape of rows for the nested reader: some rows, every row
/// readable, and every row after the first as long as the first.
pub fn nested_shape(rows: &Vec<Option<RowRead>>) -> (r: Result<(usize, usize), ShapeError>)
    ensures
        r == nested_outcome(rows@),
{
    let n = rows.len();
    if n == 0 {
        return Err(ShapeError::EmptyData);
    }
    let first_len = match rows[0] {
        Some(first) => first.len,
        None => 0,
    };
    let ghost check = nested_row_check(first_len);
    let mut i: usize = 0;
    while i < n
        invariant
            n == rows@.len(),
            i <= n,
            check == nested_row_check(first_len),
            n > 0,
            first_len == match rows@[0] {
                Some(r) => r.len,
                None => 0,
            },
            first_failure(rows@, check, 0) == first_failure(rows@, check, i as int),
        decreases n - i,
    {
        proof {
            assert(first_failure(rows@, check, i as int) == match check(rows@[i as int], i) {
                Some(e) => Some(e),
                None => first_failure(rows@, check, i + 1),
            });
        }
        match rows[i] {
            None => return Err(ShapeError::UnreadableRow { row: i }),
            Some(row) => {
                if i > 0 && row.len != first_len {
                    return Err(ShapeError::RowLength { row: i, got: row.len, expected: first_len });
                }
                if !row.values_ok {
                    return Err(ShapeError::UnreadableValue { row: i });
                }
            },
        }
        i = i + 1;
    }
    Ok((n, first_len))
}

/// Decides the shape of rows for the numeric reader: some rows, every row an
/// array of convertible values, and every row after the first as long as the
/// first.
pub fn numeric_shape(rows: &Vec<Option<RowRead>>) -> (r: Result<(usize, usize), ShapeError>)
    ensures
        r == numeric_outcome(rows@),
{
    let n = rows.len();
    if n == 0 {
        return Err(ShapeError::EmptyInput);
    }
    let first_len = match rows[0] {
        Some(first) => first.len,
        None => 0,
    };
    let ghost check = numeric_row_check(first_len);
    let mut i: usize = 0;
    while i < n
        invariant
            n == rows@.len(),
            i <= n,
            check == numeric_row_check(first_len),
            n > 0,
            first_len == match rows@[0] {
                Some(r) => r.len,
                None => 0,
            },
            first_failure(rows@, check, 0) == first_failure(rows@, check, i as int),
        decreases n - i,
    {
        proof {
            assert(first_failure(rows@, check, i as int) == match check(rows@[i as int], i) {
                Some(e) => Some(e),
                None => first_failure(rows@, check, i + 1),
            });
        }
        match rows[i] {
            None => return Err(ShapeError::NotAnArray { row: i }),
            Some(row) => {
                if !row.values_ok {
                    return Err(ShapeError::UnreadableValue { row: i });
                }
                if i > 0 && row.len != first_len {
                    return Err(ShapeError::RaggedRows);
                }
            },
        }
        i = i + 1;
    }
    Ok((n, first_len))
}

/// The class and message of a shape failure; none where the caller holds the reason.
pub open spec fn shape_error_text(e: ShapeError) -> Option<(ErrorKind, Seq<char>)> {
    match e {
        ShapeError::EmptyData => Some((ErrorKind::ArgumentError, "Data cannot be empty"@)),
        ShapeError::EmptyInput => Some((ErrorKind::ArgumentError, "Input data cannot be empty"@)),
        ShapeError::EmptyRows => Some((ErrorKind::ArgumentError, "Data rows cannot be empty"@)),
        ShapeError::RowLength { row, got, expected } => Some(
            (
                ErrorKind::ArgumentError,
                "Row "@ + decimal(row as nat) + " has "@ + decimal(got as nat) + " elements, expected "@
                    + decimal(expected as nat),
            ),
        ),
        ShapeError::NotAnArray { .. } => Some(
            (ErrorKind::TypeError, "Expected array of arrays (2D array)"@),
        ),
        ShapeError::RaggedRows => Some(
            (ErrorKind::ArgumentError, "All rows must have the same length"@),
        ),
        ShapeError::UnreadableRow { .. } => None,
        ShapeError::UnreadableValue { .. } => None,
    }
}

impl ShapeError {
    /// The exception class and message under which the failure reaches the
    /// user; `None` where the caller holds the reason.
    pub fn describe(&self) -> (r: Option<(ErrorKind, String)>)
        ensures
            match shape_error_text(*self) {
                None => r.is_none(),
                Some((k, m)) => r.is_some() && r.unwrap().0 == k && r.unwrap().1@ == m,
            },
    {
        match self {
            ShapeError::EmptyData => Some((ErrorKind::ArgumentError, owned("Data cannot be empty"))),
            ShapeError::EmptyInput => Some(
                (ErrorKind::ArgumentError, owned("Input data cannot be empty")),
            ),
            ShapeError::EmptyRows => Some(
                (ErrorKind::ArgumentError, owned("Data rows cannot be empty")),
            ),
            ShapeError::RowLength { row, got, expected } => {
                let m = owned("Row ");
                let s = decimal_string(*row);
                let m = joined(m, s.as_str());
                let m = joined(m, " has ");
                let s = decimal_string(*got);
                let m = joined(m, s.as_str());
                let m = joined(m, " elements, expected ");
                let s = decimal_string(*expected);
                let m = joined(m, s.as_str());
                Some((ErrorKind::ArgumentError, m))
            },
            ShapeError::NotAnArray { .. } => Some(
                (ErrorKind::TypeError, owned("Expected array of arrays (2D array)")),
            ),
            ShapeError::RaggedRows => Some(
                (ErrorKind::ArgumentError, owned("All rows must have the same length")),
            ),
            ShapeError::UnreadableRow { .. } => None,
            ShapeError::UnreadableValue { .. } => None,
        }
    }
}

/// Rows that all read, convert and have the same, non-empty length are
/// accepted by every reader, with their count and length.
pub proof fn law_rectangular_rows_accepted(rows: Seq<Option<RowRead>>, width: usize)
    requires
        rows.len() > 0,
        rows.len() <= usize::MAX,
        width > 0,
        forall|i: int|
            0 <= i < rows.len() ==> #[trigger] rows[i] == Some(RowRead { len: width, values_ok: true }),
    ensures
        dense_outcome(rows) == Ok::<(usize, usize), ShapeError>((rows.len() as usize, width)),
        nested_outcome(rows) == Ok::<(usize, usize), ShapeError>((rows.len() as usize, width)),
        numeric_outcome(rows) == Ok::<(usize, usize), ShapeError>((rows.len() as usize, width)),
{
    assert(rows[0] == Some(RowRead { len: width, values_ok: true }));
    lemma_first_failure_none(rows, dense_row_check(width), 0);
    lemma_first_failure_none(rows, nested_row_check(width), 0);
    lemma_first_failure_none(rows, numeric_row_check(width), 0);
}

/// The dense reader accepts only rows that all read, convert and are as long
/// as a non-empty first row.
pub proof fn law_dense_accepts_only_rectangular(rows: Seq<Option<RowRead>>)
    requires
        rows.len() <= usize::MAX,
        dense_outcome(rows) is Ok,
    ensures
        ({
            let (n, width) = dense_outcome(rows)->Ok_0;
            &&& n == rows.len()
            &&& width > 0
            &&& forall|i: int|
                0 <= i < rows.len() ==> #[trigger] rows[i] == Some(
                    RowRead { len: width, values_ok: true },
                )
        }),
{
    let width = rows[0]->Some_0.len;
    lemma_first_failure_none(rows, dense_row_check(width), 0);
    assert forall|i: int| 0 <= i < rows.len() implies #[trigger] rows[i] == Some(
        RowRead { len: width, values_ok: true },
    ) by {
        assert(dense_row_check(width)(rows[i], i as usize) is None);
    }
}

} // verus!
