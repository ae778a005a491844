use clusterkit::error::ErrorKind;
use clusterkit::shape::{dense_shape, nested_shape, numeric_shape, RowRead, ShapeError};

fn ok(len: usize) -> Option<RowRead> {
    Some(RowRead { len, values_ok: true })
}

#[test]
fn dense_accepts_a_rectangle() {
    assert_eq!(dense_shape(&vec![ok(3), ok(3)]), Ok((2, 3)));
}

#[test]
fn dense_refusals_in_order() {
    assert_eq!(dense_shape(&vec![]), Err(ShapeError::EmptyData));
    assert_eq!(dense_shape(&vec![None, ok(2)]), Err(ShapeError::UnreadableRow { row: 0 }));
    assert_eq!(dense_shape(&vec![ok(0), ok(0)]), Err(ShapeError::EmptyRows));
    assert_eq!(
        dense_shape(&vec![ok(2), ok(3), None]),
        Err(ShapeError::RowLength { row: 1, got: 3, expected: 2 })
    );
    assert_eq!(
        dense_shape(&vec![ok(2), Some(RowRead { len: 2, values_ok: false }), ok(5)]),
        Err(ShapeError::UnreadableValue { row: 1 })
    );
    assert_eq!(
        dense_shape(&vec![ok(2), Some(RowRead { len: 3, values_ok: false })]),
        Err(ShapeError::RowLength { row: 1, got: 3, expected: 2 })
    );
}

#[test]
fn nested_allows_empty_rows_of_one_length() {
    assert_eq!(nested_shape(&vec![ok(0), ok(0)]), Ok((2, 0)));
    assert_eq!(nested_shape(&vec![ok(4)]), Ok((1, 4)));
    assert_eq!(nested_shape(&vec![]), Err(ShapeError::EmptyData));
    assert_eq!(
        nested_shape(&vec![ok(2), ok(1)]),
        Err(ShapeError::RowLength { row: 1, got: 1, expected: 2 })
    );
    assert_eq!(
        nested_shape(&vec![Some(RowRead { len: 2, values_ok: false }), ok(1)]),
        Err(ShapeError::UnreadableValue { row: 0 })
    );
    assert_eq!(nested_shape(&vec![ok(2), None]), Err(ShapeError::UnreadableRow { row: 1 }));
}

#[test]
fn numeric_converts_before_comparing_lengths() {
    assert_eq!(numeric_shape(&vec![ok(2), ok(2), ok(2)]), Ok((3, 2)));
    assert_eq!(numeric_shape(&vec![]), Err(ShapeError::EmptyInput));
    assert_eq!(numeric_shape(&vec![ok(2), None]), Err(ShapeError::NotAnArray { row: 1 }));
    assert_eq!(
        numeric_shape(&vec![ok(2), Some(RowRead { len: 3, values_ok: false })]),
        Err(ShapeError::UnreadableValue { row: 1 })
    );
    assert_eq!(numeric_shape(&vec![ok(2), ok(3)]), Err(ShapeError::RaggedRows));
}

#[test]
fn shape_messages() {
    assert_eq!(
        ShapeError::RowLength { row: 4, got: 10, expected: 3 }.describe(),
        Some((ErrorKind::ArgumentError, "Row 4 has 10 elements, expected 3".to_string()))
    );
    assert_eq!(
        ShapeError::EmptyData.describe(),
        Some((ErrorKind::ArgumentError, "Data cannot be empty".to_string()))
    );
    assert_eq!(
        ShapeError::EmptyInput.describe(),
        Some((ErrorKind::ArgumentError, "Input data cannot be empty".to_string()))
    );
    assert_eq!(
        ShapeError::EmptyRows.describe(),
        Some((ErrorKind::ArgumentError, "Data rows cannot be empty".to_string()))
    );
    assert_eq!(
        ShapeError::NotAnArray { row: 0 }.describe(),
        Some((ErrorKind::TypeError, "Expected array of arrays (2D array)".to_string()))
    );
    assert_eq!(
        ShapeError::RaggedRows.describe(),
        Some((ErrorKind::ArgumentError, "All rows must have the same length".to_string()))
    );
    assert_eq!(ShapeError::UnreadableRow { row: 1 }.describe(), None);
    assert_eq!(ShapeError::UnreadableValue { row: 1 }.describe(), None);
}
