use rowscan::column::Column;
use rowscan::error::{ComputeFault, EngineError};
use rowscan::table::Table;

#[test]
fn table_of_equal_columns_is_accepted() {
    let t = Table::new(vec![
        Column::Int64(vec![Some(1), None]),
        Column::Utf8(vec![None, Some("b".to_string())]),
    ])
    .unwrap();
    assert_eq!(t.width(), 2);
    assert_eq!(t.height(), 2);
}

#[test]
fn table_of_unequal_columns_is_rejected() {
    let r = Table::new(vec![
        Column::Int64(vec![Some(1), None]),
        Column::Int64(vec![Some(1), None]),
        Column::Boolean(vec![Some(true)]),
    ]);
    assert_eq!(
        r.err(),
        Some(EngineError::ComputeError(ComputeFault::LengthMismatch {
            column: 2,
            expected: 2,
            found: 1
        }))
    );
}

#[test]
fn table_without_columns_has_no_rows() {
    let t = Table::new(vec![]).unwrap();
    assert_eq!(t.width(), 0);
    assert_eq!(t.height(), 0);
    assert!(t.columns().is_empty());
}

#[test]
fn table_keeps_its_columns_in_order() {
    let columns = vec![
        Column::Boolean(vec![Some(true)]),
        Column::Utf8(vec![None]),
        Column::Int32(vec![Some(2)]),
    ];
    let t = Table::new(columns.clone()).unwrap();
    assert_eq!(t.columns(), &columns);
}

#[test]
fn first_ragged_column_is_named() {
    let r = Table::new(vec![
        Column::Int64(vec![]),
        Column::Int64(vec![Some(1)]),
        Column::Int64(vec![Some(1), Some(2)]),
    ]);
    assert_eq!(
        r.err(),
        Some(EngineError::ComputeError(ComputeFault::LengthMismatch {
            column: 1,
            expected: 0,
            found: 1
        }))
    );
}
