use rowscan::bool_locator::{arg_first_true, arg_true, check_coercible};
use rowscan::column::{Column, DataType, Value};
use rowscan::error::{ComputeFault, EngineError};
use rowscan::float_bits::{F32Bits, F64Bits};
use rowscan::null_locator::arg_first_null;
use rowscan::table::Table;

fn table(columns: Vec<Column>) -> Table {
    Table::new(columns).unwrap()
}

#[test]
fn arg_first_null_finds_the_first_null_column() {
    let t = table(vec![
        Column::Int64(vec![Some(1), Some(1)]),
        Column::Int64(vec![None, Some(2)]),
        Column::Int64(vec![Some(3), Some(3)]),
    ]);
    assert_eq!(arg_first_null(&t), Ok(vec![Some(1), None]));
}

#[test]
fn arg_first_null_takes_mixed_types() {
    let t = table(vec![
        Column::Utf8(vec![Some("a".to_string()), None, Some("c".to_string())]),
        Column::Boolean(vec![Some(false), None, Some(true)]),
        Column::Float64(vec![None, Some(F64Bits(f64::NAN.to_bits())), Some(F64Bits(0))]),
        Column::UInt32(vec![None, None, Some(0)]),
    ]);
    assert_eq!(arg_first_null(&t), Ok(vec![Some(2), Some(0), None]));
}

#[test]
fn arg_first_null_refuses_an_empty_table() {
    assert_eq!(
        arg_first_null(&table(vec![])),
        Err(EngineError::ComputeError(ComputeFault::EmptyTable))
    );
}

#[test]
fn arg_first_null_of_no_rows_is_empty() {
    assert_eq!(arg_first_null(&table(vec![Column::Utf8(vec![])])), Ok(vec![]));
}

#[test]
fn arg_true_lists_all_true_columns() {
    let t = table(vec![
        Column::Boolean(vec![Some(true)]),
        Column::Boolean(vec![Some(false)]),
        Column::Boolean(vec![Some(true)]),
    ]);
    assert_eq!(arg_true(&t), Ok(vec![vec![0, 2]]));
}

#[test]
fn arg_true_of_an_all_false_row_is_empty() {
    let t = table(vec![
        Column::Boolean(vec![Some(false), None]),
        Column::Boolean(vec![Some(false), None]),
        Column::Boolean(vec![Some(false), Some(false)]),
    ]);
    assert_eq!(arg_true(&t), Ok(vec![vec![], vec![]]));
}

#[test]
fn arg_first_true_finds_the_first_true_column() {
    let t = table(vec![
        Column::Boolean(vec![Some(false), None, Some(true), None]),
        Column::Boolean(vec![Some(true), None, Some(true), Some(false)]),
        Column::Boolean(vec![Some(true), Some(true), Some(false), None]),
    ]);
    assert_eq!(arg_first_true(&t), Ok(vec![Some(1), Some(2), Some(0), None]));
    assert_eq!(arg_true(&t), Ok(vec![vec![1, 2], vec![2], vec![0, 1], vec![]]));
}

#[test]
fn numbers_count_as_true_when_not_zero() {
    let t = table(vec![
        Column::Int32(vec![Some(0), Some(-1), None]),
        Column::Int64(vec![Some(0), Some(0), Some(i64::MIN)]),
        Column::UInt32(vec![Some(0), Some(7), Some(0)]),
        Column::UInt64(vec![Some(0), Some(0), Some(1)]),
        Column::Float32(vec![
            Some(F32Bits(0.0f32.to_bits())),
            Some(F32Bits((-0.0f32).to_bits())),
            Some(F32Bits(f32::NAN.to_bits())),
        ]),
        Column::Float64(vec![
            Some(F64Bits((-0.0f64).to_bits())),
            Some(F64Bits(0.5f64.to_bits())),
            None,
        ]),
        Column::Boolean(vec![Some(false), Some(true), None]),
    ]);
    assert_eq!(arg_true(&t), Ok(vec![vec![], vec![0, 2, 5, 6], vec![1, 3, 4]]));
    assert_eq!(arg_first_true(&t), Ok(vec![None, Some(0), Some(1)]));
}

#[test]
fn boolean_locators_refuse_strings_and_empty_tables() {
    let t = table(vec![
        Column::Boolean(vec![Some(true)]),
        Column::Utf8(vec![Some("true".to_string())]),
        Column::Utf8(vec![None]),
    ]);
    let e = EngineError::ComputeError(ComputeFault::WrongColumnType {
        column: 1,
        actual: DataType::Utf8,
    });
    assert_eq!(arg_true(&t), Err(e));
    assert_eq!(arg_first_true(&t), Err(e));
    assert_eq!(check_coercible(&t), Err(e));
    let empty = EngineError::ComputeError(ComputeFault::EmptyTable);
    assert_eq!(arg_true(&table(vec![])), Err(empty));
    assert_eq!(arg_first_true(&table(vec![])), Err(empty));
    assert_eq!(check_coercible(&table(vec![Column::Int32(vec![])])), Ok(()));
}

#[test]
fn cells_answer_for_null_and_truth() {
    let c = Column::Int32(vec![Some(0), None, Some(3)]);
    assert_eq!(c.len(), 3);
    assert_eq!(c.dtype(), DataType::Int32);
    assert_eq!((c.is_null(0), c.is_null(1), c.is_null(2)), (false, true, false));
    assert_eq!((c.is_true(0), c.is_true(1), c.is_true(2)), (false, false, true));
    let c = Column::Utf8(vec![Some("x".to_string()), None]);
    assert_eq!(c.dtype(), DataType::Utf8);
    assert_eq!((c.is_null(0), c.is_null(1)), (false, true));
    assert_eq!((c.is_true(0), c.is_true(1)), (false, false));
}

#[test]
fn cells_hand_out_their_values() {
    let c = Column::Int64(vec![Some(-4), None]);
    assert_eq!(c.get(0), Some(Value::Int64(-4)));
    assert_eq!(c.get(1), None);
    let c = Column::Utf8(vec![None, Some("x".to_string())]);
    assert_eq!(c.get(0), None);
    assert_eq!(c.get(1), Some(Value::Utf8("x".to_string())));
    let c = Column::Float64(vec![Some(F64Bits(1.5f64.to_bits()))]);
    assert_eq!(c.get(0), Some(Value::Float64(F64Bits(0x3ff8_0000_0000_0000))));
    let c = Column::Float32(vec![Some(F32Bits(1.5f32.to_bits()))]);
    assert_eq!(c.get(0), Some(Value::Float32(F32Bits(0x3fc0_0000))));
    assert_eq!(Column::Boolean(vec![Some(true)]).get(0), Some(Value::Boolean(true)));
    assert_eq!(Column::Int32(vec![Some(7)]).get(0), Some(Value::Int32(7)));
    assert_eq!(Column::UInt32(vec![Some(7)]).get(0), Some(Value::UInt32(7)));
    assert_eq!(Column::UInt64(vec![Some(7)]).get(0), Some(Value::UInt64(7)));
}
