use rowscan::column::{Column, DataType};
use rowscan::error::{ComputeFault, EngineError};
use rowscan::multi_index::{multi_index, take};

fn dictionary() -> Column {
    Column::Utf8(vec![Some("x".to_string()), Some("y".to_string()), Some("z".to_string())])
}

fn texts(values: &[Option<&str>]) -> Vec<Option<String>> {
    values.iter().map(|v| v.map(|s| s.to_string())).collect()
}

#[test]
fn multi_index_looks_positions_up() {
    let index = Column::Int64(vec![Some(0), Some(2), None]);
    assert_eq!(multi_index(&index, &dictionary()), Ok(texts(&[Some("x"), Some("z"), None])));
}

#[test]
fn multi_index_fails_out_of_bounds() {
    let index = Column::Int64(vec![Some(0), Some(3), Some(7)]);
    assert_eq!(
        multi_index(&index, &dictionary()),
        Err(EngineError::ComputeError(ComputeFault::IndexOutOfBounds { row: 1, index: 3, len: 3 }))
    );
}

#[test]
fn multi_index_takes_every_index_type() {
    let expected = Ok(texts(&[Some("y"), None, Some("x"), Some("y")]));
    let index = Column::Int32(vec![Some(1), None, Some(0), Some(1)]);
    assert_eq!(multi_index(&index, &dictionary()), expected);
    let index = Column::Int64(vec![Some(1), None, Some(0), Some(1)]);
    assert_eq!(multi_index(&index, &dictionary()), expected);
    let index = Column::UInt32(vec![Some(1), None, Some(0), Some(1)]);
    assert_eq!(multi_index(&index, &dictionary()), expected);
}

#[test]
fn negative_positions_are_out_of_bounds() {
    let index = Column::Int32(vec![Some(2), Some(-1)]);
    assert_eq!(
        multi_index(&index, &dictionary()),
        Err(EngineError::ComputeError(ComputeFault::IndexOutOfBounds {
            row: 1,
            index: u32::MAX,
            len: 3
        }))
    );
    let index = Column::Int64(vec![Some(-2)]);
    assert_eq!(
        multi_index(&index, &dictionary()),
        Err(EngineError::ComputeError(ComputeFault::IndexOutOfBounds {
            row: 0,
            index: u32::MAX - 1,
            len: 3
        }))
    );
}

#[test]
fn wide_positions_keep_their_low_32_bits() {
    let index = Column::Int64(vec![Some((1 << 32) + 1), Some(5 << 32), Some(i64::MIN + 2)]);
    assert_eq!(
        multi_index(&index, &dictionary()),
        Ok(texts(&[Some("y"), Some("x"), Some("z")]))
    );
    let index = Column::Int64(vec![Some((1 << 32) + 3)]);
    assert_eq!(
        multi_index(&index, &dictionary()),
        Err(EngineError::ComputeError(ComputeFault::IndexOutOfBounds { row: 0, index: 3, len: 3 }))
    );
}

#[test]
fn null_entries_are_handed_on() {
    let lookup = Column::Utf8(vec![None, Some("b".to_string())]);
    let index = Column::UInt32(vec![Some(1), Some(0), None]);
    assert_eq!(multi_index(&index, &lookup), Ok(texts(&[Some("b"), None, None])));
}

#[test]
fn all_null_positions_need_no_dictionary_entries() {
    let lookup = Column::Utf8(vec![]);
    let index = Column::Int32(vec![None, None]);
    assert_eq!(multi_index(&index, &lookup), Ok(texts(&[None, None])));
    let index = Column::Int32(vec![None, Some(0)]);
    assert_eq!(
        multi_index(&index, &lookup),
        Err(EngineError::ComputeError(ComputeFault::IndexOutOfBounds { row: 1, index: 0, len: 0 }))
    );
}

#[test]
fn other_index_types_are_unsupported() {
    for index in [
        Column::UInt64(vec![Some(0)]),
        Column::Boolean(vec![Some(true)]),
        Column::Utf8(vec![Some("0".to_string())]),
        Column::Float64(vec![None]),
        Column::Float32(vec![None]),
    ] {
        assert_eq!(
            multi_index(&index, &dictionary()),
            Err(EngineError::ComputeError(ComputeFault::UnsupportedType { dtype: index.dtype() }))
        );
    }
}

#[test]
fn dictionary_must_hold_strings() {
    let index = Column::UInt64(vec![Some(0)]);
    let lookup = Column::Int64(vec![Some(0)]);
    assert_eq!(
        multi_index(&index, &lookup),
        Err(EngineError::ComputeError(ComputeFault::WrongColumnType {
            column: 1,
            actual: DataType::Int64
        }))
    );
}

#[test]
fn take_gathers_and_checks_bounds() {
    let lookup = texts(&[Some("x"), None, Some("z")]);
    assert_eq!(
        take(&lookup, &vec![Some(2), None, Some(1), Some(0), Some(2)]),
        Ok(texts(&[Some("z"), None, None, Some("x"), Some("z")]))
    );
    assert_eq!(
        take(&lookup, &vec![None, Some(9), Some(3)]),
        Err(EngineError::ComputeError(ComputeFault::IndexOutOfBounds { row: 1, index: 9, len: 3 }))
    );
}
