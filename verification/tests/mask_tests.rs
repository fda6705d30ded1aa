use rowscan::column::{Column, DataType};
use rowscan::error::{ComputeFault, EngineError};
use rowscan::extreme_mask::{all_false, build_mask, is_extreme, is_max, is_min};
use rowscan::extremum::Mode;
use rowscan::float_bits::F64Bits;

#[test]
fn is_max_marks_the_first_maximum() {
    let c = Column::Int64(vec![Some(3), Some(7), Some(7), Some(2)]);
    assert_eq!(is_max(&c), Ok(vec![false, true, false, false]));
}

#[test]
fn is_min_marks_the_first_minimum() {
    let c = Column::Int32(vec![Some(3), Some(-7), Some(7), Some(-7)]);
    assert_eq!(is_min(&c), Ok(vec![false, true, false, false]));
}

#[test]
fn is_extreme_follows_its_mode() {
    let c = Column::UInt32(vec![Some(3), Some(1), Some(4)]);
    assert_eq!(is_extreme(&c, Mode::Max), Ok(vec![false, false, true]));
    assert_eq!(is_extreme(&c, Mode::Min), Ok(vec![false, true, false]));
}

#[test]
fn mask_skips_nulls() {
    let c = Column::UInt64(vec![None, Some(1), None, Some(5), None]);
    assert_eq!(is_max(&c), Ok(vec![false, false, false, true, false]));
    assert_eq!(is_min(&c), Ok(vec![false, true, false, false, false]));
}

#[test]
fn mask_of_all_null_column_is_all_false() {
    let c = Column::Int64(vec![None, None]);
    assert_eq!(is_max(&c), Ok(vec![false, false]));
    assert_eq!(is_min(&c), Ok(vec![false, false]));
}

#[test]
fn mask_of_empty_column_is_empty() {
    let c = Column::Int64(vec![]);
    assert_eq!(is_max(&c), Ok(vec![]));
    assert_eq!(is_min(&c), Ok(vec![]));
}

#[test]
fn mask_never_marks_nan() {
    let bits = |x: f64| Some(F64Bits(x.to_bits()));
    let c = Column::Float64(vec![bits(f64::NAN), bits(-1.0), bits(2.0), bits(f64::NAN)]);
    assert_eq!(is_max(&c), Ok(vec![false, false, true, false]));
    assert_eq!(is_min(&c), Ok(vec![false, true, false, false]));
    let c = Column::Float64(vec![bits(f64::NAN), None]);
    assert_eq!(is_max(&c), Ok(vec![false, false]));
}

#[test]
fn mask_of_non_numeric_column_is_refused() {
    let c = Column::Utf8(vec![Some("a".to_string())]);
    assert_eq!(
        is_max(&c),
        Err(EngineError::ComputeError(ComputeFault::UnsupportedType { dtype: DataType::Utf8 }))
    );
    let c = Column::Boolean(vec![Some(true)]);
    assert_eq!(
        is_min(&c),
        Err(EngineError::ComputeError(ComputeFault::UnsupportedType { dtype: DataType::Boolean }))
    );
}

#[test]
fn build_mask_sets_one_row() {
    assert_eq!(build_mask(4, 2), vec![false, false, true, false]);
    assert_eq!(build_mask(1, 0), vec![true]);
    assert_eq!(build_mask(3, 3), vec![false, false, false]);
    assert_eq!(build_mask(0, 0), Vec::<bool>::new());
    assert_eq!(all_false(2), vec![false, false]);
}
