use rowscan::column::{Column, DataType};
use rowscan::error::{ComputeFault, EngineError};
use rowscan::extremum::{
    arg_extreme, arg_max, arg_max_colname, arg_min, arg_min_colname, check_types, resolve_labels,
    Mode,
};
use rowscan::float_bits::{F32Bits, F64Bits};
use rowscan::table::Table;

fn table(columns: Vec<Column>) -> Table {
    Table::new(columns).unwrap()
}

fn f64s(values: &[Option<f64>]) -> Column {
    Column::Float64(values.iter().map(|v| v.map(|x| F64Bits(x.to_bits()))).collect())
}

fn f32s(values: &[Option<f32>]) -> Column {
    Column::Float32(values.iter().map(|v| v.map(|x| F32Bits(x.to_bits()))).collect())
}

#[test]
fn arg_max_picks_the_largest_per_row() {
    let t = table(vec![
        Column::Int64(vec![Some(1), Some(9), Some(-5)]),
        Column::Int64(vec![Some(4), Some(2), Some(-7)]),
        Column::Int64(vec![Some(3), Some(8), Some(-6)]),
    ]);
    assert_eq!(arg_max(&t), Ok(vec![Some(1), Some(0), Some(0)]));
}

#[test]
fn arg_min_picks_the_smallest_per_row() {
    let t = table(vec![
        Column::Int64(vec![Some(1), Some(9), Some(-5)]),
        Column::Int64(vec![Some(4), Some(2), Some(-7)]),
        Column::Int64(vec![Some(3), Some(8), Some(-6)]),
    ]);
    assert_eq!(arg_min(&t), Ok(vec![Some(0), Some(1), Some(1)]));
}

#[test]
fn arg_extreme_follows_its_mode() {
    let t = table(vec![Column::Int32(vec![Some(1)]), Column::Int32(vec![Some(2)])]);
    assert_eq!(arg_extreme(&t, Mode::Max), Ok(vec![Some(1)]));
    assert_eq!(arg_extreme(&t, Mode::Min), Ok(vec![Some(0)]));
}

#[test]
fn equal_maxima_give_the_lower_column() {
    let t = table(vec![
        Column::Int32(vec![Some(1), Some(7)]),
        Column::Int32(vec![Some(7), Some(7)]),
        Column::Int32(vec![Some(7), Some(7)]),
    ]);
    assert_eq!(arg_max(&t), Ok(vec![Some(1), Some(0)]));
}

#[test]
fn equal_minima_give_the_lower_column() {
    let t = table(vec![
        Column::UInt32(vec![Some(5), Some(0)]),
        Column::UInt32(vec![Some(2), Some(0)]),
        Column::UInt32(vec![Some(2), Some(3)]),
    ]);
    assert_eq!(arg_min(&t), Ok(vec![Some(1), Some(0)]));
}

#[test]
fn null_cells_are_passed_over() {
    let t = table(vec![
        Column::Int64(vec![None, Some(3), None]),
        Column::Int64(vec![Some(-2), None, None]),
        Column::Int64(vec![Some(-9), Some(4), Some(0)]),
    ]);
    assert_eq!(arg_max(&t), Ok(vec![Some(1), Some(2), Some(2)]));
    assert_eq!(arg_min(&t), Ok(vec![Some(2), Some(0), Some(2)]));
}

#[test]
fn all_null_row_gives_null() {
    let t = table(vec![
        Column::Int64(vec![None, Some(1)]),
        Column::Int64(vec![None, None]),
    ]);
    assert_eq!(arg_max(&t), Ok(vec![None, Some(0)]));
    assert_eq!(arg_min(&t), Ok(vec![None, Some(0)]));
}

#[test]
fn single_all_null_column_gives_nulls() {
    let t = table(vec![Column::UInt64(vec![None, None, None])]);
    assert_eq!(arg_max(&t), Ok(vec![None, None, None]));
}

#[test]
fn table_without_rows_gives_no_rows() {
    let t = table(vec![Column::Int32(vec![]), Column::Int32(vec![])]);
    assert_eq!(arg_max(&t), Ok(vec![]));
}

#[test]
fn every_integer_width_is_scanned() {
    let t = table(vec![
        Column::Int32(vec![Some(i32::MIN), Some(i32::MAX)]),
        Column::Int32(vec![Some(0), Some(0)]),
    ]);
    assert_eq!(arg_max(&t), Ok(vec![Some(1), Some(0)]));
    assert_eq!(arg_min(&t), Ok(vec![Some(0), Some(1)]));
    let t = table(vec![
        Column::Int64(vec![Some(i64::MIN), Some(i64::MAX)]),
        Column::Int64(vec![Some(0), Some(0)]),
    ]);
    assert_eq!(arg_max(&t), Ok(vec![Some(1), Some(0)]));
    assert_eq!(arg_min(&t), Ok(vec![Some(0), Some(1)]));
    let t = table(vec![
        Column::UInt32(vec![Some(0), Some(u32::MAX)]),
        Column::UInt32(vec![Some(1), Some(1)]),
    ]);
    assert_eq!(arg_max(&t), Ok(vec![Some(1), Some(0)]));
    assert_eq!(arg_min(&t), Ok(vec![Some(0), Some(1)]));
    let t = table(vec![
        Column::UInt64(vec![Some(0), Some(u64::MAX)]),
        Column::UInt64(vec![Some(1), Some(1 << 63)]),
    ]);
    assert_eq!(arg_max(&t), Ok(vec![Some(1), Some(0)]));
    assert_eq!(arg_min(&t), Ok(vec![Some(0), Some(1)]));
}

#[test]
fn floats_are_ordered_as_numbers() {
    let t = table(vec![
        f64s(&[Some(-1.5), Some(0.25), Some(f64::NEG_INFINITY), Some(-0.0)]),
        f64s(&[Some(-2.5), Some(1e300), Some(-1e308), Some(0.0)]),
        f64s(&[Some(3.0), Some(f64::INFINITY), Some(f64::MIN_POSITIVE), Some(-0.0)]),
    ]);
    assert_eq!(arg_max(&t), Ok(vec![Some(2), Some(2), Some(2), Some(0)]));
    assert_eq!(arg_min(&t), Ok(vec![Some(1), Some(0), Some(0), Some(0)]));
    let t = table(vec![
        f32s(&[Some(-1.5), Some(0.25)]),
        f32s(&[Some(-2.5), Some(f32::MAX)]),
    ]);
    assert_eq!(arg_max(&t), Ok(vec![Some(0), Some(1)]));
    assert_eq!(arg_min(&t), Ok(vec![Some(1), Some(0)]));
}

#[test]
fn nan_is_never_selected() {
    let t = table(vec![
        f64s(&[Some(f64::NAN), Some(1.0), Some(f64::NAN), None]),
        f64s(&[Some(2.0), Some(f64::NAN), Some(f64::NAN), Some(f64::NAN)]),
        f64s(&[Some(1.0), Some(0.5), Some(-f64::NAN), None]),
    ]);
    assert_eq!(arg_max(&t), Ok(vec![Some(1), Some(0), None, None]));
    assert_eq!(arg_min(&t), Ok(vec![Some(2), Some(2), None, None]));
    let t = table(vec![f32s(&[Some(f32::NAN)]), f32s(&[Some(-3.0)])]);
    assert_eq!(arg_max(&t), Ok(vec![Some(1)]));
    assert_eq!(arg_min(&t), Ok(vec![Some(1)]));
}

#[test]
fn bit_pattern_order_agrees_with_float_order() {
    let values: [f64; 15] = [
        f64::NEG_INFINITY,
        f64::MIN,
        -1.0e10,
        -1.0,
        -f64::MIN_POSITIVE,
        -5e-324,
        -0.0,
        0.0,
        5e-324,
        f64::MIN_POSITIVE,
        1.0,
        1.5,
        f64::MAX,
        f64::INFINITY,
        f64::NAN,
    ];
    for a in values {
        for b in values {
            let (x, y) = (F64Bits(a.to_bits()), F64Bits(b.to_bits()));
            assert_eq!(x.gt(y), a > b, "{} > {}", a, b);
            assert_eq!(x.lt(y), a < b, "{} < {}", a, b);
        }
        let x = F64Bits(a.to_bits());
        assert_eq!(x.nan(), a.is_nan());
        assert_eq!(x.nonzero(), a != 0.0);
    }
    let values: [f32; 11] = [
        f32::NEG_INFINITY,
        f32::MIN,
        -1.0,
        -f32::MIN_POSITIVE,
        -0.0,
        0.0,
        1e-45,
        2.5,
        f32::MAX,
        f32::INFINITY,
        f32::NAN,
    ];
    for a in values {
        for b in values {
            let (x, y) = (F32Bits(a.to_bits()), F32Bits(b.to_bits()));
            assert_eq!(x.gt(y), a > b, "{} > {}", a, b);
            assert_eq!(x.lt(y), a < b, "{} < {}", a, b);
        }
        let x = F32Bits(a.to_bits());
        assert_eq!(x.nan(), a.is_nan());
        assert_eq!(x.nonzero(), a != 0.0);
    }
}

#[test]
fn signed_magnitude_of_known_patterns() {
    assert_eq!(F64Bits(0).signed_magnitude(), 0);
    assert_eq!(F64Bits(0x8000_0000_0000_0000).signed_magnitude(), 0);
    assert_eq!(F64Bits(1.0f64.to_bits()).signed_magnitude(), 0x3ff0_0000_0000_0000);
    assert_eq!(F64Bits((-1.0f64).to_bits()).signed_magnitude(), -0x3ff0_0000_0000_0000);
    assert_eq!(F32Bits(1.0f32.to_bits()).signed_magnitude(), 0x3f80_0000);
    assert_eq!(F32Bits((-1.0f32).to_bits()).signed_magnitude(), -0x3f80_0000);
}

#[test]
fn empty_table_is_a_compute_error() {
    let t = table(vec![]);
    let e = Err(EngineError::ComputeError(ComputeFault::EmptyTable));
    assert_eq!(arg_max(&t), e);
    assert_eq!(arg_min(&t), e);
    assert_eq!(arg_max_colname(&t, &vec![]), Err(EngineError::ComputeError(ComputeFault::EmptyTable)));
}

#[test]
fn mixed_types_are_a_schema_mismatch() {
    let t = table(vec![
        Column::Int64(vec![Some(1)]),
        Column::Int64(vec![Some(2)]),
        Column::Int32(vec![Some(3)]),
        Column::Utf8(vec![None]),
    ]);
    let e = EngineError::SchemaMismatch {
        column: 2,
        expected: DataType::Int64,
        actual: DataType::Int32,
    };
    assert_eq!(arg_max(&t), Err(e));
    assert_eq!(arg_min(&t), Err(e));
    assert_eq!(check_types(&t), Err(e));
}

#[test]
fn schema_mismatch_comes_before_unsupported_type() {
    let t = table(vec![Column::Utf8(vec![None]), Column::Int64(vec![Some(2)])]);
    assert_eq!(
        arg_max(&t),
        Err(EngineError::SchemaMismatch {
            column: 1,
            expected: DataType::Utf8,
            actual: DataType::Int64
        })
    );
}

#[test]
fn non_numeric_types_are_unsupported() {
    let t = table(vec![Column::Boolean(vec![Some(true)]), Column::Boolean(vec![None])]);
    assert_eq!(
        arg_max(&t),
        Err(EngineError::ComputeError(ComputeFault::UnsupportedType { dtype: DataType::Boolean }))
    );
    let t = table(vec![Column::Utf8(vec![Some("a".to_string())])]);
    assert_eq!(
        arg_min(&t),
        Err(EngineError::ComputeError(ComputeFault::UnsupportedType { dtype: DataType::Utf8 }))
    );
}

#[test]
fn check_types_accepts_uniform_and_empty_tables() {
    assert_eq!(check_types(&table(vec![])), Ok(()));
    let t = table(vec![Column::Boolean(vec![]), Column::Boolean(vec![])]);
    assert_eq!(check_types(&t), Ok(()));
}

#[test]
fn colname_is_the_name_at_the_arg_max_position() {
    let t = table(vec![
        Column::Int64(vec![Some(1), None, Some(5), Some(0)]),
        Column::Int64(vec![Some(4), None, Some(5), Some(-1)]),
        Column::Int64(vec![Some(3), None, Some(2), Some(9)]),
    ]);
    let names = vec!["a".to_string(), "b".to_string(), "c".to_string()];
    let labels = arg_max_colname(&t, &names).unwrap();
    assert_eq!(
        labels,
        vec![Some("b".to_string()), None, Some("a".to_string()), Some("c".to_string())]
    );
    let indices = arg_max(&t).unwrap();
    for (row, index) in indices.iter().enumerate() {
        assert_eq!(labels[row], index.map(|i| names[i as usize].clone()));
    }
    let labels = arg_min_colname(&t, &names).unwrap();
    assert_eq!(
        labels,
        vec![Some("a".to_string()), None, Some("c".to_string()), Some("b".to_string())]
    );
    let indices = arg_min(&t).unwrap();
    for (row, index) in indices.iter().enumerate() {
        assert_eq!(labels[row], index.map(|i| names[i as usize].clone()));
    }
}

#[test]
fn position_without_a_name_gives_the_empty_string() {
    let t = table(vec![
        Column::Int64(vec![Some(1), Some(7)]),
        Column::Int64(vec![Some(4), Some(2)]),
    ]);
    let names = vec!["only".to_string()];
    assert_eq!(
        arg_max_colname(&t, &names),
        Ok(vec![Some("".to_string()), Some("only".to_string())])
    );
    assert_eq!(
        resolve_labels(&vec![Some(0), None, Some(1), Some(u32::MAX)], &names),
        vec![Some("only".to_string()), None, Some("".to_string()), Some("".to_string())]
    );
}

#[test]
fn colname_reports_the_errors_of_the_scan() {
    let t = table(vec![Column::Int64(vec![Some(1)]), Column::UInt64(vec![Some(2)])]);
    assert_eq!(
        arg_min_colname(&t, &vec!["a".to_string(), "b".to_string()]),
        Err(EngineError::SchemaMismatch {
            column: 1,
            expected: DataType::Int64,
            actual: DataType::UInt64
        })
    );
}
