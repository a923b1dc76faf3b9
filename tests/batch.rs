use pipeline_core::batch::{add_normalized_col, Batch, Column, DataType, Field};
use pipeline_core::column::{Float64Column, Int64Column, KernelError, Utf8Column};

fn floats(items: &[Option<f64>]) -> Float64Column {
    let bits: Vec<Option<u64>> = items.iter().map(|v| v.map(f64::to_bits)).collect();
    Float64Column::from_bits(&bits)
}

fn sample_batch() -> Batch {
    let a = Column::Int64(Int64Column::from_options(&vec![Some(1), Some(2), Some(3)]));
    let b = Column::Float64(floats(&[Some(4.0), None, Some(5.0)]));
    let c = Column::Utf8(Utf8Column::from_options(&vec![
        Some("alpha".to_string()),
        Some("beta".to_string()),
        Some("gamma".to_string()),
    ]));
    Batch::try_new(
        vec![
            Field::new("a", DataType::Int64, false),
            Field::new("b", DataType::Float64, true),
            Field::new("c", DataType::Utf8, false),
        ],
        vec![a, b, c],
        3,
    )
    .unwrap()
}

fn field_list(b: &Batch) -> Vec<(String, DataType, bool)> {
    (0..b.num_columns())
        .map(|i| {
            let f = b.field(i);
            (f.name().to_string(), f.data_type(), f.is_nullable())
        })
        .collect()
}

fn float_rows(c: &Column) -> Vec<Option<u64>> {
    match c {
        Column::Float64(f) => f.to_bits(),
        _ => panic!("not a float column"),
    }
}

#[test]
fn test_add_normed_col() {
    let batch = sample_batch();
    let normed = floats(&[Some(-1.224744871391589), Some(0.0), Some(1.224744871391589)]);
    let res = add_normalized_col(&batch, normed, "normed_a").unwrap();

    assert_eq!(res.num_rows(), 3);
    assert_eq!(
        field_list(&res),
        vec![
            ("a".to_string(), DataType::Int64, false),
            ("b".to_string(), DataType::Float64, true),
            ("c".to_string(), DataType::Utf8, false),
            ("normed_a".to_string(), DataType::Float64, true),
        ]
    );
    let expected: Vec<Option<u64>> = [-1.224744871391589f64, 0.0, 1.224744871391589]
        .iter()
        .map(|v| Some(v.to_bits()))
        .collect();
    assert_eq!(float_rows(res.column(3)), expected);
    match res.column(0) {
        Column::Int64(c) => assert_eq!(c.to_options(), vec![Some(1), Some(2), Some(3)]),
        _ => panic!("column a changed type"),
    }
    assert_eq!(float_rows(res.column(1)), float_rows(batch.column(1)));
}

#[test]
fn append_then_read_back_by_name() {
    let batch = sample_batch();
    let before_b = float_rows(batch.column(1));
    let computed = Int64Column::from_options(&vec![Some(7), None, Some(9)]);
    let res = batch.append_column(Column::Int64(computed), "d").unwrap();
    assert_eq!(res.index_of("d").unwrap(), 3);
    match res.column_by_name("d").unwrap() {
        Column::Int64(c) => assert_eq!(c.to_options(), vec![Some(7), None, Some(9)]),
        _ => panic!("wrong type"),
    }
    assert_eq!(batch.num_columns(), 3);
    assert_eq!(float_rows(batch.column(1)), before_b);
    assert_eq!(float_rows(res.column(1)), before_b);
}

#[test]
fn append_rejects_wrong_row_count() {
    let batch = sample_batch();
    let short = Int64Column::from_options(&vec![Some(1)]);
    let err = batch.append_column(Column::Int64(short), "d").unwrap_err();
    assert_eq!(err, KernelError::RowCountMismatch);
    let err = add_normalized_col(&batch, floats(&[Some(1.0)]), "n").unwrap_err();
    assert_eq!(err, KernelError::RowCountMismatch);
}

#[test]
fn lookup_of_missing_name_fails() {
    let batch = sample_batch();
    assert_eq!(batch.index_of("heart_rate_bpm").unwrap_err(), KernelError::ColumnNotFound);
    assert!(matches!(batch.column_by_name("zzz"), Err(KernelError::ColumnNotFound)));
    assert_eq!(batch.index_of("c").unwrap(), 2);
}

#[test]
fn try_new_checks_shape_and_types() {
    let col = Column::Int64(Int64Column::from_options(&vec![Some(1)]));
    let err = Batch::try_new(vec![Field::new("x", DataType::Int64, true)], vec![col], 2)
        .err()
        .unwrap();
    assert_eq!(err, KernelError::ShapeMismatch);
    let col = Column::Int64(Int64Column::from_options(&vec![Some(1)]));
    let err = Batch::try_new(vec![Field::new("x", DataType::Utf8, true)], vec![col], 1)
        .err()
        .unwrap();
    assert_eq!(err, KernelError::TypeMismatch);
    let err = Batch::try_new(vec![Field::new("x", DataType::Utf8, true)], vec![], 0)
        .err()
        .unwrap();
    assert_eq!(err, KernelError::ShapeMismatch);
}
