use pipeline_core::column::{Int64Column, KernelError, Utf8Column};
use pipeline_core::kernels::{add_int64, add_utf8, filter_int64, string_length};

fn strings(items: &[Option<&str>]) -> Utf8Column {
    let v: Vec<Option<String>> = items.iter().map(|s| s.map(|t| t.to_string())).collect();
    Utf8Column::from_options(&v)
}

fn string_rows(c: &Utf8Column) -> Vec<Option<String>> {
    (0..c.len()).map(|i| c.get(i)).collect()
}

#[test]
fn it_works() {
    let result = pipeline_core::add(2, 2);
    assert_eq!(result, 4);
}

#[test]
fn add_int64_sums_rows() {
    let a = Int64Column::from_options(&vec![Some(1), Some(2), Some(3)]);
    let b = Int64Column::from_options(&vec![Some(10), Some(20), Some(30)]);
    let r = add_int64(&a, &b).unwrap();
    assert_eq!(r.to_options(), vec![Some(11), Some(22), Some(33)]);
}

#[test]
fn add_int64_wraps_on_overflow() {
    let a = Int64Column::from_options(&vec![Some(i64::MAX), Some(i64::MIN)]);
    let b = Int64Column::from_options(&vec![Some(1), Some(-1)]);
    let r = add_int64(&a, &b).unwrap();
    assert_eq!(r.to_options(), vec![Some(i64::MIN), Some(i64::MAX)]);
}

#[test]
fn add_int64_propagates_nulls() {
    let a = Int64Column::from_options(&vec![None, Some(2), None, Some(4)]);
    let b = Int64Column::from_options(&vec![Some(1), None, None, Some(5)]);
    let r = add_int64(&a, &b).unwrap();
    assert_eq!(r.to_options(), vec![None, None, None, Some(9)]);
}

#[test]
fn add_int64_rejects_unequal_lengths() {
    let a = Int64Column::from_options(&vec![Some(1), Some(2)]);
    let b = Int64Column::from_options(&vec![Some(1)]);
    assert_eq!(add_int64(&a, &b).unwrap_err(), KernelError::ShapeMismatch);
}

#[test]
fn int64_column_new_checks_lengths() {
    let c = Int64Column::new(vec![1, 2, 3], vec![true, false, true]).unwrap();
    assert_eq!(c.to_options(), vec![Some(1), None, Some(3)]);
    assert_eq!(Int64Column::new(vec![1, 2], vec![true]).unwrap_err(), KernelError::ShapeMismatch);
}

#[test]
fn add_utf8_concatenates_three_columns() {
    let s1 = strings(&[Some("hey"), Some("hi"), Some("yo")]);
    let s2 = strings(&[Some(" "), Some(" "), Some(" ")]);
    let s3 = strings(&[Some("dude"), Some("guy"), Some("bro")]);
    let left = add_utf8(&add_utf8(&s1, &s2).unwrap(), &s3).unwrap();
    let right = add_utf8(&s1, &add_utf8(&s2, &s3).unwrap()).unwrap();
    let expected = vec![
        Some("hey dude".to_string()),
        Some("hi guy".to_string()),
        Some("yo bro".to_string()),
    ];
    assert_eq!(string_rows(&left), expected);
    assert_eq!(string_rows(&right), expected);
}

#[test]
fn add_utf8_propagates_nulls_and_checks_lengths() {
    let a = strings(&[Some("a"), None]);
    let b = strings(&[None, Some("b")]);
    assert_eq!(string_rows(&add_utf8(&a, &b).unwrap()), vec![None, None]);
    let c = strings(&[Some("c")]);
    assert_eq!(add_utf8(&a, &c).unwrap_err(), KernelError::ShapeMismatch);
}

#[test]
fn filter_keeps_masked_rows_and_nulls() {
    let v = Int64Column::from_options(&vec![Some(1), None, Some(3), None, Some(5)]);
    let r = filter_int64(&v, &vec![true, true, false, true, true]).unwrap();
    assert_eq!(r.to_options(), vec![Some(1), None, None, Some(5)]);
}

#[test]
fn filter_drops_unmasked_present_values() {
    let v = Int64Column::from_options(&vec![Some(1), None, Some(3), Some(5)]);
    let r = filter_int64(&v, &vec![true, true, false, true]).unwrap();
    assert_eq!(r.to_options(), vec![Some(1), None, Some(5)]);
}

#[test]
fn filter_keeps_null_rows_under_false_mask() {
    let v = Int64Column::from_options(&vec![None, Some(2)]);
    let r = filter_int64(&v, &vec![false, false]).unwrap();
    assert_eq!(r.to_options(), vec![None]);
}

#[test]
fn filter_rejects_unequal_lengths() {
    let v = Int64Column::from_options(&vec![Some(1)]);
    assert_eq!(filter_int64(&v, &vec![true, false]).unwrap_err(), KernelError::ShapeMismatch);
}

#[test]
fn string_length_counts_bytes() {
    let s = strings(&[Some("hey"), Some("yo"), Some("hello")]);
    assert_eq!(string_length(&s).to_options(), vec![Some(3), Some(2), Some(5)]);
}

#[test]
fn string_length_of_multibyte_and_null() {
    let s = strings(&[Some("é"), None, Some(""), Some("日本")]);
    assert_eq!(string_length(&s).to_options(), vec![Some(2), None, Some(0), Some(6)]);
}

#[test]
fn empty_columns_add_to_empty() {
    let a = Int64Column::from_options(&vec![]);
    let r = add_int64(&a, &a).unwrap();
    assert_eq!(r.len(), 0);
}
