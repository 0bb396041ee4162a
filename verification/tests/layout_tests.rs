use matmul_jit::MatmulError;
use matmul_jit::col_major_to_row_major;
use matmul_jit::row_major_to_col_major;

#[test]
fn test_row_major_to_col_major_2x3() {
    let src = vec![1i64, 2, 3, 4, 5, 6];
    let dst = row_major_to_col_major(&src, 2, 3).unwrap();
    assert_eq!(dst, vec![1i64, 4, 2, 5, 3, 6]);
}

#[test]
fn test_col_major_to_row_major_2x3() {
    let src = vec![1i64, 4, 2, 5, 3, 6];
    let dst = col_major_to_row_major(&src, 2, 3).unwrap();
    assert_eq!(dst, vec![1i64, 2, 3, 4, 5, 6]);
}

#[test]
fn test_layout_round_trip_floats() {
    let src = vec![1.5f32, -2.25, 3.0, 0.5, 9.75, -1.0];
    let col = row_major_to_col_major(&src, 2, 3).unwrap();
    let back = col_major_to_row_major(&col, 2, 3).unwrap();
    assert_eq!(back, src);
    let row = col_major_to_row_major(&src, 2, 3).unwrap();
    let forth = row_major_to_col_major(&row, 2, 3).unwrap();
    assert_eq!(forth, src);
}

#[test]
fn test_layout_round_trip_single_column() {
    let src = vec![10u32, 20, 30, 40];
    let col = row_major_to_col_major(&src, 4, 1).unwrap();
    assert_eq!(col, src, "a single column is its own transpose image");
    let back = col_major_to_row_major(&col, 4, 1).unwrap();
    assert_eq!(back, src);
}

#[test]
fn test_layout_rejects_empty() {
    let src: Vec<f32> = vec![];
    assert!(matches!(
        row_major_to_col_major(&src, 0, 0),
        Err(MatmulError::InvalidInput(_))
    ));
    assert!(matches!(
        col_major_to_row_major(&src, 0, 0),
        Err(MatmulError::InvalidInput(_))
    ));
}

#[test]
fn test_layout_rejects_length_mismatch() {
    let src = vec![1.0f32, 2.0, 3.0, 4.0, 5.0];
    assert!(matches!(
        row_major_to_col_major(&src, 2, 3),
        Err(MatmulError::InvalidInput(_))
    ));
    assert!(matches!(
        col_major_to_row_major(&src, 2, 3),
        Err(MatmulError::InvalidInput(_))
    ));
}
