use tuneitverse::table_tools::{stft_cell_selected, stft_grid_check, table_dims, table_op, TableOp};

#[test]
fn dims_of_tables() {
    assert_eq!(table_dims(&[2, 2]), Ok((2, 2)));
    assert_eq!(table_dims(&[3]), Ok((1, 3)));
    assert_eq!(table_dims(&[]), Err("empty table".to_string()));
    assert_eq!(table_dims(&[0, 0]), Err("empty table".to_string()));
    assert_eq!(table_dims(&[2, 3]), Err("ragged table".to_string()));
}

#[test]
fn op_names() {
    assert_eq!(table_op("Scale"), Ok(TableOp::Scale));
    assert_eq!(table_op("MUL"), Ok(TableOp::Scale));
    assert_eq!(table_op("multiply"), Ok(TableOp::Scale));
    assert_eq!(table_op("offset"), Ok(TableOp::Add));
    assert_eq!(table_op("Add"), Ok(TableOp::Add));
    assert_eq!(table_op("BLUR"), Ok(TableOp::Smooth));
    assert_eq!(table_op("Twist"), Err("unknown table op 'twist'".to_string()));
}

#[test]
fn stft_grid_and_cells() {
    assert!(stft_grid_check(2, 2, &[2, 2], &[2, 2]).is_ok());
    assert_eq!(
        stft_grid_check(2, 2, &[2], &[2, 2]),
        Err("grid mismatch: table 2x2, occupancy rows 1, stft rows 2".to_string())
    );
    assert_eq!(stft_grid_check(2, 2, &[2, 2], &[2, 1]), Err("ragged occupancy/stft grid".to_string()));
    assert!(stft_cell_selected(10, Some(3), true));
    assert!(!stft_cell_selected(0, Some(3), true));
    assert!(!stft_cell_selected(4, Some(3), false));
    assert!(stft_cell_selected(3, None, true));
    assert!(!stft_cell_selected(2, None, true));
}
