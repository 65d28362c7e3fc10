use lazy_batch::{
    encode_bytes_datum, encode_int_datum, encode_null_datum, encode_real_datum, BatchRows,
    ColumnSchema, EvalType, Tz,
};

fn enc_int(v: i64) -> Vec<u8> {
    encode_int_datum(v)
}

fn enc_real(v: f64) -> Vec<u8> {
    encode_real_datum(v.to_bits())
}

fn enc_null() -> Vec<u8> {
    encode_null_datum()
}

fn absent() -> Vec<u8> {
    Vec::new()
}

#[test]
fn test_ensure_column_decoded() {
    let schema = [
        // Column 0: integers, default value 5.
        ColumnSchema {
            eval_type: EvalType::Int,
            nullable: true,
            default_value: Some(encode_int_datum(5)),
            column_id: 1,
        },
        // Column 1: reals, no default value.
        ColumnSchema::nullable_without_default(EvalType::Real, 2),
        // Column 2: byte strings, no default value.
        ColumnSchema::nullable_without_default(EvalType::Bytes, 3),
    ];

    let values: Vec<Vec<Vec<u8>>> = vec![
        vec![enc_int(1), enc_real(1.0), absent()],
        // An absent cell in column 0 should decode to its default value 5.
        vec![absent(), enc_null(), encode_bytes_datum(&[0u8, 2u8])],
        // A NULL sentinel in column 0 should decode to NULL.
        vec![enc_null(), enc_real(3.0), absent()],
        // An absent cell in column 1 should decode to NULL: no default value.
        vec![enc_int(4), absent(), enc_null()],
    ];

    // Empty batch.
    let mut rows = BatchRows::<()>::raw(3, 1);
    assert_eq!(rows.rows_len(), 0);
    assert_eq!(rows.columns_len(), 3);

    for raw_row in &values {
        rows.push_raw_row(raw_row);
    }
    assert_eq!(rows.rows_len(), values.len());

    // Decode column index 2.
    assert!(!rows.is_column_decoded(2));
    {
        let col = rows.ensure_column_decoded(2, Tz::utc(), &schema[2]).unwrap();
        assert_eq!(col.len(), 4);
        assert_eq!(col.eval_type(), EvalType::Bytes);
        assert_eq!(
            col.as_bytes_slice(),
            &[None, Some(vec![0u8, 2u8]), None, None]
        );
    }
    // Decode a decoded column.
    assert!(rows.is_column_decoded(2));
    {
        let col = rows.ensure_column_decoded(2, Tz::utc(), &schema[2]).unwrap();
        assert_eq!(col.len(), 4);
        assert_eq!(col.eval_type(), EvalType::Bytes);
        assert_eq!(
            col.as_bytes_slice(),
            &[None, Some(vec![0u8, 2u8]), None, None]
        );
    }
    assert!(rows.is_column_decoded(2));

    // Decode column index 0.
    assert!(!rows.is_column_decoded(0));
    {
        let col = rows.ensure_column_decoded(0, Tz::utc(), &schema[0]).unwrap();
        assert_eq!(col.len(), 4);
        assert_eq!(col.eval_type(), EvalType::Int);
        assert_eq!(col.as_int_slice(), &[Some(1), Some(5), None, Some(4)]);
    }
    assert!(rows.is_column_decoded(0));

    // Decode column index 1.
    assert!(!rows.is_column_decoded(1));
    {
        let col = rows.ensure_column_decoded(1, Tz::utc(), &schema[1]).unwrap();
        assert_eq!(col.len(), 4);
        assert_eq!(col.eval_type(), EvalType::Real);
        assert_eq!(
            col.as_real_slice(),
            &[Some(1.0f64.to_bits()), None, Some(3.0f64.to_bits()), None]
        );
    }
    assert!(rows.is_column_decoded(1));
}

#[test]
fn test_retain_by_index() {
    let schema = [
        // Column 0: integers, default value 5.
        ColumnSchema {
            eval_type: EvalType::Int,
            nullable: true,
            default_value: Some(encode_int_datum(5)),
            column_id: 1,
        },
        // Column 1: reals.
        ColumnSchema::nullable_without_default(EvalType::Real, 2),
    ];

    let mut rows = BatchRows::<()>::raw(2, 3);
    assert_eq!(rows.rows_len(), 0);
    assert_eq!(rows.columns_len(), 2);
    assert_eq!(rows.rows_capacity(), 3);
    rows.retain_by_index(&[]);
    assert_eq!(rows.rows_len(), 0);
    assert_eq!(rows.columns_len(), 2);
    assert_eq!(rows.rows_capacity(), 3);
    rows.retain_by_index(&[]);
    assert_eq!(rows.rows_len(), 0);
    assert_eq!(rows.columns_len(), 2);
    assert_eq!(rows.rows_capacity(), 3);

    rows.push_raw_row(&vec![absent(), enc_real(1.3)]);
    rows.push_raw_row(&vec![absent(), absent()]);
    rows.push_raw_row(&vec![enc_int(3), absent()]);
    rows.push_raw_row(&vec![enc_int(3), enc_real(5.0)]);
    rows.push_raw_row(&vec![enc_int(11), enc_real(7.5)]);
    rows.push_raw_row(&vec![absent(), enc_real(13.1)]);

    let retain_map = &[true, true, false, false, true, false];
    rows.retain_by_index(retain_map);

    assert_eq!(rows.rows_len(), 3);
    assert_eq!(rows.columns_len(), 2);
    assert!(rows.rows_capacity() > 3);
    {
        // Clone `rows` because `ensure_column_decoded` will mutate the lazy
        // column from raw bytes to decoded permanently.
        let mut rows = rows.clone();
        let column0 = rows.ensure_column_decoded(0, Tz::utc(), &schema[0]).unwrap();
        assert_eq!(column0.len(), 3);
        assert_eq!(column0.eval_type(), EvalType::Int);
        assert_eq!(column0.as_int_slice(), &[Some(5), Some(5), Some(11)]);
    }
    {
        let mut rows = rows.clone();
        let column1 = rows.ensure_column_decoded(1, Tz::utc(), &schema[1]).unwrap();
        assert_eq!(column1.len(), 3);
        assert_eq!(column1.eval_type(), EvalType::Real);
        assert_eq!(
            column1.as_real_slice(),
            &[Some(1.3f64.to_bits()), None, Some(7.5f64.to_bits())]
        );
    }

    rows.push_raw_row(&vec![absent(), enc_real(101.51)]);
    rows.push_raw_row(&vec![enc_int(1), absent()]);
    rows.push_raw_row(&vec![enc_int(5), enc_real(1.9)]);
    rows.push_raw_row(&vec![absent(), enc_real(101.51)]);

    assert_eq!(rows.rows_len(), 7);
    assert_eq!(rows.columns_len(), 2);
    {
        let mut rows = rows.clone();
        let column0 = rows.ensure_column_decoded(0, Tz::utc(), &schema[0]).unwrap();
        assert_eq!(column0.len(), 7);
        assert_eq!(column0.eval_type(), EvalType::Int);
        assert_eq!(
            column0.as_int_slice(),
            &[
                Some(5),
                Some(5),
                Some(11),
                Some(5),
                Some(1),
                Some(5),
                Some(5)
            ]
        );
    }
    {
        let mut rows = rows.clone();
        let column1 = rows.ensure_column_decoded(1, Tz::utc(), &schema[1]).unwrap();
        assert_eq!(column1.len(), 7);
        assert_eq!(column1.eval_type(), EvalType::Real);
        assert_eq!(
            column1.as_real_slice(),
            &[
                Some(1.3f64.to_bits()),
                None,
                Some(7.5f64.to_bits()),
                Some(101.51f64.to_bits()),
                None,
                Some(1.9f64.to_bits()),
                Some(101.51f64.to_bits())
            ]
        );
    }

    let retain_map = &[true, false, true, false, false, true, true];
    rows.retain_by_index(retain_map);

    assert_eq!(rows.rows_len(), 4);
    assert_eq!(rows.columns_len(), 2);
    {
        let mut rows = rows.clone();
        let column0 = rows.ensure_column_decoded(0, Tz::utc(), &schema[0]).unwrap();
        assert_eq!(column0.len(), 4);
        assert_eq!(column0.eval_type(), EvalType::Int);
        assert_eq!(column0.as_int_slice(), &[Some(5), Some(11), Some(5), Some(5)]);
    }
    {
        let mut rows = rows.clone();
        let column1 = rows.ensure_column_decoded(1, Tz::utc(), &schema[1]).unwrap();
        assert_eq!(column1.len(), 4);
        assert_eq!(column1.eval_type(), EvalType::Real);
        assert_eq!(
            column1.as_real_slice(),
            &[
                Some(1.3f64.to_bits()),
                Some(7.5f64.to_bits()),
                Some(1.9f64.to_bits()),
                Some(101.51f64.to_bits())
            ]
        );
    }

    rows.retain_by_index(&[true, true, true, true]);

    assert_eq!(rows.rows_len(), 4);
    assert_eq!(rows.columns_len(), 2);
    {
        let mut rows = rows.clone();
        let column0 = rows.ensure_column_decoded(0, Tz::utc(), &schema[0]).unwrap();
        assert_eq!(column0.len(), 4);
        assert_eq!(column0.eval_type(), EvalType::Int);
        assert_eq!(column0.as_int_slice(), &[Some(5), Some(11), Some(5), Some(5)]);
    }
    {
        let mut rows = rows.clone();
        let column1 = rows.ensure_column_decoded(1, Tz::utc(), &schema[1]).unwrap();
        assert_eq!(column1.len(), 4);
        assert_eq!(column1.eval_type(), EvalType::Real);
        assert_eq!(
            column1.as_real_slice(),
            &[
                Some(1.3f64.to_bits()),
                Some(7.5f64.to_bits()),
                Some(1.9f64.to_bits()),
                Some(101.51f64.to_bits())
            ]
        );
    }

    rows.retain_by_index(&[false, false, false, false]);

    assert_eq!(rows.rows_len(), 0);
    assert_eq!(rows.columns_len(), 2);
    {
        let mut rows = rows.clone();
        let column0 = rows.ensure_column_decoded(0, Tz::utc(), &schema[0]).unwrap();
        assert_eq!(column0.len(), 0);
        assert_eq!(column0.eval_type(), EvalType::Int);
        assert_eq!(column0.as_int_slice(), &[] as &[Option<i64>]);
    }
    {
        let mut rows = rows.clone();
        let column1 = rows.ensure_column_decoded(1, Tz::utc(), &schema[1]).unwrap();
        assert_eq!(column1.len(), 0);
        assert_eq!(column1.eval_type(), EvalType::Real);
        assert_eq!(column1.as_real_slice(), &[] as &[Option<u64>]);
    }

    rows.push_raw_row(&vec![absent(), enc_real(7.77)]);
    rows.push_raw_row(&vec![enc_int(5), absent()]);
    rows.push_raw_row(&vec![enc_int(1), enc_real(7.17)]);

    assert_eq!(rows.rows_len(), 3);
    assert_eq!(rows.columns_len(), 2);
    {
        let mut rows = rows.clone();
        let column0 = rows.ensure_column_decoded(0, Tz::utc(), &schema[0]).unwrap();
        assert_eq!(column0.len(), 3);
        assert_eq!(column0.eval_type(), EvalType::Int);
        assert_eq!(column0.as_int_slice(), &[Some(5), Some(5), Some(1)]);
    }
    {
        let mut rows = rows.clone();
        let column1 = rows.ensure_column_decoded(1, Tz::utc(), &schema[1]).unwrap();
        assert_eq!(column1.len(), 3);
        assert_eq!(column1.eval_type(), EvalType::Real);
        assert_eq!(
            column1.as_real_slice(),
            &[Some(7.77f64.to_bits()), None, Some(7.17f64.to_bits())]
        );
    }

    // Change a column from lazy to decoded and test whether retain works.
    rows.ensure_column_decoded(0, Tz::utc(), &schema[0]).unwrap();

    rows.retain_by_index(&[true, true, true]);

    assert_eq!(rows.rows_len(), 3);
    assert_eq!(rows.columns_len(), 2);
    {
        let mut rows = rows.clone();
        let column0 = rows.ensure_column_decoded(0, Tz::utc(), &schema[0]).unwrap();
        assert_eq!(column0.len(), 3);
        assert_eq!(column0.eval_type(), EvalType::Int);
        assert_eq!(column0.as_int_slice(), &[Some(5), Some(5), Some(1)]);
    }
    {
        let mut rows = rows.clone();
        let column1 = rows.ensure_column_decoded(1, Tz::utc(), &schema[1]).unwrap();
        assert_eq!(column1.len(), 3);
        assert_eq!(column1.eval_type(), EvalType::Real);
        assert_eq!(
            column1.as_real_slice(),
            &[Some(7.77f64.to_bits()), None, Some(7.17f64.to_bits())]
        );
    }

    let retain_map = &[true, false, true];
    rows.retain_by_index(retain_map);

    assert_eq!(rows.rows_len(), 2);
    assert_eq!(rows.columns_len(), 2);
    {
        let mut rows = rows.clone();
        let column0 = rows.ensure_column_decoded(0, Tz::utc(), &schema[0]).unwrap();
        assert_eq!(column0.len(), 2);
        assert_eq!(column0.eval_type(), EvalType::Int);
        assert_eq!(column0.as_int_slice(), &[Some(5), Some(1)]);
    }
    {
        let mut rows = rows.clone();
        let column1 = rows.ensure_column_decoded(1, Tz::utc(), &schema[1]).unwrap();
        assert_eq!(column1.len(), 2);
        assert_eq!(column1.eval_type(), EvalType::Real);
        assert_eq!(
            column1.as_real_slice(),
            &[Some(7.77f64.to_bits()), Some(7.17f64.to_bits())]
        );
    }

    rows.retain_by_index(&[false, false]);

    assert_eq!(rows.rows_len(), 0);
    assert_eq!(rows.columns_len(), 2);
    {
        let mut rows = rows.clone();
        let column0 = rows.ensure_column_decoded(0, Tz::utc(), &schema[0]).unwrap();
        assert_eq!(column0.len(), 0);
        assert_eq!(column0.eval_type(), EvalType::Int);
        assert_eq!(column0.as_int_slice(), &[] as &[Option<i64>]);
    }
    {
        let mut rows = rows.clone();
        let column1 = rows.ensure_column_decoded(1, Tz::utc(), &schema[1]).unwrap();
        assert_eq!(column1.len(), 0);
        assert_eq!(column1.eval_type(), EvalType::Real);
        assert_eq!(column1.as_real_slice(), &[] as &[Option<u64>]);
    }
}
