use lazy_batch::{encode_int_datum, ColumnSchema, EvalType, LazyBatchColumn, Tz};

#[test]
fn test_lazy_batch_column_clone() {
    let col_info = ColumnSchema::nullable_without_default(EvalType::Int, 0);

    let mut col = LazyBatchColumn::raw_with_capacity(5);
    assert!(col.is_raw());
    assert_eq!(col.len(), 0);
    assert_eq!(col.capacity(), 5);
    assert_eq!(col.get_raw().len(), 0);
    {
        // Clone empty raw column.
        let col = col.clone();
        assert!(col.is_raw());
        assert_eq!(col.len(), 0);
        assert_eq!(col.capacity(), 5);
        assert_eq!(col.get_raw().len(), 0);
    }
    {
        // Empty raw to empty decoded.
        let mut col = col.clone();
        col.decode(Tz::utc(), &col_info).unwrap();
        assert!(col.is_decoded());
        assert_eq!(col.len(), 0);
        assert_eq!(col.capacity(), 5);
        assert_eq!(col.get_decoded().as_int_slice(), &[] as &[Option<i64>]);
        {
            // Clone empty decoded column.
            let col = col.clone();
            assert!(col.is_decoded());
            assert_eq!(col.len(), 0);
            assert_eq!(col.capacity(), 5);
            assert_eq!(col.get_decoded().as_int_slice(), &[] as &[Option<i64>]);
        }
    }

    let datum_raw_1 = encode_int_datum(32);
    col.push_raw(&datum_raw_1);

    let datum_raw_2 = encode_int_datum(7);
    col.push_raw(&datum_raw_2);

    assert!(col.is_raw());
    assert_eq!(col.len(), 2);
    assert_eq!(col.capacity(), 5);
    assert_eq!(col.get_raw().len(), 2);
    assert_eq!(col.get_raw().get(0).as_bytes(), datum_raw_1.as_slice());
    assert_eq!(col.get_raw().get(1).as_bytes(), datum_raw_2.as_slice());
    {
        // Clone non-empty raw column.
        let col = col.clone();
        assert!(col.is_raw());
        assert_eq!(col.len(), 2);
        assert_eq!(col.capacity(), 5);
        assert_eq!(col.get_raw().len(), 2);
        assert_eq!(col.get_raw().get(0).as_bytes(), datum_raw_1.as_slice());
        assert_eq!(col.get_raw().get(1).as_bytes(), datum_raw_2.as_slice());
    }
    // Non-empty raw to non-empty decoded.
    col.decode(Tz::utc(), &col_info).unwrap();
    assert!(col.is_decoded());
    assert_eq!(col.len(), 2);
    assert_eq!(col.capacity(), 5);
    assert_eq!(col.get_decoded().as_int_slice(), &[Some(32), Some(7)]);
    {
        // Clone non-empty decoded column.
        let col = col.clone();
        assert!(col.is_decoded());
        assert_eq!(col.len(), 2);
        assert_eq!(col.capacity(), 5);
        assert_eq!(col.get_decoded().as_int_slice(), &[Some(32), Some(7)]);
    }
}
