use sqlx_core::sqlite::types::boolean::{
    DataType, Decode, Encode, IsNull, SqliteArgumentValue, SqliteTypeInfo, SqliteValueRef, Type,
};

#[test]
fn bool_has_its_own_type() {
    assert_eq!(<bool as Type>::type_info(), SqliteTypeInfo(DataType::Bool));
}

#[test]
fn bool_is_bound_as_an_integer() {
    let mut args = vec![SqliteArgumentValue::Null];
    assert_eq!(true.encode_by_ref(&mut args), IsNull::No);
    assert_eq!(false.encode_by_ref(&mut args), IsNull::No);
    assert_eq!(
        args,
        vec![
            SqliteArgumentValue::Null,
            SqliteArgumentValue::Int(1),
            SqliteArgumentValue::Int(0),
        ]
    );
}

#[test]
fn bool_is_read_from_values_of_every_type() {
    for ty in vec![
        DataType::Null,
        DataType::Int,
        DataType::Float,
        DataType::Text,
        DataType::Blob,
        DataType::Bool,
    ] {
        assert!(<bool as Decode>::accepts(&SqliteTypeInfo(ty)));
    }
}

#[test]
fn bool_is_true_for_every_integer_but_zero() {
    assert_eq!(<bool as Decode>::decode(SqliteValueRef::new(0)), Ok(false));
    for number in vec![1, -1, 2, i32::MAX, i32::MIN] {
        assert_eq!(<bool as Decode>::decode(SqliteValueRef::new(number)), Ok(true));
    }
}

#[test]
fn bool_reads_back() {
    for value in vec![true, false] {
        let mut args = Vec::new();
        let _ = value.encode_by_ref(&mut args);
        match args[0] {
            SqliteArgumentValue::Int(number) => {
                assert_eq!(<bool as Decode>::decode(SqliteValueRef::new(number)), Ok(value));
            }
            _ => panic!("a truth value is bound as an integer"),
        }
    }
}
