use lib::row::{DeserializeError, FromSqlRow, QueryMetadata, SqlType, SqlValue, UntypedRow};

fn big(v: i64) -> Option<SqlValue> {
    Some(SqlValue::BigInt(v))
}

fn txt(s: &str) -> Option<SqlValue> {
    Some(SqlValue::Text(s.to_string()))
}

#[test]
fn single_values() {
    assert_eq!(i64::build_from_row(&[big(7)]), Ok(7));
    assert_eq!(bool::build_from_row(&[Some(SqlValue::Bool(true))]), Ok(true));
    assert_eq!(String::build_from_row(&[txt("hi")]), Ok("hi".to_string()));
}

#[test]
fn single_value_errors() {
    assert_eq!(i64::build_from_row(&[]), Err(DeserializeError::UnexpectedEndOfRow));
    assert_eq!(i64::build_from_row(&[None]), Err(DeserializeError::UnexpectedNull));
    assert_eq!(i64::build_from_row(&[txt("x")]), Err(DeserializeError::WrongType));
}

#[test]
fn optional_values() {
    assert_eq!(Option::<i64>::build_from_row(&[None]), Ok(None));
    assert_eq!(Option::<i64>::build_from_row(&[big(3)]), Ok(Some(3)));
    assert_eq!(Option::<i64>::build_from_row(&[txt("x")]), Err(DeserializeError::WrongType));
    assert_eq!(Option::<i64>::build_from_row(&[]), Err(DeserializeError::UnexpectedEndOfRow));
}

#[test]
fn one_tuple() {
    assert_eq!(<(i64,)>::build_from_row(&[big(1)]), Ok((1,)));
    assert_eq!(<(i64,)>::build_from_row(&[None]), Err(DeserializeError::UnexpectedNull));
}

#[test]
fn pair_splits_the_row() {
    let row = [big(1), txt("a")];
    assert_eq!(<(i64, String)>::build_from_row(&row), Ok((1, "a".to_string())));
}

#[test]
fn pair_first_error_wins() {
    let row = [None, Some(SqlValue::Bool(true))];
    assert_eq!(<(i64, String)>::build_from_row(&row), Err(DeserializeError::UnexpectedNull));
    let row = [big(1), Some(SqlValue::Bool(true))];
    assert_eq!(<(i64, String)>::build_from_row(&row), Err(DeserializeError::WrongType));
    let row = [big(1)];
    assert_eq!(<(i64, String)>::build_from_row(&row), Err(DeserializeError::UnexpectedEndOfRow));
}

#[test]
fn triple_splits_the_row() {
    let row = [big(1), None, txt("c")];
    assert_eq!(
        <(i64, Option<i64>, String)>::build_from_row(&row),
        Ok((1, None, "c".to_string()))
    );
}

#[test]
fn nullable_tuple_is_none_on_null() {
    let row = [None, txt("a")];
    assert_eq!(Option::<(i64, String)>::build_from_row(&row), Ok(None));
    let row = [big(1), None];
    assert_eq!(Option::<(i64, String)>::build_from_row(&row), Ok(None));
    let row = [big(1), txt("a")];
    assert_eq!(Option::<(i64, String)>::build_from_row(&row), Ok(Some((1, "a".to_string()))));
    let row = [big(1), big(2)];
    assert_eq!(Option::<(i64, String)>::build_from_row(&row), Err(DeserializeError::WrongType));
}

#[test]
fn untyped_rest() {
    let row = [big(1), txt("a"), None, Some(SqlValue::Bool(false))];
    let (a, rest) = <(i64, UntypedRow)>::build_from_row(&row).unwrap();
    assert_eq!(a, 1);
    assert_eq!(rest.fields.len(), 3);
    assert!(matches!(&rest.fields[0], Some(SqlValue::Text(s)) if s == "a"));
    assert!(rest.fields[1].is_none());
    assert!(matches!(rest.fields[2], Some(SqlValue::Bool(false))));
    let (a, b, rest) = <(i64, String, UntypedRow)>::build_from_row(&row).unwrap();
    assert_eq!((a, b), (1, "a".to_string()));
    assert_eq!(rest.fields.len(), 2);
}

#[test]
fn untyped_rest_of_short_row_is_empty() {
    let row = [big(1)];
    let (a, rest) = <(i64, UntypedRow)>::build_from_row(&row).unwrap();
    assert_eq!(a, 1);
    assert_eq!(rest.fields.len(), 0);
}

#[test]
fn metadata_lists_types_in_order() {
    let mut row = vec![None];
    <(i64, (String, Option<bool>))>::row_metadata(&mut row);
    assert_eq!(row, vec![None, Some(SqlType::BigInt), Some(SqlType::Text), Some(SqlType::Bool)]);
    let mut row = Vec::new();
    <(i64, bool, String)>::row_metadata(&mut row);
    assert_eq!(row, vec![Some(SqlType::BigInt), Some(SqlType::Bool), Some(SqlType::Text)]);
    let mut row = Vec::new();
    <(Option<String>,)>::row_metadata(&mut row);
    assert_eq!(row, vec![Some(SqlType::Text)]);
}
