use lib::ast_pass::AstPass;
use lib::backend::Backend;
use lib::fragment::{Column, ColumnList, QueryFragment, SqlLiteral};
use lib::insert::{CanInsertInSingleQuery, ColumnInsertValue, InsertValues};
use lib::row::{FromSqlRow, QueryMetadata, SqlType, SqlValue, StaticallySizedRow};
use lib::upsert::NoConflictTarget;

fn render<F: QueryFragment>(f: &F, backend: Backend) -> String {
    let mut pass = AstPass::to_sql(backend);
    f.walk_ast(&mut pass).unwrap();
    pass.finish()
}

#[test]
fn mixed_pair_leaves_out_noop() {
    let p = (NoConflictTarget, SqlLiteral::new("x"));
    assert_eq!(render(&p, Backend::Pg), "x");
    let p = (SqlLiteral::new("x"), NoConflictTarget);
    assert_eq!(render(&p, Backend::Pg), "x");
    let p = (Column::new("t", "a"), SqlLiteral::new("1"));
    assert_eq!(render(&p, Backend::Pg), "\"t\".\"a\", 1");
}

#[test]
fn mixed_triple() {
    let t = (SqlLiteral::new("1"), NoConflictTarget, Column::new("t", "b"));
    assert_eq!(render(&t, Backend::Sqlite), "1, `t`.`b`");
    assert_eq!(t.is_noop(Backend::Sqlite).unwrap(), false);
    let all_noop = (NoConflictTarget, NoConflictTarget, NoConflictTarget);
    assert_eq!(all_noop.is_noop(Backend::Pg).unwrap(), true);
}

#[test]
fn column_list_pairs() {
    let p = (Column::new("t", "a"), Column::new("t", "b"));
    let mut pass = AstPass::to_sql(Backend::Pg);
    ColumnList::walk_ast(&p, &mut pass).unwrap();
    assert_eq!(pass.finish(), "\"a\", \"b\"");
    let t = (Column::new("t", "a"), Column::new("t", "b"), Column::new("t", "c"));
    let mut pass = AstPass::to_sql(Backend::Sqlite);
    ColumnList::walk_ast(&t, &mut pass).unwrap();
    assert_eq!(pass.finish(), "`a`, `b`, `c`");
}

#[test]
fn mixed_insert_values() {
    let v = (
        ColumnInsertValue::Expression(Column::new("t", "a"), SqlLiteral::new("1")),
        ColumnInsertValue::<Column>::Default(Column::new("t", "b")),
        ColumnInsertValue::Expression(Column::new("t", "c"), Column::new("u", "x")),
    );
    let mut pass = AstPass::to_sql(Backend::Sqlite);
    v.column_names(&mut pass).unwrap();
    assert_eq!(pass.finish(), "`a`, `c`");
    assert_eq!(render(&v, Backend::Sqlite), "1, `u`.`x`");
    let mut pass = AstPass::to_sql(Backend::Pg);
    v.column_names(&mut pass).unwrap();
    assert_eq!(pass.finish(), "\"a\", \"b\", \"c\"");
    assert_eq!(v.rows_to_insert(), Some(1));
    let pair = (
        ColumnInsertValue::Expression(Column::new("t", "a"), SqlLiteral::new("1")),
        ColumnInsertValue::<SqlLiteral>::Default(Column::new("t", "b")),
    );
    assert_eq!(pair.rows_to_insert(), Some(1));
    let mut pass = AstPass::to_sql(Backend::Mysql);
    pair.column_names(&mut pass).unwrap();
    assert_eq!(pass.finish(), "`a`, `b`");
}

fn big(v: i64) -> Option<SqlValue> {
    Some(SqlValue::BigInt(v))
}

#[test]
fn tuples_are_statically_sized() {
    assert_eq!(<(i64,)>::field_count(), 1);
    assert_eq!(<(i64, bool)>::field_count(), 2);
    assert_eq!(<(i64, bool, Option<String>)>::field_count(), 3);
}

#[test]
fn nested_tuple_before_the_last_position() {
    let row = [big(1), big(2), Some(SqlValue::Bool(true))];
    assert_eq!(<((i64, i64), bool)>::build_from_row(&row), Ok(((1, 2), true)));
}

#[test]
fn four_values() {
    let row = [big(1), Some(SqlValue::Text("b".to_string())), None, Some(SqlValue::Bool(false))];
    assert_eq!(
        <(i64, String, Option<i64>, bool)>::build_from_row(&row),
        Ok((1, "b".to_string(), None, false))
    );
    let short = [big(1), Some(SqlValue::Text("b".to_string()))];
    assert!(<(i64, String, Option<i64>, bool)>::build_from_row(&short).is_err());
    let mut meta = Vec::new();
    <(i64, String, Option<i64>, bool)>::row_metadata(&mut meta);
    assert_eq!(meta, vec![Some(SqlType::BigInt), Some(SqlType::Text), Some(SqlType::BigInt), Some(SqlType::Bool)]);
}
