use lib::ast_pass::AstPass;
use lib::backend::Backend;
use lib::fragment::{Column, ColumnList, QueryFragment, SqlLiteral};
use lib::insert::{CanInsertInSingleQuery, ColumnInsertValue, InsertValues};
use lib::tuples::Tuple;

fn render<F: QueryFragment>(f: &F, backend: Backend) -> String {
    let mut pass = AstPass::to_sql(backend);
    f.walk_ast(&mut pass).unwrap();
    pass.finish()
}

fn columns<V: InsertValues>(v: &V, backend: Backend) -> String {
    let mut pass = AstPass::to_sql(backend);
    v.column_names(&mut pass).unwrap();
    pass.finish()
}

fn list<C: ColumnList>(c: &C, backend: Backend) -> String {
    let mut pass = AstPass::to_sql(backend);
    c.walk_ast(&mut pass).unwrap();
    pass.finish()
}

fn values() -> Tuple<ColumnInsertValue<SqlLiteral>> {
    Tuple::new(vec![
        ColumnInsertValue::Expression(Column::new("users", "id"), SqlLiteral::new("1")),
        ColumnInsertValue::Default(Column::new("users", "name")),
        ColumnInsertValue::Expression(Column::new("users", "email"), SqlLiteral::new("'a@b'")),
    ])
}

#[test]
fn column_expression() {
    assert_eq!(render(&Column::new("users", "id"), Backend::Pg), "\"users\".\"id\"");
    assert_eq!(render(&Column::new("users", "id"), Backend::Mysql), "`users`.`id`");
}

#[test]
fn tuple_of_columns() {
    let t = Tuple::new(vec![Column::new("users", "id"), Column::new("users", "name")]);
    assert_eq!(render(&t, Backend::Pg), "\"users\".\"id\", \"users\".\"name\"");
    assert_eq!(t.is_noop(Backend::Pg).unwrap(), false);
}

#[test]
fn column_list_of_tuple() {
    let t = Tuple::new(vec![Column::new("users", "id"), Column::new("users", "name")]);
    assert_eq!(list(&t, Backend::Pg), "\"id\", \"name\"");
    assert_eq!(list(&Column::new("users", "id"), Backend::Sqlite), "`id`");
    let one = Tuple::new(vec![Column::new("users", "id")]);
    assert_eq!(list(&one, Backend::Pg), "\"id\"");
}

#[test]
fn values_with_default_keyword() {
    let v = values();
    assert_eq!(render(&v, Backend::Pg), "1, DEFAULT, 'a@b'");
    assert_eq!(columns(&v, Backend::Pg), "\"id\", \"name\", \"email\"");
    assert_eq!(render(&v, Backend::Mysql), "1, DEFAULT, 'a@b'");
    assert_eq!(columns(&v, Backend::Mysql), "`id`, `name`, `email`");
}

#[test]
fn values_without_default_keyword_skip_defaults() {
    let v = values();
    assert_eq!(render(&v, Backend::Sqlite), "1, 'a@b'");
    assert_eq!(columns(&v, Backend::Sqlite), "`id`, `email`");
}

#[test]
fn leading_default_gets_no_comma() {
    let v = Tuple::new(vec![
        ColumnInsertValue::Default(Column::new("t", "a")),
        ColumnInsertValue::Expression(Column::new("t", "b"), SqlLiteral::new("2")),
    ]);
    assert_eq!(render(&v, Backend::Sqlite), "2");
    assert_eq!(columns(&v, Backend::Sqlite), "`b`");
    assert_eq!(render(&v, Backend::Pg), "DEFAULT, 2");
}

#[test]
fn all_defaults_are_noop_without_keyword() {
    let v: Tuple<ColumnInsertValue<SqlLiteral>> = Tuple::new(vec![
        ColumnInsertValue::Default(Column::new("t", "a")),
        ColumnInsertValue::Default(Column::new("t", "b")),
    ]);
    assert_eq!(v.is_noop(Backend::Sqlite).unwrap(), true);
    assert_eq!(render(&v, Backend::Sqlite), "");
    assert_eq!(columns(&v, Backend::Sqlite), "");
    assert_eq!(v.is_noop(Backend::Pg).unwrap(), false);
}

#[test]
fn rows_to_insert_is_one() {
    let v = values();
    assert_eq!(v.rows_to_insert(), Some(1));
    let single: ColumnInsertValue<SqlLiteral> = ColumnInsertValue::Default(Column::new("t", "a"));
    assert_eq!(single.rows_to_insert(), Some(1));
}

#[test]
fn tuple_accessors() {
    let t = Tuple::new(vec![Column::new("t", "a"), Column::new("t", "b")]);
    assert_eq!(t.len(), 2);
    assert_eq!(t.get(1).name, "b");
}

#[test]
fn pass_modes() {
    let mut pass = AstPass::to_sql(Backend::Pg);
    pass.push_sql("SELECT ");
    pass.push_identifier("x").unwrap();
    assert_eq!(pass.sql(), "SELECT \"x\"");
    assert_eq!(pass.noop_result(), true);
    assert_eq!(pass.backend(), Backend::Pg);
    let mut noop = AstPass::is_noop(Backend::Pg);
    assert_eq!(noop.noop_result(), true);
    noop.push_sql("");
    assert_eq!(noop.noop_result(), false);
    assert_eq!(noop.sql(), "");
}
